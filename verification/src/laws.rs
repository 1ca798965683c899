//! Properties of the stock book that span several requests: what a
//! check-out may never do, how the history accounts for every stock change,
//! how barcodes stay unique, and the round trips of stored texts.

use vstd::prelude::*;
use crate::models::{opt_view, tx_type_text, tx_type_of_text, Item, Movement, TxType};
use crate::store::{Stock, appended, has_item};
use crate::queries::{
    moved, check_out_error, add_item_error, add_item_outcome, update_item_error, is_new_item, items_updated,
    normalized, has_barcode, barcode_in_use, barcode_used, first_free_at, code_text, cycle_code,
    barcode_start, is_code5, code_value, digit_of, digit_char, ItemInput, setting_value,
    setting_written,
};
use crate::text::{trimmed, trim_front, trim_back, is_blank, is_white, lemma_trimmed_idempotent};
use crate::theme::{Theme, theme_text, theme_of_text, other_theme};
use crate::clock::{clock_text, clock_day, time_stamp, days_until_spec, lemma_clock_text_shape, MIN_DAY, MAX_DAY};
use crate::queries::{movement_outcome};
use crate::views::{
    expiry_list, expiry_alerts_outcome, sorted_soonest_first, with_days, expires_within,
    expiring_count, ExpiryAlert,
};
use crate::store::unchanged;

verus! {

// ─────────────────────────────── stock levels ───────────────────────────────

/// The signed stock change that the history records for item `id`:
/// check-ins count up, check-outs count down.
pub open spec fn net_moved(ms: Seq<Movement>, id: i64) -> int
    decreases ms.len(),
{
    if ms.len() == 0 {
        0
    } else {
        let m = ms.last();
        let rest = net_moved(ms.drop_last(), id);
        if m.item_id == id {
            match m.tx_type {
                TxType::In => rest + m.quantity,
                TxType::Out => rest - m.quantity,
            }
        } else {
            rest
        }
    }
}

/// A check-out that is not refused never takes more than the item holds:
/// the item is left with a quantity of zero or more, exactly `qty` less
/// than before.
pub proof fn law_check_out_never_overdraws(
    old: Stock,
    new: Stock,
    item_id: i64,
    user_id: Option<i64>,
    qty: i64,
    note: Seq<char>,
    now: Seq<char>,
)
    requires
        old.wf(),
        check_out_error(old, item_id, user_id, qty) is None,
        moved(old, new, item_id, user_id, TxType::Out, qty, note, now),
    ensures
        forall|k: int|
            0 <= k < new.items@.len() && #[trigger] new.items@[k].id == item_id ==> {
                &&& new.items@[k].quantity >= 0
                &&& new.items@[k].quantity == old.items@[k].quantity - qty
            },
{
    assert forall|k: int|
        0 <= k < new.items@.len() && #[trigger] new.items@[k].id == item_id implies {
            &&& new.items@[k].quantity >= 0
            &&& new.items@[k].quantity == old.items@[k].quantity - qty
        } by {
        assert(old.items@[k].id == item_id);
        crate::queries::lemma_item_with_id(old, k);
    }
}

/// Every movement keeps the books balanced: for each item, its quantity
/// minus the net change its history records stays the same.
pub proof fn law_movement_keeps_ledger(
    old: Stock,
    new: Stock,
    item_id: i64,
    user_id: Option<i64>,
    kind: TxType,
    qty: i64,
    note: Seq<char>,
    now: Seq<char>,
)
    requires
        old.wf(),
        moved(old, new, item_id, user_id, kind, qty, note, now),
    ensures
        forall|k: int|
            0 <= k < new.items@.len() ==> #[trigger] new.items@[k].quantity - net_moved(
                new.movements@,
                new.items@[k].id,
            ) == old.items@[k].quantity - net_moved(old.movements@, old.items@[k].id),
{
    let ms = new.movements@;
    assert(ms.drop_last() =~= old.movements@) by {
        assert(ms.take(old.movements@.len() as int) == old.movements@);
    }
    assert forall|k: int| 0 <= k < new.items@.len() implies #[trigger] new.items@[k].quantity
        - net_moved(new.movements@, new.items@[k].id) == old.items@[k].quantity - net_moved(
        old.movements@,
        old.items@[k].id,
    ) by {
        assert(new.items@[k].id == old.items@[k].id);
    }
}

/// Receiving an amount and then taking the same amount out again leaves
/// every item's quantity as it was, and the history two rows longer.
pub proof fn law_check_in_then_out_restores(
    a: Stock,
    b: Stock,
    c: Stock,
    item_id: i64,
    in_user: Option<i64>,
    out_user: Option<i64>,
    qty: i64,
    in_note: Seq<char>,
    out_note: Seq<char>,
    in_time: Seq<char>,
    out_time: Seq<char>,
)
    requires
        a.wf(),
        moved(a, b, item_id, in_user, TxType::In, qty, in_note, in_time),
        moved(b, c, item_id, out_user, TxType::Out, qty, out_note, out_time),
    ensures
        c.items@.len() == a.items@.len(),
        forall|k: int| 0 <= k < c.items@.len() ==> #[trigger] c.items@[k].quantity == a.items@[k].quantity,
        c.movements@.len() == a.movements@.len() + 2,
{
    assert forall|k: int| 0 <= k < c.items@.len() implies #[trigger] c.items@[k].quantity
        == a.items@[k].quantity by {
        assert(b.items@[k].id == a.items@[k].id);
    }
}

// ───────────────────────────────── barcodes ─────────────────────────────────

/// No two items carry the same barcode.
pub open spec fn barcodes_unique(items: Seq<Item>) -> bool {
    forall|i: int, j: int|
        0 <= i < j < items.len() && #[trigger] items[i].barcode is Some && #[trigger] items[j].barcode is Some
            ==> items[i].barcode->0@ != items[j].barcode->0@
}

/// Every barcode present is stored as `normalized` leaves it: trimmed and
/// not blank.
pub open spec fn barcodes_normalized(items: Seq<Item>) -> bool {
    forall|k: int|
        0 <= k < items.len() && #[trigger] items[k].barcode is Some ==> normalized(
            Some(items[k].barcode->0@),
        ) == Some(items[k].barcode->0@)
}

/// Normalizing a barcode twice gives what normalizing it once gives.
pub proof fn law_normalize_idempotent(b: Option<Seq<char>>)
    ensures
        normalized(normalized(b)) == normalized(b),
{
    if let Some(s) = b {
        if !is_blank(s) {
            lemma_trimmed_idempotent(s);
        }
    }
}

/// At most one item carries a given barcode when barcodes are unique, so a
/// lookup by barcode names that one item.
pub proof fn law_unique_barcode_carrier(items: Seq<Item>, code: Seq<char>, k: int, j: int)
    requires
        barcodes_unique(items),
        0 <= k < items.len(),
        0 <= j < items.len(),
        has_barcode(items[k], code),
        has_barcode(items[j], code),
    ensures
        j == k,
{
    if j < k {
        assert(items[j].barcode is Some && items[k].barcode is Some);
    } else if k < j {
        assert(items[k].barcode is Some && items[j].barcode is Some);
    }
}

/// Adding an item keeps barcodes unique and normalized.
pub proof fn law_add_item_keeps_barcodes(
    old: Stock,
    new: Stock,
    input: ItemInput,
    id: i64,
    now: Seq<char>,
)
    requires
        old.wf(),
        barcodes_unique(old.items@),
        barcodes_normalized(old.items@),
        add_item_error(old, input) is None,
        appended(old.items@, new.items@),
        is_new_item(new.items@.last(), id, input, now),
    ensures
        barcodes_unique(new.items@),
        barcodes_normalized(new.items@),
{
    let o = old.items@;
    let n = new.items@;
    let last = (n.len() - 1) as int;
    assert forall|i: int| 0 <= i < o.len() implies #[trigger] n[i] == o[i] by {
        assert(n.take(o.len() as int)[i] == n[i]);
    }
    law_normalize_idempotent(opt_view(input.barcode));
    assert forall|i: int, j: int|
        0 <= i < j < n.len() && #[trigger] n[i].barcode is Some && #[trigger] n[j].barcode is Some
            implies n[i].barcode->0@ != n[j].barcode->0@ by {
        assert(n[i] == o[i]);
        if j == last {
            let code = n[j].barcode->0@;
            assert(normalized(opt_view(input.barcode)) == Some(code));
            if n[i].barcode->0@ == code {
                assert(has_barcode(o[i], code));
                assert(o[i].id >= 1);
                assert(barcode_in_use(o, code, None));
            }
        } else {
            assert(n[j] == o[j]);
        }
    }
    assert forall|k: int| 0 <= k < n.len() && #[trigger] n[k].barcode is Some implies normalized(
        Some(n[k].barcode->0@),
    ) == Some(n[k].barcode->0@) by {
        if k < o.len() {
            assert(n[k] == o[k]);
        }
    }
}

/// Changing an item keeps barcodes unique and normalized.
pub proof fn law_update_item_keeps_barcodes(
    old: Stock,
    new: Stock,
    id: i64,
    input: ItemInput,
    now: Seq<char>,
)
    requires
        old.wf(),
        barcodes_unique(old.items@),
        barcodes_normalized(old.items@),
        update_item_error(old, id, input) is None,
        items_updated(old.items@, new.items@, id, input, now),
    ensures
        barcodes_unique(new.items@),
        barcodes_normalized(new.items@),
{
    let o = old.items@;
    let n = new.items@;
    law_normalize_idempotent(opt_view(input.barcode));
    assert forall|i: int, j: int|
        0 <= i < j < n.len() && #[trigger] n[i].barcode is Some && #[trigger] n[j].barcode is Some
            implies n[i].barcode->0@ != n[j].barcode->0@ by {
        assert(o[i].id < o[j].id);
        if o[j].id == id {
            let code = n[j].barcode->0@;
            assert(normalized(opt_view(input.barcode)) == Some(code));
            assert(n[i] == o[i]);
            if n[i].barcode->0@ == code {
                assert(has_barcode(o[i], code));
                assert(barcode_in_use(o, code, Some(id)));
            }
        } else if o[i].id == id {
            let code = n[i].barcode->0@;
            assert(normalized(opt_view(input.barcode)) == Some(code));
            assert(n[j] == o[j]);
            if n[j].barcode->0@ == code {
                assert(has_barcode(o[j], code));
                assert(barcode_in_use(o, code, Some(id)));
            }
        } else {
            assert(n[i] == o[i]);
            assert(n[j] == o[j]);
        }
    }
    assert forall|k: int| 0 <= k < n.len() && #[trigger] n[k].barcode is Some implies normalized(
        Some(n[k].barcode->0@),
    ) == Some(n[k].barcode->0@) by {
        if o[k].id != id {
            assert(n[k] == o[k]);
        }
    }
}

/// A check-in or check-out keeps barcodes unique and normalized.
pub proof fn law_movement_keeps_barcodes(
    old: Stock,
    new: Stock,
    item_id: i64,
    user_id: Option<i64>,
    kind: TxType,
    qty: i64,
    note: Seq<char>,
    now: Seq<char>,
)
    requires
        barcodes_unique(old.items@),
        barcodes_normalized(old.items@),
        moved(old, new, item_id, user_id, kind, qty, note, now),
    ensures
        barcodes_unique(new.items@),
        barcodes_normalized(new.items@),
{
    let o = old.items@;
    let n = new.items@;
    assert forall|k: int| 0 <= k < n.len() && #[trigger] n[k].barcode is Some implies n[k].barcode
        == o[k].barcode by {
        if o[k].id != item_id {
            assert(n[k] == o[k]);
        }
    }
    assert forall|i: int, j: int|
        0 <= i < j < n.len() && #[trigger] n[i].barcode is Some && #[trigger] n[j].barcode is Some
            implies n[i].barcode->0@ != n[j].barcode->0@ by {
        assert(o[i].barcode is Some && o[j].barcode is Some);
    }
    assert forall|k: int| 0 <= k < n.len() && #[trigger] n[k].barcode is Some implies normalized(
        Some(n[k].barcode->0@),
    ) == Some(n[k].barcode->0@) by {
        assert(o[k].barcode is Some);
    }
}

proof fn lemma_filter_keeps_barcodes(s: Seq<Item>, keep: spec_fn(Item) -> bool)
    requires
        barcodes_unique(s),
        barcodes_normalized(s),
    ensures
        barcodes_unique(s.filter(keep)),
        barcodes_normalized(s.filter(keep)),
    decreases s.len(),
{
    reveal(Seq::filter);
    if s.len() > 0 {
        let init = s.drop_last();
        let x = s.last();
        assert forall|i: int, j: int|
            0 <= i < j < init.len() && #[trigger] init[i].barcode is Some && #[trigger] init[j].barcode
                is Some implies init[i].barcode->0@ != init[j].barcode->0@ by {
            assert(s[i].barcode is Some && s[j].barcode is Some);
        }
        assert forall|k: int| 0 <= k < init.len() && #[trigger] init[k].barcode is Some implies normalized(
            Some(init[k].barcode->0@),
        ) == Some(init[k].barcode->0@) by {
            assert(s[k].barcode is Some);
        }
        lemma_filter_keeps_barcodes(init, keep);
        let f = init.filter(keep);
        if keep(x) {
            let g = f.push(x);
            assert(s.filter(keep) == g);
            assert forall|i: int, j: int|
                0 <= i < j < g.len() && #[trigger] g[i].barcode is Some && #[trigger] g[j].barcode is Some
                    implies g[i].barcode->0@ != g[j].barcode->0@ by {
                if j == f.len() {
                    assert(g[i] == f[i]);
                    init.lemma_filter_contains_rev(keep, f[i]);
                    let q = choose|q: int| 0 <= q < init.len() && init[q] == f[i];
                    assert(s[q] == init[q]);
                    assert(s[q].barcode is Some && s[s.len() - 1].barcode is Some);
                } else {
                    assert(g[i] == f[i] && g[j] == f[j]);
                    assert(f[i].barcode is Some && f[j].barcode is Some);
                }
            }
            assert forall|k: int| 0 <= k < g.len() && #[trigger] g[k].barcode is Some implies normalized(
                Some(g[k].barcode->0@),
            ) == Some(g[k].barcode->0@) by {
                if k < f.len() {
                    assert(g[k] == f[k]);
                    assert(f[k].barcode is Some);
                } else {
                    assert(s[s.len() - 1].barcode is Some);
                }
            }
        } else {
            assert(s.filter(keep) == f);
        }
    }
}

/// Deleting an item keeps barcodes unique and normalized.
pub proof fn law_delete_item_keeps_barcodes(old: Stock, new: Stock, id: i64)
    requires
        barcodes_unique(old.items@),
        barcodes_normalized(old.items@),
        new.items@ == old.items@.filter(|it: Item| it.id != id),
    ensures
        barcodes_unique(new.items@),
        barcodes_normalized(new.items@),
{
    lemma_filter_keeps_barcodes(old.items@, |it: Item| it.id != id);
}

/// Right after an item is added with a barcode, that item and no other
/// carries the barcode, so scanning it finds the new item.
pub proof fn law_added_barcode_finds_item(
    old: Stock,
    new: Stock,
    input: ItemInput,
    now: Seq<char>,
    id: i64,
    code: Seq<char>,
)
    requires
        old.wf(),
        barcodes_unique(old.items@),
        barcodes_normalized(old.items@),
        add_item_outcome(old, new, input, now, Ok(id)),
        normalized(opt_view(input.barcode)) == Some(code),
    ensures
        has_barcode(new.items@.last(), code),
        new.items@.last().id == id,
        forall|k: int| 0 <= k < new.items@.len() && has_barcode(#[trigger] new.items@[k], code) ==> k
            == new.items@.len() - 1,
{
    law_add_item_keeps_barcodes(old, new, input, id, now);
    let n = new.items@;
    assert forall|k: int| 0 <= k < n.len() && has_barcode(#[trigger] n[k], code) implies k == n.len()
        - 1 by {
        law_unique_barcode_carrier(n, code, k, n.len() - 1);
    }
}

/// After a check-out the item's former barcode is carried by no item, so
/// the number can be given to another item.
pub proof fn law_check_out_frees_barcode(
    old: Stock,
    new: Stock,
    item_id: i64,
    user_id: Option<i64>,
    qty: i64,
    note: Seq<char>,
    now: Seq<char>,
    k: int,
)
    requires
        old.wf(),
        barcodes_unique(old.items@),
        moved(old, new, item_id, user_id, TxType::Out, qty, note, now),
        0 <= k < old.items@.len(),
        old.items@[k].id == item_id,
        old.items@[k].barcode is Some,
    ensures
        !barcode_used(new.items@, old.items@[k].barcode->0@),
{
    let code = old.items@[k].barcode->0@;
    let o = old.items@;
    let n = new.items@;
    if barcode_used(n, code) {
        let j = choose|j: int| 0 <= j < n.len() && has_barcode(#[trigger] n[j], code);
        if o[j].id == item_id {
            assert(n[j].barcode is None);
        } else {
            assert(n[j] == o[j]);
            assert(j != k);
            if j < k {
                assert(o[j].barcode is Some && o[k].barcode is Some);
            } else {
                assert(o[k].barcode is Some && o[j].barcode is Some);
            }
        }
    }
}

proof fn lemma_digit_round_trip(d: int)
    requires
        0 <= d <= 9,
    ensures
        digit_of(digit_char(d)) == d,
        !is_white(digit_char(d)),
{
}

proof fn lemma_code_text_shape(n: int)
    requires
        10000 <= n <= 99999,
    ensures
        is_code5(code_text(n)),
        code_value(code_text(n)) == n,
        forall|i: int| 0 <= i < 5 ==> !is_white(#[trigger] code_text(n)[i]),
{
    let d0 = n / 10000 % 10;
    let d1 = n / 1000 % 10;
    let d2 = n / 100 % 10;
    let d3 = n / 10 % 10;
    let d4 = n % 10;
    let q1 = n / 10;
    let q2 = n / 100;
    let q3 = n / 1000;
    let q4 = n / 10000;
    assert(n == 10 * q1 + d4 && 0 <= d4 <= 9) by (nonlinear_arith)
        requires
            q1 == n / 10,
            d4 == n % 10,
            n >= 0,
    ;
    assert(q2 == q1 / 10 && q3 == q2 / 10 && q4 == q3 / 10) by (nonlinear_arith)
        requires
            q1 == n / 10,
            q2 == n / 100,
            q3 == n / 1000,
            q4 == n / 10000,
            n >= 0,
    ;
    assert(q1 == 10 * q2 + d3 && 0 <= d3 <= 9) by (nonlinear_arith)
        requires
            q2 == q1 / 10,
            d3 == q1 % 10,
            q1 >= 0,
    ;
    assert(q2 == 10 * q3 + d2 && 0 <= d2 <= 9) by (nonlinear_arith)
        requires
            q3 == q2 / 10,
            d2 == q2 % 10,
            q2 >= 0,
    ;
    assert(q3 == 10 * q4 + d1 && 0 <= d1 <= 9) by (nonlinear_arith)
        requires
            q4 == q3 / 10,
            d1 == q3 % 10,
            q3 >= 0,
    ;
    assert(1 <= q4 <= 9 && d0 == q4) by (nonlinear_arith)
        requires
            q4 == n / 10000,
            d0 == q4 % 10,
            10000 <= n <= 99999,
    ;
    assert(1 <= d0 <= 9 && 0 <= d1 <= 9 && 0 <= d2 <= 9 && 0 <= d3 <= 9 && 0 <= d4 <= 9);
    assert(d0 * 10000 + d1 * 1000 + d2 * 100 + d3 * 10 + d4 == n);
    lemma_digit_round_trip(d0);
    lemma_digit_round_trip(d1);
    lemma_digit_round_trip(d2);
    lemma_digit_round_trip(d3);
    lemma_digit_round_trip(d4);
    let s = code_text(n);
    assert(s[0] == digit_char(d0) && s[1] == digit_char(d1) && s[2] == digit_char(d2));
    assert(s[3] == digit_char(d3) && s[4] == digit_char(d4));
}

/// The barcode that `next_barcode` hands out has the shape `[1-9][0-9]{4}`,
/// spells the number the search reached, is stored as it is, and no item
/// carries it.
pub proof fn law_next_barcode_is_free(items: Seq<Item>, t: int)
    requires
        first_free_at(items, t),
    ensures
        is_code5(code_text(cycle_code(barcode_start(items), t))),
        10000 <= cycle_code(barcode_start(items), t) <= 99999,
        code_value(code_text(cycle_code(barcode_start(items), t))) == cycle_code(barcode_start(items), t),
        normalized(Some(code_text(cycle_code(barcode_start(items), t)))) == Some(
            code_text(cycle_code(barcode_start(items), t)),
        ),
        !barcode_used(items, code_text(cycle_code(barcode_start(items), t))),
{
    let n = cycle_code(barcode_start(items), t);
    assert(10000 <= n <= 99999);
    lemma_code_text_shape(n);
    let s = code_text(n);
    assert(!is_white(s[0]));
    assert(trim_front(s) == s);
    assert(!is_white(s.last()));
    assert(trim_back(s) == s);
    assert(trimmed(s) == s);
}

/// A barcode handed out by `next_barcode` is never refused as taken: with
/// a name, existing references and ids to spare, adding an item that
/// carries it succeeds.
pub proof fn law_next_barcode_accepted(db: Stock, t: int, input: ItemInput)
    requires
        db.wf(),
        first_free_at(db.items@, t),
        opt_view(input.barcode) == Some(code_text(cycle_code(barcode_start(db.items@), t))),
        !is_blank(input.name@),
        db.last_item_id < i64::MAX,
        crate::store::ref_ok(db.categories@, input.category_id),
        crate::store::ref_ok(db.locations@, input.location_id),
    ensures
        add_item_error(db, input) is None,
{
    law_next_barcode_is_free(db.items@, t);
    let code = code_text(cycle_code(barcode_start(db.items@), t));
    if barcode_in_use(db.items@, code, None) {
        let k = choose|k: int|
            0 <= k < db.items@.len() && has_barcode(#[trigger] db.items@[k], code) && db.items@[k].id
                != -1i64;
        assert(barcode_used(db.items@, code));
    }
}

/// The id an added item receives belongs to no item in the book, not even
/// to one deleted earlier, since ids only count up.
pub proof fn law_new_item_id_is_fresh(db: Stock)
    requires
        db.wf(),
        db.last_item_id < i64::MAX,
    ensures
        !has_item(db.items@, (db.last_item_id + 1) as i64),
{
    if has_item(db.items@, (db.last_item_id + 1) as i64) {
        let k = choose|k: int|
            0 <= k < db.items@.len() && #[trigger] db.items@[k].id == (db.last_item_id + 1) as i64;
        assert(db.items@[k].id <= db.last_item_id);
    }
}

// ───────────────────────────── settings and texts ─────────────────────────────

/// A setting reads back the value last written under its key, and writing
/// one key leaves every other key as it was.
pub proof fn law_setting_read_after_write(
    before: Seq<crate::models::Setting>,
    after: Seq<crate::models::Setting>,
    key: Seq<char>,
    value: Seq<char>,
    other: Seq<char>,
)
    requires
        setting_written(before, after, key, value),
    ensures
        setting_value(after, key) == Some(value),
        other != key ==> setting_value(after, other) == setting_value(before, other),
{
    assert(setting_value(after, key) == Some(value));
    assert(setting_value(after, other) == if other == key {
        Some(value)
    } else {
        setting_value(before, other)
    });
}

/// A theme reads back from the text it is stored under, and switching twice
/// returns to the same theme, which switching once never does.
pub proof fn law_theme_round_trip(t: Theme)
    ensures
        theme_of_text(theme_text(t)) == t,
        other_theme(other_theme(t)) == t,
        other_theme(t) != t,
{
    reveal_strlit("dark");
    reveal_strlit("light");
    assert("light"@ != "dark"@) by {
        assert("light"@.len() != "dark"@.len());
    }
}

/// A movement direction reads back from the text it is stored under.
pub proof fn law_tx_type_round_trip(t: TxType)
    ensures
        tx_type_of_text(tx_type_text(t)) == t,
{
    reveal_strlit("IN");
    reveal_strlit("OUT");
    assert("IN"@ != "OUT"@) by {
        assert("IN"@.len() != "OUT"@.len());
    }
}

// ─────────────────────────────── the clock ───────────────────────────────

/// A check-out that succeeds takes `qty` off the item, clears its barcode,
/// and records one OUT movement of `qty` by `user_id` with `note`, stamped
/// with the time the local clock gave during the call, the same stamp as
/// the item's last change. A refused check-out changes nothing.
pub proof fn law_check_out_records_clock_time(
    old: Stock,
    new: Stock,
    item_id: i64,
    user_id: Option<i64>,
    qty: i64,
    note: Seq<char>,
    r: Result<(), crate::store::StockError>,
)
    requires
        old.wf(),
        movement_outcome(old, new, item_id, user_id, TxType::Out, qty, note, new.movements@.last().timestamp@, r),
        r is Ok ==> clock_text(new.movements@.last().timestamp@),
    ensures
        r is Err ==> unchanged(old, new),
        r is Ok ==> {
            let m = new.movements@.last();
            &&& new.movements@.len() == old.movements@.len() + 1
            &&& m.item_id == item_id && m.user_id == user_id && m.tx_type == TxType::Out
            &&& m.quantity == qty && m.note@ == note
            &&& clock_text(m.timestamp@) && time_stamp(m.timestamp@)
            &&& forall|k: int|
                0 <= k < new.items@.len() && #[trigger] old.items@[k].id == item_id ==> {
                    &&& new.items@[k].quantity == old.items@[k].quantity - qty
                    &&& new.items@[k].quantity >= 0
                    &&& new.items@[k].barcode is None
                    &&& new.items@[k].updated_at@ == m.timestamp@
                }
        },
{
    if r is Ok {
        lemma_clock_text_shape(new.movements@.last().timestamp@);
        assert forall|k: int| 0 <= k < new.items@.len() && #[trigger] old.items@[k].id == item_id implies {
            &&& new.items@[k].quantity == old.items@[k].quantity - qty
            &&& new.items@[k].quantity >= 0
            &&& new.items@[k].barcode is None
            &&& new.items@[k].updated_at@ == new.movements@.last().timestamp@
        } by {
            crate::queries::lemma_item_with_id(old, k);
        }
    }
}

/// A check-in that succeeds adds `qty` to the item and records one IN
/// movement of `qty` by `user_id` with `note`, stamped with the time the
/// local clock gave during the call, the same stamp as the item's last
/// change. A refused check-in changes nothing.
pub proof fn law_check_in_records_clock_time(
    old: Stock,
    new: Stock,
    item_id: i64,
    user_id: Option<i64>,
    qty: i64,
    note: Seq<char>,
    r: Result<(), crate::store::StockError>,
)
    requires
        old.wf(),
        movement_outcome(old, new, item_id, user_id, TxType::In, qty, note, new.movements@.last().timestamp@, r),
        r is Ok ==> clock_text(new.movements@.last().timestamp@),
    ensures
        r is Err ==> unchanged(old, new),
        r is Ok ==> {
            let m = new.movements@.last();
            &&& new.movements@.len() == old.movements@.len() + 1
            &&& m.item_id == item_id && m.user_id == user_id && m.tx_type == TxType::In
            &&& m.quantity == qty && m.note@ == note
            &&& clock_text(m.timestamp@) && time_stamp(m.timestamp@)
            &&& forall|k: int|
                0 <= k < new.items@.len() && #[trigger] old.items@[k].id == item_id ==> {
                    &&& new.items@[k].quantity == old.items@[k].quantity + qty
                    &&& new.items@[k].barcode == old.items@[k].barcode
                    &&& new.items@[k].updated_at@ == m.timestamp@
                }
        },
{
    if r is Ok {
        lemma_clock_text_shape(new.movements@.last().timestamp@);
    }
}

proof fn lemma_expiry_list(items: Seq<Item>, today: i32, days: i64)
    ensures
        expiry_list(items, today, days).map_values(|a: ExpiryAlert| a.item) == items.filter(
            |it: Item| expires_within(it, today, days),
        ),
        forall|k: int|
            0 <= k < expiry_list(items, today, days).len() ==> {
                let a = #[trigger] expiry_list(items, today, days)[k];
                &&& days_until_spec(opt_view(a.item.expiry_date), today) == Some(a.days_left)
                &&& a.days_left <= days
            },
    decreases items.len(),
{
    let f = |a: ExpiryAlert| a.item;
    let p = |it: Item| expires_within(it, today, days);
    reveal(Seq::filter);
    if items.len() > 0 {
        let init = items.drop_last();
        lemma_expiry_list(init, today, days);
        let rest = expiry_list(init, today, days);
        let it = items.last();
        match days_until_spec(opt_view(it.expiry_date), today) {
            Some(d) => {
                if d <= days {
                    let a = ExpiryAlert { item: it, days_left: d };
                    assert(rest.push(a).map_values(f) =~= rest.map_values(f).push(it));
                    assert forall|k: int| 0 <= k < rest.push(a).len() implies {
                        let b = #[trigger] rest.push(a)[k];
                        &&& days_until_spec(opt_view(b.item.expiry_date), today) == Some(b.days_left)
                        &&& b.days_left <= days
                    } by {
                        if k < rest.len() {
                            assert(rest.push(a)[k] == rest[k]);
                        }
                    }
                }
            },
            None => {},
        }
    } else {
        assert(expiry_list(items, today, days).map_values(f) =~= Seq::<Item>::empty());
    }
}

/// The expiry alerts are counted from the day the local clock gives as
/// today: every alert is about one of the items, its days left are that
/// item's expiry day minus today and at most `days`; every item that
/// expires within `days` days of today has an alert; and the soonest come
/// first.
pub proof fn law_expiry_alerts_count_from_today(items: Seq<Item>, days: i64, r: Seq<ExpiryAlert>)
    requires
        expiry_alerts_outcome(items, days, r),
    ensures
        exists|today: i32|
            #![trigger clock_day(today)]
            clock_day(today) && (forall|k: int|
                0 <= k < r.len() ==> {
                    &&& items.contains(#[trigger] r[k].item)
                    &&& days_until_spec(opt_view(r[k].item.expiry_date), today) == Some(r[k].days_left)
                    &&& r[k].days_left <= days
                }) && (forall|i: int|
                0 <= i < items.len() && expires_within(#[trigger] items[i], today, days) ==> exists|k: int|
                    0 <= k < r.len() && #[trigger] r[k].item == items[i]),
        forall|i: int, j: int| 0 <= i <= j < r.len() ==> #[trigger] r[i].days_left <= #[trigger] r[j].days_left,
{
    let today = choose|today: i32|
        clock_day(today) && MIN_DAY <= today <= MAX_DAY && #[trigger] sorted_soonest_first(
            r,
            expiry_list(items, today, days),
        );
    let list = expiry_list(items, today, days);
    let f = |a: ExpiryAlert| a.item;
    let p = |it: Item| expires_within(it, today, days);
    lemma_expiry_list(items, today, days);
    assert forall|k: int| 0 <= k < r.len() implies {
        &&& items.contains(#[trigger] r[k].item)
        &&& days_until_spec(opt_view(r[k].item.expiry_date), today) == Some(r[k].days_left)
        &&& r[k].days_left <= days
    } by {
        let d = r[k].days_left;
        let q = |a: ExpiryAlert| a.days_left == d;
        r.lemma_filter_contains(q, k);
        assert(with_days(r, d) == with_days(list, d));
        list.lemma_filter_contains_rev(q, r[k]);
        let j = choose|j: int| 0 <= j < list.len() && list[j] == r[k];
        assert(list.map_values(f)[j] == r[k].item);
        items.lemma_filter_contains_rev(p, r[k].item);
        assert(items.filter(p).contains(r[k].item)) by {
            assert(items.filter(p)[j] == r[k].item);
        }
    }
    assert forall|i: int|
        0 <= i < items.len() && expires_within(#[trigger] items[i], today, days) implies exists|k: int|
        0 <= k < r.len() && #[trigger] r[k].item == items[i] by {
        items.lemma_filter_contains(p, i);
        let j = choose|j: int| 0 <= j < items.filter(p).len() && items.filter(p)[j] == items[i];
        assert(list.map_values(f)[j] == items[i]);
        let a = list[j];
        let q = |x: ExpiryAlert| x.days_left == a.days_left;
        list.lemma_filter_contains(q, j);
        assert(with_days(r, a.days_left) == with_days(list, a.days_left));
        r.lemma_filter_contains_rev(q, a);
        let k = choose|k: int| 0 <= k < r.len() && r[k] == a;
        assert(r[k].item == items[i]);
    }
    assert(clock_day(today));
}

/// The report counts as expiring, from the day the local clock gives as
/// today, exactly the items whose expiry day lies at most `days` days after
/// today (or has passed): as many as there are expiry alerts counted from
/// that day.
pub proof fn law_report_expiring_from_today(items: Seq<Item>, days: i64, expiring: usize)
    requires
        exists|today: i32|
            clock_day(today) && MIN_DAY <= today <= MAX_DAY && expiring == #[trigger] expiring_count(
                items,
                today,
                days,
            ),
    ensures
        exists|today: i32|
            #![trigger clock_day(today)]
            clock_day(today) && expiring == items.filter(
                |it: Item| days_until_spec(opt_view(it.expiry_date), today) matches Some(d) && d <= days,
            ).len() && expiring == expiry_list(items, today, days).len(),
{
    let today = choose|today: i32|
        clock_day(today) && MIN_DAY <= today <= MAX_DAY && expiring == #[trigger] expiring_count(
            items,
            today,
            days,
        );
    lemma_expiry_list(items, today, days);
    let p = |it: Item| expires_within(it, today, days);
    let p2 = |it: Item| days_until_spec(opt_view(it.expiry_date), today) matches Some(d) && d <= days;
    assert(p =~= p2);
    assert(expiry_list(items, today, days).map_values(|a: ExpiryAlert| a.item).len() == expiry_list(
        items,
        today,
        days,
    ).len());
    assert(clock_day(today));
}

} // verus!
