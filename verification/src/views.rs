//! What the screens compute from the cached rows: names looked up by id, the
//! filtered item and history lists, the alert lists and the report figures.

use vstd::prelude::*;
use crate::models::{Category, Item, Location, Transaction, User};
use crate::store::NamedRow;
use crate::state::{HistoryFilter, ItemFilter};
use crate::text::{contains_text, lowercase, text_contains, to_lower, trim_text, trimmed, same_text};
use crate::clock::{days_until_from, days_until_spec, read_today, clock_day, MIN_DAY, MAX_DAY};
use crate::queries::is_low;
use crate::models::opt_view;

verus! {

// ─────────────────────────────── names by id ───────────────────────────────

/// Row `k` is the first row with the id.
pub open spec fn first_with_id<T: NamedRow>(rows: Seq<T>, id: i64, k: int) -> bool {
    &&& 0 <= k < rows.len()
    &&& rows[k].row_id() == id
    &&& forall|j: int| 0 <= j < k ==> #[trigger] rows[j].row_id() != id
}

/// Position of the first row with the id (meaningful when there is one).
pub open spec fn first_index<T: NamedRow>(rows: Seq<T>, id: i64) -> int {
    choose|k: int| #[trigger] first_with_id(rows, id, k)
}

/// The name of the first row with the id; empty when there is none.
pub open spec fn name_of<T: NamedRow>(rows: Seq<T>, id: Option<i64>) -> Seq<char> {
    match id {
        Some(i) => if first_with_id(rows, i, first_index(rows, i)) {
            rows[first_index(rows, i)].row_name()
        } else {
            Seq::empty()
        },
        None => Seq::empty(),
    }
}

proof fn lemma_first_with_id_unique<T: NamedRow>(rows: Seq<T>, id: i64, a: int, b: int)
    requires
        first_with_id(rows, id, a),
        first_with_id(rows, id, b),
    ensures
        a == b,
{
    if a < b {
        assert(rows[a].row_id() != id);
    } else if b < a {
        assert(rows[b].row_id() != id);
    }
}

fn name_by_id<T: NamedRow>(rows: &Vec<T>, id: Option<i64>) -> (r: String)
    ensures
        r@ == name_of(rows@, id),
{
    match id {
        None => String::new(),
        Some(i) => {
            let mut k: usize = 0;
            while k < rows.len()
                invariant
                    id == Some(i),
                    k <= rows@.len(),
                    forall|j: int| 0 <= j < k ==> #[trigger] rows@[j].row_id() != i,
                decreases rows@.len() - k,
            {
                if rows[k].get_id() == i {
                    proof {
                        assert(first_with_id(rows@, i, k as int));
                        assert(exists|kk: int| first_with_id(rows@, i, kk));
                        lemma_first_with_id_unique(rows@, i, first_index(rows@, i), k as int);
                        assert(first_index(rows@, i) == k);
                        assert(rows@[first_index(rows@, i)].row_name() == rows@[k as int].row_name());
                        assert(name_of(rows@, Some(i)) == rows@[first_index(rows@, i)].row_name());
                        assert(name_of(rows@, id) == rows@[k as int].row_name());
                    }
                    let name = rows[k].get_name();
                    let r = name.clone();
                    assert(r@ == name@);
                    return r;
                }
                k = k + 1;
            }
            String::new()
        },
    }
}

/// The name of the category with the id, empty when unknown.
pub fn category_name(categories: &Vec<Category>, id: Option<i64>) -> (r: String)
    ensures
        r@ == name_of(categories@, id),
{
    name_by_id(categories, id)
}

/// The name of the location with the id, empty when unknown.
pub fn location_name(locations: &Vec<Location>, id: Option<i64>) -> (r: String)
    ensures
        r@ == name_of(locations@, id),
{
    name_by_id(locations, id)
}

/// The name of the user with the id, empty when unknown.
pub fn user_name(users: &Vec<User>, id: Option<i64>) -> (r: String)
    ensures
        r@ == name_of(users@, id),
{
    name_by_id(users, id)
}

/// Item `k` is the first item with the id.
pub open spec fn first_item_with_id(items: Seq<Item>, id: i64, k: int) -> bool {
    &&& 0 <= k < items.len()
    &&& items[k].id == id
    &&& forall|j: int| 0 <= j < k ==> #[trigger] items[j].id != id
}

/// Position of the first item with the id (meaningful when there is one).
pub open spec fn first_item_index(items: Seq<Item>, id: i64) -> int {
    choose|k: int| #[trigger] first_item_with_id(items, id, k)
}

/// The name of the first item with the id; empty when there is none.
pub open spec fn item_name_of(items: Seq<Item>, id: i64) -> Seq<char> {
    if first_item_with_id(items, id, first_item_index(items, id)) {
        items[first_item_index(items, id)].name@
    } else {
        Seq::empty()
    }
}

/// The name of the item with the id, empty when unknown.
pub fn item_name(items: &Vec<Item>, id: i64) -> (r: String)
    ensures
        r@ == item_name_of(items@, id),
{
    let mut k: usize = 0;
    while k < items.len()
        invariant
            k <= items@.len(),
            forall|j: int| 0 <= j < k ==> #[trigger] items@[j].id != id,
        decreases items@.len() - k,
    {
        if items[k].id == id {
            proof {
                assert(first_item_with_id(items@, id, k as int));
                let c = first_item_index(items@, id);
                if c < k {
                    assert(items@[c].id != id);
                } else if k < c {
                    assert(items@[k as int].id != id);
                }
            }
            return items[k].name.clone();
        }
        k = k + 1;
    }
    String::new()
}

// ─────────────────────────────── item filter ───────────────────────────────

/// Whether the items tab shows the item: it is in the chosen category and
/// location, and the search text (already trimmed and lower-cased) is empty
/// or occurs in the lower-cased name or barcode.
pub open spec fn item_shown(f: ItemFilter, needle: Seq<char>, it: Item) -> bool {
    &&& (f.category_id matches Some(c) ==> it.category_id == Some(c))
    &&& (f.location_id matches Some(l) ==> it.location_id == Some(l))
    &&& (needle.len() == 0 || contains_text(lowercase(it.name@), needle) || (it.barcode is Some
        && contains_text(lowercase(it.barcode->0@), needle)))
}

fn shows_item(f: &ItemFilter, needle: &str, it: &Item) -> (r: bool)
    ensures
        r == item_shown(*f, needle@, *it),
{
    match f.category_id {
        Some(c) => {
            if it.category_id != Some(c) {
                return false;
            }
        },
        None => {},
    }
    match f.location_id {
        Some(l) => {
            if it.location_id != Some(l) {
                return false;
            }
        },
        None => {},
    }
    if needle.unicode_len() == 0 {
        return true;
    }
    let name = to_lower(it.name.as_str());
    if text_contains(name.as_str(), needle) {
        return true;
    }
    match &it.barcode {
        Some(b) => {
            let code = to_lower(b.as_str());
            text_contains(code.as_str(), needle)
        },
        None => false,
    }
}

/// The items the items tab shows, in the given order.
pub fn filter_items(items: &Vec<Item>, filter: &ItemFilter) -> (r: Vec<Item>)
    ensures
        r@ == items@.filter(
            |it: Item| item_shown(*filter, lowercase(trimmed(filter.search@)), it),
        ),
{
    let trimmed_search = trim_text(filter.search.as_str());
    let needle = to_lower(trimmed_search.as_str());
    let ghost pred = |it: Item| item_shown(*filter, lowercase(trimmed(filter.search@)), it);
    let mut out: Vec<Item> = Vec::new();
    let mut i: usize = 0;
    while i < items.len()
        invariant
            pred == (|it: Item| item_shown(*filter, lowercase(trimmed(filter.search@)), it)),
            needle@ == lowercase(trimmed(filter.search@)),
            i <= items@.len(),
            out@ == items@.take(i as int).filter(pred),
        decreases items@.len() - i,
    {
        assert(items@.take(i + 1) =~= items@.take(i as int).push(items@[i as int]));
        proof {
            items@.take(i as int).lemma_filter_push(items@[i as int], pred);
        }
        if shows_item(filter, needle.as_str(), &items[i]) {
            out.push(items[i].copy());
        }
        i = i + 1;
    }
    assert(items@.take(items@.len() as int) =~= items@);
    out
}

// ────────────────────────────── history filter ──────────────────────────────

/// Whether the history tab shows the row: it is about the chosen item, and
/// was recorded under the chosen user's name.
pub open spec fn tx_shown(f: HistoryFilter, users: Seq<User>, t: Transaction) -> bool {
    &&& (f.item_id matches Some(i) ==> t.item_id == i)
    &&& (f.user_id matches Some(u) ==> t.user_name@ == name_of(users, Some(u)))
}

/// The history rows the history tab shows, in the given order.
pub fn filter_transactions(txs: &Vec<Transaction>, filter: &HistoryFilter, users: &Vec<User>) -> (r:
    Vec<Transaction>)
    ensures
        r@ == txs@.filter(|t: Transaction| tx_shown(*filter, users@, t)),
{
    let wanted: Option<String> = match filter.user_id {
        Some(u) => Some(user_name(users, Some(u))),
        None => None,
    };
    let ghost pred = |t: Transaction| tx_shown(*filter, users@, t);
    let mut out: Vec<Transaction> = Vec::new();
    let mut i: usize = 0;
    while i < txs.len()
        invariant
            pred == (|t: Transaction| tx_shown(*filter, users@, t)),
            match filter.user_id {
                Some(u) => wanted matches Some(w) && w@ == name_of(users@, Some(u)),
                None => wanted is None,
            },
            i <= txs@.len(),
            out@ == txs@.take(i as int).filter(pred),
        decreases txs@.len() - i,
    {
        assert(txs@.take(i + 1) =~= txs@.take(i as int).push(txs@[i as int]));
        proof {
            txs@.take(i as int).lemma_filter_push(txs@[i as int], pred);
        }
        let t = &txs[i];
        let item_ok = match filter.item_id {
            Some(id) => t.item_id == id,
            None => true,
        };
        let user_ok = match &wanted {
            Some(w) => same_text(t.user_name.as_str(), w.as_str()),
            None => true,
        };
        if item_ok && user_ok {
            out.push(
                Transaction {
                    id: t.id,
                    item_id: t.item_id,
                    item_name: t.item_name.clone(),
                    user_name: t.user_name.clone(),
                    tx_type: t.tx_type,
                    quantity: t.quantity,
                    note: t.note.clone(),
                    timestamp: t.timestamp.clone(),
                },
            );
        }
        i = i + 1;
    }
    assert(txs@.take(txs@.len() as int) =~= txs@);
    out
}

} // verus!

verus! {

// ───────────────────────────────── alerts ─────────────────────────────────

/// The items at or below their minimum, in the given order.
pub fn low_stock_alerts(items: &Vec<Item>) -> (r: Vec<Item>)
    ensures
        r@ == items@.filter(|it: Item| is_low(it)),
{
    let ghost pred = |it: Item| is_low(it);
    let mut out: Vec<Item> = Vec::new();
    let mut i: usize = 0;
    while i < items.len()
        invariant
            pred == (|it: Item| is_low(it)),
            i <= items@.len(),
            out@ == items@.take(i as int).filter(pred),
        decreases items@.len() - i,
    {
        assert(items@.take(i + 1) =~= items@.take(i as int).push(items@[i as int]));
        proof {
            items@.take(i as int).lemma_filter_push(items@[i as int], pred);
        }
        if items[i].quantity <= items[i].min_quantity {
            out.push(items[i].copy());
        }
        i = i + 1;
    }
    assert(items@.take(items@.len() as int) =~= items@);
    out
}

/// Whether the item is low on stock: at or below its minimum.
pub fn low_on_stock(it: &Item) -> (r: bool)
    ensures
        r == is_low(*it),
{
    it.quantity <= it.min_quantity
}

/// How many days ahead the item table marks an expiry date.
pub const EXPIRY_WARNING_DAYS: i64 = 30;

/// How the item table shows an expiry date.
pub enum ExpiryMark {
    /// Far off, or no date.
    Plain,
    /// Already past.
    Expired,
    /// Within the warning days; the days left are given.
    Soon(i64),
}

/// The mark of an expiry date that is `days_left` days away: past when
/// negative, near when at most `EXPIRY_WARNING_DAYS`, plain otherwise or
/// without a date.
pub fn expiry_mark(days_left: Option<i64>) -> (r: ExpiryMark)
    ensures
        r == match days_left {
            Some(d) => if d < 0 {
                ExpiryMark::Expired
            } else if d <= EXPIRY_WARNING_DAYS {
                ExpiryMark::Soon(d)
            } else {
                ExpiryMark::Plain
            },
            None => ExpiryMark::Plain,
        },
{
    match days_left {
        Some(d) => if d < 0 {
            ExpiryMark::Expired
        } else if d <= EXPIRY_WARNING_DAYS {
            ExpiryMark::Soon(d)
        } else {
            ExpiryMark::Plain
        },
        None => ExpiryMark::Plain,
    }
}

/// An item whose expiry date is near or past, with the days left until it
/// (negative once it has passed).
pub struct ExpiryAlert {
    pub item: Item,
    pub days_left: i64,
}

/// The item expires within `days` days of `today` (or already has).
pub open spec fn expires_within(it: Item, today: i32, days: i64) -> bool {
    match days_until_spec(opt_view(it.expiry_date), today) {
        Some(d) => d <= days,
        None => false,
    }
}

/// The alerts of the items that expire within `days` days of `today`, each
/// with its days left, in the order of the items.
pub open spec fn expiry_list(items: Seq<Item>, today: i32, days: i64) -> Seq<ExpiryAlert>
    decreases items.len(),
{
    if items.len() == 0 {
        Seq::empty()
    } else {
        let rest = expiry_list(items.drop_last(), today, days);
        let it = items.last();
        match days_until_spec(opt_view(it.expiry_date), today) {
            Some(d) => if d <= days {
                rest.push(ExpiryAlert { item: it, days_left: d })
            } else {
                rest
            },
            None => rest,
        }
    }
}

/// The alerts of `s` with exactly `d` days left, in order.
pub open spec fn with_days(s: Seq<ExpiryAlert>, d: i64) -> Seq<ExpiryAlert> {
    s.filter(|a: ExpiryAlert| a.days_left == d)
}

/// `r` is `list` sorted by days left, the soonest first, alerts with the
/// same days left keeping their order in `list`.
pub open spec fn sorted_soonest_first(r: Seq<ExpiryAlert>, list: Seq<ExpiryAlert>) -> bool {
    &&& forall|i: int, j: int| 0 <= i <= j < r.len() ==> #[trigger] r[i].days_left <= #[trigger] r[j].days_left
    &&& forall|d: i64| #[trigger] with_days(r, d) == with_days(list, d)
}

proof fn lemma_no_days(s: Seq<ExpiryAlert>, d: i64)
    requires
        forall|i: int| 0 <= i < s.len() ==> #[trigger] s[i].days_left != d,
    ensures
        with_days(s, d).len() == 0,
{
    let f = with_days(s, d);
    if f.len() > 0 {
        s.lemma_filter_contains_rev(|a: ExpiryAlert| a.days_left == d, f[0]);
        s.lemma_filter_pred(|a: ExpiryAlert| a.days_left == d, 0);
    }
}

proof fn lemma_insert_in_order(s: Seq<ExpiryAlert>, p: int, a: ExpiryAlert, d: i64)
    requires
        0 <= p <= s.len(),
        forall|q: int| 0 <= q < p ==> #[trigger] s[q].days_left <= a.days_left,
        forall|q: int| p <= q < s.len() ==> #[trigger] s[q].days_left > a.days_left,
    ensures
        with_days(s.insert(p, a), d) == if d == a.days_left {
            with_days(s, d).push(a)
        } else {
            with_days(s, d)
        },
{
    let f = |x: ExpiryAlert| x.days_left == d;
    let pre = s.take(p);
    let post = s.skip(p);
    assert(s =~= pre + post);
    assert(s.insert(p, a) =~= pre + seq![a] + post);
    Seq::filter_distributes_over_add(pre, post, f);
    Seq::filter_distributes_over_add(pre + seq![a], post, f);
    Seq::filter_distributes_over_add(pre, seq![a], f);
    reveal(Seq::filter);
    let none = Seq::<ExpiryAlert>::empty();
    assert(seq![a] =~= none.push(a));
    none.lemma_filter_push(a, f);
    assert(none.filter(f) =~= none);
    if d == a.days_left {
        assert forall|i: int| 0 <= i < post.len() implies #[trigger] post[i].days_left != d by {
            assert(post[i] == s[p + i]);
        }
        lemma_no_days(post, d);
        assert(with_days(post, d) =~= Seq::<ExpiryAlert>::empty());
        assert(seq![a].filter(f) =~= seq![a]);
    } else {
        assert(seq![a].filter(f) =~= Seq::<ExpiryAlert>::empty());
    }
}

/// The items that expire within `days` days of `today`, each with its days
/// left, the soonest first; items with the same days left stay in the
/// order given.
pub fn expiry_alerts_from(items: &Vec<Item>, today: i32, days: i64) -> (r: Vec<ExpiryAlert>)
    requires
        MIN_DAY <= today <= MAX_DAY,
    ensures
        sorted_soonest_first(r@, expiry_list(items@, today, days)),
{
    let mut out: Vec<ExpiryAlert> = Vec::new();
    let mut i: usize = 0;
    while i < items.len()
        invariant
            MIN_DAY <= today <= MAX_DAY,
            i <= items@.len(),
            sorted_soonest_first(out@, expiry_list(items@.take(i as int), today, days)),
        decreases items@.len() - i,
    {
        let ghost before = out@;
        let ghost list = expiry_list(items@.take(i as int), today, days);
        assert(items@.take(i + 1).drop_last() =~= items@.take(i as int));
        assert(items@.take(i + 1).last() == items@[i as int]);
        match days_until_from(&items[i].expiry_date, today) {
            Some(d) => {
                if d <= days {
                    let a = ExpiryAlert { item: items[i].copy(), days_left: d };
                    let mut p: usize = 0;
                    while p < out.len() && out[p].days_left <= d
                        invariant
                            out@ == before,
                            p <= out@.len(),
                            forall|q: int| 0 <= q < p ==> #[trigger] out@[q].days_left <= d,
                        decreases out@.len() - p,
                    {
                        p = p + 1;
                    }
                    proof {
                        assert forall|q: int| p <= q < before.len() implies #[trigger] before[q].days_left
                            > d by {
                            assert(before[p as int].days_left > d);
                            assert(before[p as int].days_left <= before[q].days_left);
                        }
                        assert forall|e: i64| #[trigger] with_days(before.insert(p as int, a), e)
                            == with_days(list.push(a), e) by {
                            lemma_insert_in_order(before, p as int, a, e);
                            list.lemma_filter_push(a, |x: ExpiryAlert| x.days_left == e);
                        }
                    }
                    out.insert(p, a);
                    proof {
                        assert forall|x: int, y: int| 0 <= x <= y < out@.len() implies #[trigger] out@[x].days_left
                            <= #[trigger] out@[y].days_left by {
                            if x < p && y > p {
                                assert(out@[x] == before[x] && out@[y] == before[y - 1]);
                            } else if x < p && y < p {
                                assert(out@[x] == before[x] && out@[y] == before[y]);
                            } else if x > p {
                                assert(out@[x] == before[x - 1] && out@[y] == before[y - 1]);
                            } else if x == p && y > p {
                                assert(out@[y] == before[y - 1]);
                            } else if x < p && y == p {
                                assert(out@[x] == before[x]);
                            }
                        }
                    }
                }
            },
            None => {},
        }
        i = i + 1;
    }
    assert(items@.take(items@.len() as int) =~= items@);
    out
}

/// The alerts answered for the items: counted from the day the clock gave
/// as today, those that expire within `days` days, the soonest first.
pub open spec fn expiry_alerts_outcome(items: Seq<Item>, days: i64, r: Seq<ExpiryAlert>) -> bool {
    exists|today: i32|
        clock_day(today) && MIN_DAY <= today <= MAX_DAY && #[trigger] sorted_soonest_first(
            r,
            expiry_list(items, today, days),
        )
}

/// The items that expire within `days` days of today, each with its days
/// left, the soonest first; items with the same days left stay in the order
/// given.
pub fn expiry_alerts(items: &Vec<Item>, days: i64) -> (r: Vec<ExpiryAlert>)
    ensures
        expiry_alerts_outcome(items@, days, r@),
{
    let today = read_today();
    let r = expiry_alerts_from(items, today, days);
    assert(sorted_soonest_first(r@, expiry_list(items@, today, days)));
    r
}

// ───────────────────────────────── report ─────────────────────────────────

/// The figures of the report tab.
pub struct ReportSummary {
    pub total_items: usize,
    pub total_quantity: i128,
    pub low_stock: usize,
    pub expiring: usize,
}

/// The sum of the quantities of the items.
pub open spec fn total_quantity(items: Seq<Item>) -> int
    decreases items.len(),
{
    if items.len() == 0 {
        0
    } else {
        total_quantity(items.drop_last()) + items.last().quantity
    }
}

/// The report counted from `today`: number of items, sum of quantities,
/// items low on stock, and items expiring within `days` days.
pub fn report_summary_from(items: &Vec<Item>, today: i32, days: i64) -> (r: ReportSummary)
    requires
        MIN_DAY <= today <= MAX_DAY,
    ensures
        r.total_items == items@.len(),
        r.total_quantity == total_quantity(items@),
        r.low_stock == items@.filter(|it: Item| is_low(it)).len(),
        r.expiring == items@.filter(|it: Item| expires_within(it, today, days)).len(),
{
    let ghost low = |it: Item| is_low(it);
    let ghost soon = |it: Item| expires_within(it, today, days);
    let mut sum: i128 = 0;
    let mut n_low: usize = 0;
    let mut n_soon: usize = 0;
    let mut i: usize = 0;
    while i < items.len()
        invariant
            MIN_DAY <= today <= MAX_DAY,
            low == (|it: Item| is_low(it)),
            soon == (|it: Item| expires_within(it, today, days)),
            i <= items@.len(),
            sum == total_quantity(items@.take(i as int)),
            -(i as int) * 0x8000_0000_0000_0000 <= sum <= (i as int) * 0x8000_0000_0000_0000,
            n_low == items@.take(i as int).filter(low).len(),
            n_soon == items@.take(i as int).filter(soon).len(),
            n_low <= i,
            n_soon <= i,
        decreases items@.len() - i,
    {
        let ghost t = items@.take(i as int);
        assert(items@.take(i + 1) =~= t.push(items@[i as int]));
        assert(items@.take(i + 1).drop_last() =~= t);
        proof {
            t.lemma_filter_push(items@[i as int], low);
            t.lemma_filter_push(items@[i as int], soon);
        }
        sum = sum + items[i].quantity as i128;
        if items[i].quantity <= items[i].min_quantity {
            n_low = n_low + 1;
        }
        match days_until_from(&items[i].expiry_date, today) {
            Some(d) => {
                if d <= days {
                    n_soon = n_soon + 1;
                }
            },
            None => {},
        }
        i = i + 1;
    }
    assert(items@.take(items@.len() as int) =~= items@);
    ReportSummary { total_items: items.len(), total_quantity: sum, low_stock: n_low, expiring: n_soon }
}

/// How many items expire within `days` days of `today`.
pub open spec fn expiring_count(items: Seq<Item>, today: i32, days: i64) -> nat {
    items.filter(|it: Item| expires_within(it, today, days)).len()
}

/// The report counted from today.
pub fn report_summary(items: &Vec<Item>, days: i64) -> (r: ReportSummary)
    ensures
        r.total_items == items@.len(),
        r.total_quantity == total_quantity(items@),
        r.low_stock == items@.filter(|it: Item| is_low(it)).len(),
        exists|today: i32|
            clock_day(today) && MIN_DAY <= today <= MAX_DAY && r.expiring == #[trigger] expiring_count(
                items@,
                today,
                days,
            ),
{
    let today = read_today();
    let r = report_summary_from(items, today, days);
    assert(r.expiring == expiring_count(items@, today, days));
    r
}

} // verus!
