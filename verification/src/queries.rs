//! The requests on the stock book: settings, people, categories, places,
//! items, check-in and check-out, and the lists behind alerts and reports.

use vstd::prelude::*;
use crate::models::{opt_view, copy_opt_text, Category, Item, Location, Movement, Setting, Transaction, TxType, User};
use crate::order::{sort_by_keys, push_text_key, push_text_key_desc, text_key_desc, sorted_by_key, text_key, name_key, lex_le, key_le};
use crate::store::{
    StockError, Stock, NamedRow, named_ok, has_id, has_name, appended, only_users_changed,
    only_categories_changed, only_locations_changed, only_settings_changed, lemma_ref_ok_grows,
    name_used, check_ref, find_item, find_named, ref_ok, has_item, unchanged, only_stock_changed,
};
use vstd::string::*;
use vstd::seq_lib::{to_multiset_contains, to_multiset_len};
use crate::text::{same_text, blank, trim_text, trimmed, is_blank};
use crate::clock::{time_stamp, read_clock, clock_text, clock_day, date_after_today, day_in_range, ymd_text, MIN_DAY, MAX_DAY};

verus! {

// ─────────────────────────────── settings ───────────────────────────────

/// The value stored under `key`, read through the `settings` rows.
pub open spec fn setting_value(rows: Seq<Setting>, key: Seq<char>) -> Option<Seq<char>> {
    if exists|k: int| 0 <= k < rows.len() && #[trigger] rows[k].key@ == key {
        let k = choose|k: int| 0 <= k < rows.len() && #[trigger] rows[k].key@ == key;
        Some(rows[k].value@)
    } else {
        None
    }
}

/// `after` is `before` with `value` stored under `key`: that key reads
/// `value`, every other key reads what it read before.
pub open spec fn setting_written(
    before: Seq<Setting>,
    after: Seq<Setting>,
    key: Seq<char>,
    value: Seq<char>,
) -> bool {
    forall|k: Seq<char>|
        #![trigger setting_value(after, k)]
        setting_value(after, k) == if k == key {
            Some(value)
        } else {
            setting_value(before, k)
        }
}

fn find_setting(rows: &Vec<Setting>, key: &str) -> (r: Option<usize>)
    ensures
        match r {
            Some(k) => k < rows@.len() && rows@[k as int].key@ == key@,
            None => forall|j: int| 0 <= j < rows@.len() ==> #[trigger] rows@[j].key@ != key@,
        },
{
    let mut k: usize = 0;
    while k < rows.len()
        invariant
            k <= rows@.len(),
            forall|j: int| 0 <= j < k ==> #[trigger] rows@[j].key@ != key@,
        decreases rows@.len() - k,
    {
        if same_text(rows[k].key.as_str(), key) {
            return Some(k);
        }
        k = k + 1;
    }
    None
}

/// The value stored under `key`, if any.
pub fn get_setting(db: &Stock, key: &str) -> (r: Option<String>)
    requires
        db.wf(),
    ensures
        opt_view(r) == setting_value(db.settings@, key@),
{
    match find_setting(&db.settings, key) {
        Some(k) => {
            proof {
                let j = choose|j: int|
                    0 <= j < db.settings@.len() && #[trigger] db.settings@[j].key@ == key@;
                if j != k {
                    if j < k {
                        assert(db.settings@[j].key@ != db.settings@[k as int].key@);
                    } else {
                        assert(db.settings@[k as int].key@ != db.settings@[j].key@);
                    }
                }
            }
            Some(db.settings[k].value.clone())
        },
        None => None,
    }
}

/// Stores `value` under `key`, replacing an earlier value.
pub fn set_setting(db: &mut Stock, key: &str, value: &str)
    requires
        old(db).wf(),
    ensures
        final(db).wf(),
        only_settings_changed(*old(db), *final(db)),
        setting_written(old(db).settings@, final(db).settings@, key@, value@),
{
    let ghost before = db.settings@;
    match find_setting(&db.settings, key) {
        Some(k) => {
            let row = Setting { key: db.settings[k].key.clone(), value: String::from_str(value) };
            db.settings.set(k, row);
            proof {
                let after = db.settings@;
                assert forall|i: int, j: int|
                    0 <= i < j < after.len() implies #[trigger] after[i].key@ != #[trigger] after[j].key@ by {
                    assert(after[i].key@ == before[i].key@);
                    assert(after[j].key@ == before[j].key@);
                }
                assert forall|q: Seq<char>|
                    #![trigger setting_value(after, q)]
                    setting_value(after, q) == if q == key@ {
                        Some(value@)
                    } else {
                        setting_value(before, q)
                    } by {
                    if q == key@ {
                        assert(after[k as int].key@ == q);
                        let j = choose|j: int| 0 <= j < after.len() && #[trigger] after[j].key@ == q;
                        if j != k {
                            if j < k {
                                assert(after[j].key@ != after[k as int].key@);
                            } else {
                                assert(after[k as int].key@ != after[j].key@);
                            }
                        }
                    } else {
                        assert forall|j: int| 0 <= j < after.len() implies (#[trigger] after[j].key@
                            == q) == (before[j].key@ == q) by {}
                        if exists|j: int| 0 <= j < after.len() && #[trigger] after[j].key@ == q {
                            let j1 = choose|j: int| 0 <= j < after.len() && #[trigger] after[j].key@ == q;
                            let j2 = choose|j: int| 0 <= j < before.len() && #[trigger] before[j].key@ == q;
                            assert(j1 != k);
                            assert(after[j1] == before[j1]);
                            assert(before[j1].key@ == q);
                            if j1 != j2 {
                                if j1 < j2 {
                                    assert(before[j1].key@ != before[j2].key@);
                                } else {
                                    assert(before[j2].key@ != before[j1].key@);
                                }
                            }
                        } else {
                            if exists|j: int| 0 <= j < before.len() && #[trigger] before[j].key@ == q {
                                let j2 = choose|j: int| 0 <= j < before.len() && #[trigger] before[j].key@ == q;
                                assert(after[j2].key@ == q);
                            }
                        }
                    }
                }
            }
        },
        None => {
            let row = Setting { key: String::from_str(key), value: String::from_str(value) };
            db.settings.push(row);
            proof {
                let after = db.settings@;
                assert(after.len() == before.len() + 1);
                assert forall|i: int, j: int|
                    0 <= i < j < after.len() implies #[trigger] after[i].key@ != #[trigger] after[j].key@ by {
                    if j < before.len() {
                        assert(after[i] == before[i]);
                        assert(after[j] == before[j]);
                    } else {
                        assert(after[i] == before[i]);
                    }
                }
                assert forall|q: Seq<char>|
                    #![trigger setting_value(after, q)]
                    setting_value(after, q) == if q == key@ {
                        Some(value@)
                    } else {
                        setting_value(before, q)
                    } by {
                    let last = before.len() as int;
                    if q == key@ {
                        assert(after[last].key@ == q);
                        let j = choose|j: int| 0 <= j < after.len() && #[trigger] after[j].key@ == q;
                        if j != last {
                            assert(after[j] == before[j]);
                        }
                    } else {
                        assert forall|j: int| 0 <= j < before.len() implies (#[trigger] after[j].key@
                            == q) == (before[j].key@ == q) by {
                            assert(after[j] == before[j]);
                        }
                        if exists|j: int| 0 <= j < after.len() && #[trigger] after[j].key@ == q {
                            let j1 = choose|j: int| 0 <= j < after.len() && #[trigger] after[j].key@ == q;
                            assert(j1 != last);
                            assert(after[j1] == before[j1]);
                            let j2 = choose|j: int| 0 <= j < before.len() && #[trigger] before[j].key@ == q;
                            assert(after[j2] == before[j2]);
                            if j1 != j2 {
                                if j1 < j2 {
                                    assert(before[j1].key@ != before[j2].key@);
                                } else {
                                    assert(before[j2].key@ != before[j1].key@);
                                }
                            }
                        } else {
                            assert forall|j: int| 0 <= j < before.len() implies #[trigger] before[j].key@ != q by {
                                assert(after[j] == before[j]);
                            }
                        }
                    }
                }
            }
        },
    }
}

} // verus!

verus! {

// ─────────────────────── users / categories / locations ───────────────────────

/// What adding a row named `name` gives: the next id, unless the ids are
/// used up or the name is taken.
pub open spec fn add_named_result<T: NamedRow>(rows: Seq<T>, last: i64, name: Seq<char>) -> Result<
    i64,
    StockError,
> {
    if last == i64::MAX {
        Err(StockError::IdsExhausted)
    } else if has_name(rows, name) {
        Err(StockError::DuplicateName)
    } else {
        Ok((last + 1) as i64)
    }
}

/// `new` is `old` with one more row of the id and name at the end.
pub open spec fn added_named<T: NamedRow>(old: Seq<T>, new: Seq<T>, id: i64, name: Seq<char>) -> bool {
    &&& appended(old, new)
    &&& new.last().row_id() == id
    &&& new.last().row_name() == name
}

fn add_named<T: NamedRow>(rows: &mut Vec<T>, last: &mut i64, name: &str) -> (r: Result<i64, StockError>)
    requires
        named_ok(old(rows)@, *old(last)),
        *old(last) >= 0,
    ensures
        r == add_named_result(old(rows)@, *old(last), name@),
        r is Err ==> final(rows)@ == old(rows)@ && *final(last) == *old(last),
        r matches Ok(id) ==> added_named(old(rows)@, final(rows)@, id, name@) && *final(last) == id,
        named_ok(final(rows)@, *final(last)),
        *final(last) >= 0,
{
    if *last == i64::MAX {
        return Err(StockError::IdsExhausted);
    }
    if name_used(rows, name) {
        return Err(StockError::DuplicateName);
    }
    let id = *last + 1;
    let ghost before = rows@;
    rows.push(T::make(id, String::from_str(name)));
    *last = id;
    proof {
        let after = rows@;
        assert(after.take(before.len() as int) =~= before);
        assert forall|i: int, j: int|
            0 <= i < j < after.len() implies #[trigger] after[i].row_id() < #[trigger] after[j].row_id() by {
            assert(after[i] == before[i]);
            if j < before.len() {
                assert(after[j] == before[j]);
            }
        }
        assert forall|i: int| 0 <= i < after.len() implies 1 <= #[trigger] after[i].row_id() <= id by {
            if i < before.len() {
                assert(after[i] == before[i]);
            }
        }
        assert forall|i: int, j: int|
            0 <= i < j < after.len() implies #[trigger] after[i].row_name() != #[trigger] after[j].row_name() by {
            assert(after[i] == before[i]);
            if j < before.len() {
                assert(after[j] == before[j]);
            } else {
                assert(before[i].row_name() != name@);
            }
        }
    }
    Ok(id)
}

fn list_named<T: NamedRow>(rows: &Vec<T>) -> (r: Vec<T>)
    ensures
        r@.to_multiset() == rows@.to_multiset(),
        sorted_by_key(r@, |x: T| name_key(x.row_name(), x.row_id())),
{
    let ghost kf = |x: T| name_key(x.row_name(), x.row_id());
    let mut copies: Vec<T> = Vec::new();
    let mut keys: Vec<Vec<i64>> = Vec::new();
    let mut i: usize = 0;
    while i < rows.len()
        invariant
            kf == (|x: T| name_key(x.row_name(), x.row_id())),
            i <= rows@.len(),
            copies@ == rows@.take(i as int),
            keys.len() == copies.len(),
            forall|k: int| 0 <= k < copies.len() ==> (#[trigger] keys@[k])@ == kf(copies@[k]),
        decreases rows@.len() - i,
    {
        let row = rows[i].copy_row();
        let name = rows[i].get_name();
        let mut key: Vec<i64> = Vec::new();
        push_text_key(&mut key, name.as_str());
        key.push(rows[i].get_id());
        proof {
            assert(kf(row) == name_key(row.row_name(), row.row_id()));
            assert(key@ =~= text_key(row.row_name()) + seq![row.row_id()]);
        }
        copies.push(row);
        keys.push(key);
        i = i + 1;
        assert(copies@ =~= rows@.take(i as int));
    }
    assert(copies@ =~= rows@);
    sort_by_keys(copies, keys, Ghost(kf))
}

/// Adds a user with the given name and returns its id.
pub fn add_user(db: &mut Stock, name: &str) -> (r: Result<i64, StockError>)
    requires
        old(db).wf(),
    ensures
        final(db).wf(),
        r == add_named_result(old(db).users@, old(db).last_user_id, name@),
        r is Err ==> final(db).users@ == old(db).users@,
        r matches Ok(id) ==> added_named(old(db).users@, final(db).users@, id, name@),
        final(db).last_user_id == match r {
            Ok(id) => id,
            Err(_) => old(db).last_user_id,
        },
        only_users_changed(*old(db), *final(db)),
{
    let ghost before = db.users@;
    let r = add_named(&mut db.users, &mut db.last_user_id, name);
    proof {
        if r is Ok {
            assert forall|i: int| 0 <= i < db.movements@.len() implies crate::store::ref_ok(
                db.users@,
                #[trigger] db.movements@[i].user_id,
            ) by {
                lemma_ref_ok_grows(before, db.users@, db.movements@[i].user_id);
            }
        }
    }
    r
}

/// Adds a category with the given name and returns its id.
pub fn add_category(db: &mut Stock, name: &str) -> (r: Result<i64, StockError>)
    requires
        old(db).wf(),
    ensures
        final(db).wf(),
        r == add_named_result(old(db).categories@, old(db).last_category_id, name@),
        r is Err ==> final(db).categories@ == old(db).categories@,
        r matches Ok(id) ==> added_named(old(db).categories@, final(db).categories@, id, name@),
        final(db).last_category_id == match r {
            Ok(id) => id,
            Err(_) => old(db).last_category_id,
        },
        only_categories_changed(*old(db), *final(db)),
{
    let ghost before = db.categories@;
    let r = add_named(&mut db.categories, &mut db.last_category_id, name);
    proof {
        if r is Ok {
            assert forall|i: int| 0 <= i < db.items@.len() implies crate::store::ref_ok(
                db.categories@,
                #[trigger] db.items@[i].category_id,
            ) by {
                lemma_ref_ok_grows(before, db.categories@, db.items@[i].category_id);
            }
        }
    }
    r
}

/// Adds a location with the given name and returns its id.
pub fn add_location(db: &mut Stock, name: &str) -> (r: Result<i64, StockError>)
    requires
        old(db).wf(),
    ensures
        final(db).wf(),
        r == add_named_result(old(db).locations@, old(db).last_location_id, name@),
        r is Err ==> final(db).locations@ == old(db).locations@,
        r matches Ok(id) ==> added_named(old(db).locations@, final(db).locations@, id, name@),
        final(db).last_location_id == match r {
            Ok(id) => id,
            Err(_) => old(db).last_location_id,
        },
        only_locations_changed(*old(db), *final(db)),
{
    let ghost before = db.locations@;
    let r = add_named(&mut db.locations, &mut db.last_location_id, name);
    proof {
        if r is Ok {
            assert forall|i: int| 0 <= i < db.items@.len() implies crate::store::ref_ok(
                db.locations@,
                #[trigger] db.items@[i].location_id,
            ) by {
                lemma_ref_ok_grows(before, db.locations@, db.items@[i].location_id);
            }
        }
    }
    r
}

/// All users, ordered by name (then id).
pub fn list_users(db: &Stock) -> (r: Vec<User>)
    ensures
        r@.to_multiset() == db.users@.to_multiset(),
        sorted_by_key(r@, |u: User| name_key(u.name@, u.id)),
{
    list_named(&db.users)
}

/// All categories, ordered by name (then id).
pub fn list_categories(db: &Stock) -> (r: Vec<Category>)
    ensures
        r@.to_multiset() == db.categories@.to_multiset(),
        sorted_by_key(r@, |c: Category| name_key(c.name@, c.id)),
{
    list_named(&db.categories)
}

/// All locations, ordered by name (then id).
pub fn list_locations(db: &Stock) -> (r: Vec<Location>)
    ensures
        r@.to_multiset() == db.locations@.to_multiset(),
        sorted_by_key(r@, |l: Location| name_key(l.name@, l.id)),
{
    list_named(&db.locations)
}

} // verus!

verus! {

// ─────────────────────────────────── items ───────────────────────────────────

/// What a request to add or change an item carries.
pub struct ItemInput {
    pub name: String,
    pub category_id: Option<i64>,
    pub location_id: Option<i64>,
    pub unit: String,
    pub quantity: i64,
    pub min_quantity: i64,
    pub barcode: Option<String>,
    pub expiry_date: Option<String>,
}

/// A barcode as it is stored: trimmed, and nothing when blank (blank codes
/// may repeat, present ones may not).
pub open spec fn normalized(b: Option<Seq<char>>) -> Option<Seq<char>> {
    match b {
        None => None,
        Some(s) => if is_blank(s) {
            None
        } else {
            Some(trimmed(s))
        },
    }
}

/// The item carries exactly this barcode.
pub open spec fn has_barcode(it: Item, code: Seq<char>) -> bool {
    &&& it.barcode is Some
    &&& it.barcode->0@ == code
}

/// Some item other than the excluded one carries the barcode.
pub open spec fn barcode_in_use(items: Seq<Item>, code: Seq<char>, exclude: Option<i64>) -> bool {
    exists|k: int|
        0 <= k < items.len() && has_barcode(#[trigger] items[k], code) && items[k].id != match exclude {
            Some(e) => e,
            None => -1i64,
        }
}

/// Trims a barcode and turns a blank one into nothing.
pub fn normalize_barcode(barcode: &Option<String>) -> (r: Option<String>)
    ensures
        opt_view(r) == normalized(opt_view(*barcode)),
{
    match barcode {
        None => None,
        Some(s) => {
            if blank(s.as_str()) {
                None
            } else {
                Some(trim_text(s.as_str()))
            }
        },
    }
}

/// Whether an item other than `exclude_id` already carries the barcode.
pub fn barcode_taken(db: &Stock, barcode: &str, exclude_id: Option<i64>) -> (r: bool)
    ensures
        r == barcode_in_use(db.items@, barcode@, exclude_id),
{
    let skip: i64 = match exclude_id {
        Some(e) => e,
        None => -1,
    };
    let mut k: usize = 0;
    while k < db.items.len()
        invariant
            k <= db.items@.len(),
            skip == match exclude_id {
                Some(e) => e,
                None => -1i64,
            },
            forall|j: int|
                0 <= j < k ==> !(has_barcode(#[trigger] db.items@[j], barcode@) && db.items@[j].id
                    != skip),
        decreases db.items@.len() - k,
    {
        let it = &db.items[k];
        if it.id != skip {
            match &it.barcode {
                Some(b) => {
                    if same_text(b.as_str(), barcode) {
                        return true;
                    }
                },
                None => {},
            }
        }
        k = k + 1;
    }
    false
}

/// The item with the barcode, the one with the smallest id if several carry
/// it.
pub fn find_by_barcode(db: &Stock, barcode: &str) -> (r: Option<Item>)
    ensures
        r is None <==> !exists|k: int|
            0 <= k < db.items@.len() && has_barcode(#[trigger] db.items@[k], barcode@),
        r matches Some(it) ==> exists|k: int|
            0 <= k < db.items@.len() && it == db.items@[k] && has_barcode(#[trigger] db.items@[k], barcode@)
                && forall|j: int| 0 <= j < k ==> !has_barcode(#[trigger] db.items@[j], barcode@),
{
    let mut k: usize = 0;
    while k < db.items.len()
        invariant
            k <= db.items@.len(),
            forall|j: int| 0 <= j < k ==> !has_barcode(#[trigger] db.items@[j], barcode@),
        decreases db.items@.len() - k,
    {
        match &db.items[k].barcode {
            Some(b) => {
                if same_text(b.as_str(), barcode) {
                    return Some(db.items[k].copy());
                }
            },
            None => {},
        }
        k = k + 1;
    }
    None
}

/// Why adding `input` is refused, if it is.
pub open spec fn add_item_error(db: Stock, input: ItemInput) -> Option<StockError> {
    if is_blank(input.name@) {
        Some(StockError::NameRequired)
    } else if normalized(opt_view(input.barcode)) is Some && barcode_in_use(
        db.items@,
        normalized(opt_view(input.barcode))->0,
        None,
    ) {
        Some(StockError::BarcodeTaken)
    } else if db.last_item_id == i64::MAX {
        Some(StockError::IdsExhausted)
    } else if !ref_ok(db.categories@, input.category_id) || !ref_ok(
        db.locations@,
        input.location_id,
    ) {
        Some(StockError::MissingReference)
    } else {
        None
    }
}

/// The item fields that `input` sets: the name trimmed, the barcode
/// normalized, everything else as given.
pub open spec fn takes_input(it: Item, input: ItemInput) -> bool {
    &&& it.name@ == trimmed(input.name@)
    &&& it.category_id == input.category_id
    &&& it.location_id == input.location_id
    &&& it.unit@ == input.unit@
    &&& it.quantity == input.quantity
    &&& it.min_quantity == input.min_quantity
    &&& opt_view(it.barcode) == normalized(opt_view(input.barcode))
    &&& opt_view(it.expiry_date) == opt_view(input.expiry_date)
}

/// The row that adding `input` under `id` at time `now` creates.
pub open spec fn is_new_item(it: Item, id: i64, input: ItemInput, now: Seq<char>) -> bool {
    &&& it.id == id
    &&& takes_input(it, input)
    &&& it.created_at@ == now
    &&& it.updated_at@ == now
}

fn build_item(id: i64, input: &ItemInput, now: &str) -> (r: Item)
    ensures
        is_new_item(r, id, *input, now@),
{
    Item {
        id,
        name: trim_text(input.name.as_str()),
        category_id: input.category_id,
        location_id: input.location_id,
        unit: input.unit.clone(),
        quantity: input.quantity,
        min_quantity: input.min_quantity,
        barcode: normalize_barcode(&input.barcode),
        expiry_date: copy_opt_text(&input.expiry_date),
        created_at: String::from_str(now),
        updated_at: String::from_str(now),
    }
}

/// What adding `input` at time `now` did to the book `old`, leaving `new`
/// and answering `r`: a refused request changes nothing; an accepted one
/// appends the new row under the next id and touches nothing else.
pub open spec fn add_item_outcome(
    old: Stock,
    new: Stock,
    input: ItemInput,
    now: Seq<char>,
    r: Result<i64, StockError>,
) -> bool {
    match add_item_error(old, input) {
        Some(e) => r == Err::<i64, StockError>(e) && unchanged(old, new),
        None => {
            &&& r == Ok::<i64, StockError>((old.last_item_id + 1) as i64)
            &&& appended(old.items@, new.items@)
            &&& is_new_item(new.items@.last(), r->Ok_0, input, now)
            &&& new.last_item_id == r->Ok_0
            &&& new.movements@ == old.movements@
            &&& new.last_movement_id == old.last_movement_id
            &&& only_stock_changed(old, new)
        },
    }
}

/// Adds an item stamped with `now` and returns its id.
pub fn add_item_at(db: &mut Stock, input: &ItemInput, now: &str) -> (r: Result<i64, StockError>)
    requires
        old(db).wf(),
    ensures
        final(db).wf(),
        add_item_outcome(*old(db), *final(db), *input, now@, r),
{
    if blank(input.name.as_str()) {
        return Err(StockError::NameRequired);
    }
    let barcode = normalize_barcode(&input.barcode);
    match &barcode {
        Some(bc) => {
            if barcode_taken(db, bc.as_str(), None) {
                return Err(StockError::BarcodeTaken);
            }
        },
        None => {},
    }
    if db.last_item_id == i64::MAX {
        return Err(StockError::IdsExhausted);
    }
    if !check_ref(&db.categories, input.category_id) || !check_ref(&db.locations, input.location_id) {
        return Err(StockError::MissingReference);
    }
    let id = db.last_item_id + 1;
    let item = build_item(id, input, now);
    let ghost before = db.items@;
    db.items.push(item);
    db.last_item_id = id;
    proof {
        let after = db.items@;
        assert(after.take(before.len() as int) =~= before);
        assert forall|i: int, j: int| 0 <= i < j < after.len() implies #[trigger] after[i].id
            < #[trigger] after[j].id by {
            assert(after[i] == before[i]);
            if j < before.len() {
                assert(after[j] == before[j]);
            }
        }
        assert forall|i: int| 0 <= i < after.len() implies 1 <= #[trigger] after[i].id <= id by {
            if i < before.len() {
                assert(after[i] == before[i]);
            }
        }
        assert forall|i: int| 0 <= i < after.len() implies ref_ok(
            db.categories@,
            #[trigger] after[i].category_id,
        ) && ref_ok(db.locations@, after[i].location_id) by {
            if i < before.len() {
                assert(after[i] == before[i]);
            }
        }
        assert forall|i: int| 0 <= i < db.movements@.len() implies has_item(
            after,
            #[trigger] db.movements@[i].item_id,
        ) by {
            let k = choose|k: int| 0 <= k < before.len() && #[trigger] before[k].id
                == db.movements@[i].item_id;
            assert(after[k] == before[k]);
        }
    }
    Ok(id)
}

/// Adds an item stamped with the current local time and returns its id.
pub fn add_item(db: &mut Stock, input: &ItemInput) -> (r: Result<i64, StockError>)
    requires
        old(db).wf(),
    ensures
        final(db).wf(),
        add_item_outcome(*old(db), *final(db), *input, final(db).items@.last().created_at@, r),
        r is Ok ==> time_stamp(final(db).items@.last().created_at@),
        r is Ok ==> clock_text(final(db).items@.last().created_at@),
{
    let now = read_clock();
    add_item_at(db, input, now.as_str())
}

} // verus!

verus! {

/// Why changing item `id` to `input` is refused, if it is. Changing an id
/// that no item has is no error and changes nothing.
pub open spec fn update_item_error(db: Stock, id: i64, input: ItemInput) -> Option<StockError> {
    if is_blank(input.name@) {
        Some(StockError::NameRequired)
    } else if normalized(opt_view(input.barcode)) is Some && barcode_in_use(
        db.items@,
        normalized(opt_view(input.barcode))->0,
        Some(id),
    ) {
        Some(StockError::BarcodeTaken)
    } else if has_item(db.items@, id) && (!ref_ok(db.categories@, input.category_id) || !ref_ok(
        db.locations@,
        input.location_id,
    )) {
        Some(StockError::MissingReference)
    } else {
        None
    }
}

/// `new` is row `old` changed to `input` at time `now`.
pub open spec fn is_updated_item(new: Item, old: Item, input: ItemInput, now: Seq<char>) -> bool {
    &&& new.id == old.id
    &&& takes_input(new, input)
    &&& new.created_at == old.created_at
    &&& new.updated_at@ == now
}

/// The items after changing row `id`: that row satisfies `changed`, every
/// other row is as it was.
pub open spec fn items_updated(old: Seq<Item>, new: Seq<Item>, id: i64, input: ItemInput, now: Seq<
    char,
>) -> bool {
    &&& new.len() == old.len()
    &&& forall|k: int|
        0 <= k < old.len() ==> if old[k].id == id {
            is_updated_item(#[trigger] new[k], old[k], input, now)
        } else {
            new[k] == old[k]
        }
}

/// What changing item `id` to `input` at time `now` did to the book `old`,
/// leaving `new` and answering `r`: a refused request changes nothing; an
/// accepted one changes that row alone.
pub open spec fn update_item_outcome(
    old: Stock,
    new: Stock,
    id: i64,
    input: ItemInput,
    now: Seq<char>,
    r: Result<(), StockError>,
) -> bool {
    match update_item_error(old, id, input) {
        Some(e) => r == Err::<(), StockError>(e) && unchanged(old, new),
        None => {
            &&& r is Ok
            &&& items_updated(old.items@, new.items@, id, input, now)
            &&& new.movements@ == old.movements@
            &&& new.last_item_id == old.last_item_id
            &&& new.last_movement_id == old.last_movement_id
            &&& only_stock_changed(old, new)
        },
    }
}

/// Changes item `id` to `input`, stamped with `now`.
pub fn update_item_at(db: &mut Stock, id: i64, input: &ItemInput, now: &str) -> (r: Result<
    (),
    StockError,
>)
    requires
        old(db).wf(),
    ensures
        final(db).wf(),
        update_item_outcome(*old(db), *final(db), id, *input, now@, r),
{
    if blank(input.name.as_str()) {
        return Err(StockError::NameRequired);
    }
    let barcode = normalize_barcode(&input.barcode);
    match &barcode {
        Some(bc) => {
            if barcode_taken(db, bc.as_str(), Some(id)) {
                return Err(StockError::BarcodeTaken);
            }
        },
        None => {},
    }
    let ghost before = db.items@;
    match find_item(&db.items, id) {
        None => {
            assert(db.items@ =~= before);
            Ok(())
        },
        Some(k) => {
            if !check_ref(&db.categories, input.category_id) || !check_ref(
                &db.locations,
                input.location_id,
            ) {
                return Err(StockError::MissingReference);
            }
            let old_row = db.items[k].copy();
            let row = Item {
                id: old_row.id,
                name: trim_text(input.name.as_str()),
                category_id: input.category_id,
                location_id: input.location_id,
                unit: input.unit.clone(),
                quantity: input.quantity,
                min_quantity: input.min_quantity,
                barcode: normalize_barcode(&input.barcode),
                expiry_date: copy_opt_text(&input.expiry_date),
                created_at: old_row.created_at,
                updated_at: String::from_str(now),
            };
            db.items.set(k, row);
            proof {
                let after = db.items@;
                assert forall|j: int| 0 <= j < before.len() && j != k implies before[j].id != id by {
                    if j < k {
                        assert(before[j].id < before[k as int].id);
                    } else {
                        assert(before[k as int].id < before[j].id);
                    }
                }
                assert forall|i: int| 0 <= i < db.movements@.len() implies has_item(
                    after,
                    #[trigger] db.movements@[i].item_id,
                ) by {
                    let j = choose|j: int| 0 <= j < before.len() && #[trigger] before[j].id
                        == db.movements@[i].item_id;
                    assert(after[j].id == before[j].id);
                }
                assert forall|a: int, b: int| 0 <= a < b < after.len() implies #[trigger] after[a].id
                    < #[trigger] after[b].id by {
                    assert(after[a].id == before[a].id);
                    assert(after[b].id == before[b].id);
                }
                assert forall|a: int| 0 <= a < after.len() implies 1 <= #[trigger] after[a].id
                    <= db.last_item_id && ref_ok(db.categories@, after[a].category_id) && ref_ok(
                    db.locations@,
                    after[a].location_id,
                ) by {
                    assert(after[a].id == before[a].id);
                }
            }
            Ok(())
        },
    }
}

/// Changes item `id` to `input`, stamped with the current local time.
pub fn update_item(db: &mut Stock, id: i64, input: &ItemInput) -> (r: Result<(), StockError>)
    requires
        old(db).wf(),
    ensures
        final(db).wf(),
        exists|now: Seq<char>|
            #[trigger] update_item_outcome(*old(db), *final(db), id, *input, now, r) && (r is Ok
                ==> time_stamp(now) && clock_text(now)),
{
    let now = read_clock();
    update_item_at(db, id, input, now.as_str())
}

/// The movements that do not belong to item `id`, in order.
fn movements_without(moves: &Vec<Movement>, id: i64) -> (r: Vec<Movement>)
    requires
        forall|a: int, b: int| 0 <= a < b < moves@.len() ==> #[trigger] moves@[a].id < #[trigger] moves@[b].id,
    ensures
        r@ == moves@.filter(|m: Movement| m.item_id != id),
        forall|a: int, b: int| 0 <= a < b < r@.len() ==> #[trigger] r@[a].id < #[trigger] r@[b].id,
        forall|a: int|
            #![trigger r@[a]]
            0 <= a < r@.len() ==> r@[a].item_id != id && exists|k: int|
                0 <= k < moves@.len() && r@[a] == #[trigger] moves@[k],
{
    let ghost keep = |m: Movement| m.item_id != id;
    let mut out: Vec<Movement> = Vec::new();
    let mut i: usize = 0;
    while i < moves.len()
        invariant
            keep == (|m: Movement| m.item_id != id),
            forall|a: int, b: int| 0 <= a < b < moves@.len() ==> #[trigger] moves@[a].id < #[trigger] moves@[b].id,
            i <= moves@.len(),
            out@ == moves@.take(i as int).filter(keep),
            forall|a: int, b: int| 0 <= a < b < out@.len() ==> #[trigger] out@[a].id < #[trigger] out@[b].id,
            forall|a: int|
                #![trigger out@[a]]
                0 <= a < out@.len() ==> out@[a].item_id != id && exists|k: int|
                    0 <= k < i && out@[a] == #[trigger] moves@[k],
        decreases moves@.len() - i,
    {
        let m = moves[i].copy();
        assert(moves@.take(i + 1) =~= moves@.take(i as int).push(moves@[i as int]));
        proof {
            moves@.take(i as int).lemma_filter_push(moves@[i as int], keep);
        }
        if m.item_id != id {
            proof {
                assert forall|a: int| 0 <= a < out@.len() implies #[trigger] out@[a].id < m.id by {
                    let k = choose|k: int| 0 <= k < i && out@[a] == #[trigger] moves@[k];
                    assert(moves@[k].id < moves@[i as int].id);
                }
            }
            out.push(m);
        }
        i = i + 1;
    }
    assert(moves@.take(moves@.len() as int) =~= moves@);
    out
}

/// The items other than item `id`, in order.
fn items_without(items: &Vec<Item>, id: i64) -> (r: Vec<Item>)
    requires
        forall|a: int, b: int| 0 <= a < b < items@.len() ==> #[trigger] items@[a].id < #[trigger] items@[b].id,
    ensures
        r@ == items@.filter(|it: Item| it.id != id),
        forall|a: int, b: int| 0 <= a < b < r@.len() ==> #[trigger] r@[a].id < #[trigger] r@[b].id,
        forall|k: int| 0 <= k < items@.len() && items@[k].id != id ==> has_item(r@, #[trigger] items@[k].id),
{
    let ghost keep = |it: Item| it.id != id;
    let mut out: Vec<Item> = Vec::new();
    let mut i: usize = 0;
    while i < items.len()
        invariant
            keep == (|it: Item| it.id != id),
            forall|a: int, b: int| 0 <= a < b < items@.len() ==> #[trigger] items@[a].id < #[trigger] items@[b].id,
            i <= items@.len(),
            out@ == items@.take(i as int).filter(keep),
            forall|a: int, b: int| 0 <= a < b < out@.len() ==> #[trigger] out@[a].id < #[trigger] out@[b].id,
            forall|a: int|
                #![trigger out@[a]]
                0 <= a < out@.len() ==> exists|k: int| 0 <= k < i && out@[a] == #[trigger] items@[k],
            forall|k: int| 0 <= k < i && items@[k].id != id ==> has_item(out@, #[trigger] items@[k].id),
        decreases items@.len() - i,
    {
        let it = items[i].copy();
        assert(items@.take(i + 1) =~= items@.take(i as int).push(items@[i as int]));
        proof {
            items@.take(i as int).lemma_filter_push(items@[i as int], keep);
        }
        if it.id != id {
            proof {
                assert forall|a: int| 0 <= a < out@.len() implies #[trigger] out@[a].id < it.id by {
                    let k = choose|k: int| 0 <= k < i && out@[a] == #[trigger] items@[k];
                    assert(items@[k].id < items@[i as int].id);
                }
            }
            let ghost before = out@;
            out.push(it);
            proof {
                assert(out@[before.len() as int].id == items@[i as int].id);
                assert forall|k: int| 0 <= k <= i && items@[k].id != id implies has_item(
                    out@,
                    #[trigger] items@[k].id,
                ) by {
                    if k < i {
                        let w = choose|w: int| 0 <= w < before.len() && #[trigger] before[w].id
                            == items@[k].id;
                        assert(out@[w] == before[w]);
                    }
                }
            }
        }
        i = i + 1;
    }
    assert(items@.take(items@.len() as int) =~= items@);
    out
}

/// Deletes item `id` together with its history.
pub fn delete_item(db: &mut Stock, id: i64)
    requires
        old(db).wf(),
    ensures
        final(db).wf(),
        final(db).items@ == old(db).items@.filter(|it: Item| it.id != id),
        final(db).movements@ == old(db).movements@.filter(|m: Movement| m.item_id != id),
        final(db).last_item_id == old(db).last_item_id,
        final(db).last_movement_id == old(db).last_movement_id,
        only_stock_changed(*old(db), *final(db)),
{
    let ghost old_items = db.items@;
    let ghost old_moves = db.movements@;
    let moves = movements_without(&db.movements, id);
    let items = items_without(&db.items, id);
    db.movements = moves;
    db.items = items;
    proof {
        let new_items = db.items@;
        let new_moves = db.movements@;
        assert forall|a: int| #![trigger new_items[a]] 0 <= a < new_items.len() implies 1 <= new_items[a].id
            <= db.last_item_id && ref_ok(db.categories@, new_items[a].category_id) && ref_ok(
            db.locations@,
            new_items[a].location_id,
        ) by {
            old_items.lemma_filter_contains_rev(|it: Item| it.id != id, new_items[a]);
            let k = choose|k: int| 0 <= k < old_items.len() && old_items[k] == new_items[a];
        }
        assert forall|a: int| #![trigger new_moves[a]] 0 <= a < new_moves.len() implies 1 <= new_moves[a].id
            <= db.last_movement_id && ref_ok(db.users@, new_moves[a].user_id) && has_item(
            new_items,
            new_moves[a].item_id,
        ) by {
            let k = choose|k: int| 0 <= k < old_moves.len() && new_moves[a] == #[trigger] old_moves[k];
            let q = choose|q: int| 0 <= q < old_items.len() && #[trigger] old_items[q].id
                == old_moves[k].item_id;
        }
    }
}

} // verus!

verus! {

// ───────────────────────────── check-in / check-out ─────────────────────────────

/// The item with the id (meaningful when there is one).
pub open spec fn item_with_id(items: Seq<Item>, id: i64) -> Item {
    items[choose|k: int| 0 <= k < items.len() && #[trigger] items[k].id == id]
}

/// Why receiving `qty` of item `item_id` is refused, if it is.
pub open spec fn check_in_error(db: Stock, item_id: i64, user_id: Option<i64>, qty: i64) -> Option<
    StockError,
> {
    if qty <= 0 {
        Some(StockError::NonPositiveQuantity)
    } else if has_item(db.items@, item_id) && item_with_id(db.items@, item_id).quantity + qty
        > i64::MAX {
        Some(StockError::QuantityOverflow)
    } else if db.last_movement_id == i64::MAX {
        Some(StockError::IdsExhausted)
    } else if !has_item(db.items@, item_id) || !ref_ok(db.users@, user_id) {
        Some(StockError::MissingReference)
    } else {
        None
    }
}

/// Why taking out `qty` of item `item_id` is refused, if it is.
pub open spec fn check_out_error(db: Stock, item_id: i64, user_id: Option<i64>, qty: i64) -> Option<
    StockError,
> {
    if qty <= 0 {
        Some(StockError::NonPositiveQuantity)
    } else if !has_item(db.items@, item_id) {
        Some(StockError::ItemNotFound)
    } else if item_with_id(db.items@, item_id).quantity < qty {
        Some(StockError::InsufficientStock(item_with_id(db.items@, item_id).quantity))
    } else if db.last_movement_id == i64::MAX {
        Some(StockError::IdsExhausted)
    } else if !ref_ok(db.users@, user_id) {
        Some(StockError::MissingReference)
    } else {
        None
    }
}

/// Row `b` is row `a` after a movement of `qty` in direction `kind` at
/// time `now`: the quantity goes up or down by `qty`, a check-out clears the
/// barcode (so that the number can be given out again), and the rest stays.
pub open spec fn stock_moved(a: Item, b: Item, kind: TxType, qty: i64, now: Seq<char>) -> bool {
    &&& b.id == a.id
    &&& b.name == a.name
    &&& b.category_id == a.category_id
    &&& b.location_id == a.location_id
    &&& b.unit == a.unit
    &&& b.min_quantity == a.min_quantity
    &&& b.expiry_date == a.expiry_date
    &&& b.created_at == a.created_at
    &&& b.updated_at@ == now
    &&& match kind {
        TxType::In => b.quantity == a.quantity + qty && b.barcode == a.barcode,
        TxType::Out => b.quantity == a.quantity - qty && b.barcode is None,
    }
}

/// The history row a movement records.
pub open spec fn is_movement(
    m: Movement,
    id: i64,
    item_id: i64,
    user_id: Option<i64>,
    kind: TxType,
    qty: i64,
    note: Seq<char>,
    now: Seq<char>,
) -> bool {
    &&& m.id == id
    &&& m.item_id == item_id
    &&& m.user_id == user_id
    &&& m.tx_type == kind
    &&& m.quantity == qty
    &&& m.note@ == note
    &&& m.timestamp@ == now
}

/// `new` is `old` after a movement: the item's stock changes as
/// `stock_moved` says, every other item stays, and exactly one history row
/// is appended under the next id.
pub open spec fn moved(
    old: Stock,
    new: Stock,
    item_id: i64,
    user_id: Option<i64>,
    kind: TxType,
    qty: i64,
    note: Seq<char>,
    now: Seq<char>,
) -> bool {
    &&& only_stock_changed(old, new)
    &&& new.last_item_id == old.last_item_id
    &&& new.items@.len() == old.items@.len()
    &&& forall|k: int|
        0 <= k < old.items@.len() ==> if old.items@[k].id == item_id {
            stock_moved(old.items@[k], #[trigger] new.items@[k], kind, qty, now)
        } else {
            new.items@[k] == old.items@[k]
        }
    &&& appended(old.movements@, new.movements@)
    &&& new.last_movement_id == old.last_movement_id + 1
    &&& is_movement(
        new.movements@.last(),
        new.last_movement_id,
        item_id,
        user_id,
        kind,
        qty,
        note,
        now,
    )
}

/// Why a movement of `qty` in direction `kind` is refused, if it is.
pub open spec fn movement_error(
    db: Stock,
    item_id: i64,
    user_id: Option<i64>,
    kind: TxType,
    qty: i64,
) -> Option<StockError> {
    match kind {
        TxType::In => check_in_error(db, item_id, user_id, qty),
        TxType::Out => check_out_error(db, item_id, user_id, qty),
    }
}

/// What a movement request did to the book `old`, leaving `new` and
/// answering `r`: a refused request changes nothing; an accepted one is the
/// movement that `moved` describes.
pub open spec fn movement_outcome(
    old: Stock,
    new: Stock,
    item_id: i64,
    user_id: Option<i64>,
    kind: TxType,
    qty: i64,
    note: Seq<char>,
    now: Seq<char>,
    r: Result<(), StockError>,
) -> bool {
    match movement_error(old, item_id, user_id, kind, qty) {
        Some(e) => r == Err::<(), StockError>(e) && unchanged(old, new),
        None => r is Ok && moved(old, new, item_id, user_id, kind, qty, note, now),
    }
}

pub proof fn lemma_item_with_id(db: Stock, k: int)
    requires
        db.wf(),
        0 <= k < db.items@.len(),
    ensures
        item_with_id(db.items@, db.items@[k].id) == db.items@[k],
{
    let id = db.items@[k].id;
    let j = choose|j: int| 0 <= j < db.items@.len() && #[trigger] db.items@[j].id == id;
    if j < k {
        assert(db.items@[j].id < db.items@[k].id);
    } else if j > k {
        assert(db.items@[k].id < db.items@[j].id);
    }
}

/// Applies a movement whose checks have passed: changes row `k` and appends
/// the history row.
fn record_movement(
    db: &mut Stock,
    k: usize,
    user_id: Option<i64>,
    kind: TxType,
    qty: i64,
    note: &str,
    now: &str,
)
    requires
        old(db).wf(),
        k < old(db).items@.len(),
        qty > 0,
        kind == TxType::In ==> old(db).items@[k as int].quantity + qty <= i64::MAX,
        kind == TxType::Out ==> old(db).items@[k as int].quantity >= qty,
        old(db).last_movement_id < i64::MAX,
        ref_ok(old(db).users@, user_id),
    ensures
        final(db).wf(),
        moved(*old(db), *final(db), old(db).items@[k as int].id, user_id, kind, qty, note@, now@),
{
    let ghost before = db.items@;
    let ghost moves_before = db.movements@;
    let old_row = db.items[k].copy();
    let item_id = old_row.id;
    let new_qty = match kind {
        TxType::In => old_row.quantity + qty,
        TxType::Out => old_row.quantity - qty,
    };
    let new_barcode = match kind {
        TxType::In => copy_opt_text(&old_row.barcode),
        TxType::Out => None,
    };
    let row = Item {
        id: old_row.id,
        name: old_row.name,
        category_id: old_row.category_id,
        location_id: old_row.location_id,
        unit: old_row.unit,
        quantity: new_qty,
        min_quantity: old_row.min_quantity,
        barcode: new_barcode,
        expiry_date: old_row.expiry_date,
        created_at: old_row.created_at,
        updated_at: String::from_str(now),
    };
    db.items.set(k, row);
    let mid = db.last_movement_id + 1;
    let m = Movement {
        id: mid,
        item_id,
        user_id,
        tx_type: kind,
        quantity: qty,
        note: String::from_str(note),
        timestamp: String::from_str(now),
    };
    db.movements.push(m);
    db.last_movement_id = mid;
    proof {
        let after = db.items@;
        let moves = db.movements@;
        assert forall|j: int| 0 <= j < before.len() && j != k implies before[j].id != item_id by {
            if j < k {
                assert(before[j].id < before[k as int].id);
            } else {
                assert(before[k as int].id < before[j].id);
            }
        }
        assert(moves.take(moves_before.len() as int) =~= moves_before);
        assert forall|a: int, b: int| 0 <= a < b < after.len() implies #[trigger] after[a].id
            < #[trigger] after[b].id by {
            assert(after[a].id == before[a].id);
            assert(after[b].id == before[b].id);
        }
        assert forall|a: int| 0 <= a < after.len() implies 1 <= #[trigger] after[a].id
            <= db.last_item_id && ref_ok(db.categories@, after[a].category_id) && ref_ok(
            db.locations@,
            after[a].location_id,
        ) by {
            assert(after[a].id == before[a].id);
        }
        assert forall|a: int, b: int| 0 <= a < b < moves.len() implies #[trigger] moves[a].id
            < #[trigger] moves[b].id by {
            assert(moves[a] == moves_before[a]);
            if b < moves_before.len() {
                assert(moves[b] == moves_before[b]);
            }
        }
        assert forall|a: int| #![trigger moves[a]] 0 <= a < moves.len() implies 1 <= moves[a].id
            <= mid && ref_ok(db.users@, moves[a].user_id) && has_item(after, moves[a].item_id) by {
            if a < moves_before.len() {
                assert(moves[a] == moves_before[a]);
                let q = choose|q: int| 0 <= q < before.len() && #[trigger] before[q].id
                    == moves_before[a].item_id;
                assert(after[q].id == before[q].id);
            } else {
                assert(after[k as int].id == item_id);
            }
        }
    }
}

/// Receives `qty` of item `item_id`, recorded by `user_id` at time `now`.
pub fn check_in_at(
    db: &mut Stock,
    item_id: i64,
    user_id: Option<i64>,
    qty: i64,
    note: &str,
    now: &str,
) -> (r: Result<(), StockError>)
    requires
        old(db).wf(),
    ensures
        final(db).wf(),
        movement_outcome(*old(db), *final(db), item_id, user_id, TxType::In, qty, note@, now@, r),
{
    if qty <= 0 {
        return Err(StockError::NonPositiveQuantity);
    }
    let found = find_item(&db.items, item_id);
    match found {
        Some(k) => {
            proof {
                lemma_item_with_id(*db, k as int);
            }
            if db.items[k].quantity > i64::MAX - qty {
                return Err(StockError::QuantityOverflow);
            }
        },
        None => {},
    }
    if db.last_movement_id == i64::MAX {
        return Err(StockError::IdsExhausted);
    }
    match found {
        None => Err(StockError::MissingReference),
        Some(k) => {
            if !check_ref(&db.users, user_id) {
                return Err(StockError::MissingReference);
            }
            record_movement(db, k, user_id, TxType::In, qty, note, now);
            Ok(())
        },
    }
}

/// Receives `qty` of item `item_id`, stamped with the current local time.
pub fn check_in(db: &mut Stock, item_id: i64, user_id: Option<i64>, qty: i64, note: &str) -> (r:
    Result<(), StockError>)
    requires
        old(db).wf(),
    ensures
        final(db).wf(),
        movement_outcome(
            *old(db),
            *final(db),
            item_id,
            user_id,
            TxType::In,
            qty,
            note@,
            final(db).movements@.last().timestamp@,
            r,
        ),
        r is Ok ==> time_stamp(final(db).movements@.last().timestamp@),
        r is Ok ==> clock_text(final(db).movements@.last().timestamp@),
{
    let now = read_clock();
    check_in_at(db, item_id, user_id, qty, note, now.as_str())
}

/// Takes out `qty` of item `item_id`, recorded by `user_id` at time `now`;
/// the item's barcode is cleared.
pub fn check_out_at(
    db: &mut Stock,
    item_id: i64,
    user_id: Option<i64>,
    qty: i64,
    note: &str,
    now: &str,
) -> (r: Result<(), StockError>)
    requires
        old(db).wf(),
    ensures
        final(db).wf(),
        movement_outcome(*old(db), *final(db), item_id, user_id, TxType::Out, qty, note@, now@, r),
{
    if qty <= 0 {
        return Err(StockError::NonPositiveQuantity);
    }
    let k = match find_item(&db.items, item_id) {
        Some(k) => k,
        None => {
            return Err(StockError::ItemNotFound);
        },
    };
    proof {
        lemma_item_with_id(*db, k as int);
    }
    let current = db.items[k].quantity;
    if current < qty {
        return Err(StockError::InsufficientStock(current));
    }
    if db.last_movement_id == i64::MAX {
        return Err(StockError::IdsExhausted);
    }
    if !check_ref(&db.users, user_id) {
        return Err(StockError::MissingReference);
    }
    record_movement(db, k, user_id, TxType::Out, qty, note, now);
    Ok(())
}

/// Takes out `qty` of item `item_id`, stamped with the current local time;
/// the item's barcode is cleared.
pub fn check_out(db: &mut Stock, item_id: i64, user_id: Option<i64>, qty: i64, note: &str) -> (r:
    Result<(), StockError>)
    requires
        old(db).wf(),
    ensures
        final(db).wf(),
        movement_outcome(
            *old(db),
            *final(db),
            item_id,
            user_id,
            TxType::Out,
            qty,
            note@,
            final(db).movements@.last().timestamp@,
            r,
        ),
        r is Ok ==> time_stamp(final(db).movements@.last().timestamp@),
        r is Ok ==> clock_text(final(db).movements@.last().timestamp@),
{
    let now = read_clock();
    check_out_at(db, item_id, user_id, qty, note, now.as_str())
}

} // verus!

verus! {

// ──────────────────────────────── listings ────────────────────────────────

/// The orders in which items are listed.
pub enum ItemOrder {
    /// By name, then id.
    ByName,
    /// By quantity, then name, then id.
    ByQuantity,
    /// By expiry date, then name, then id.
    ByExpiry,
}

/// The listing key of an item in the given order.
pub open spec fn item_key(order: ItemOrder, it: Item) -> Seq<i64> {
    match order {
        ItemOrder::ByName => name_key(it.name@, it.id),
        ItemOrder::ByQuantity => seq![it.quantity] + name_key(it.name@, it.id),
        ItemOrder::ByExpiry => text_key(
            match it.expiry_date {
                Some(e) => e@,
                None => Seq::empty(),
            },
        ) + name_key(it.name@, it.id),
    }
}

fn item_key_of(order: &ItemOrder, it: &Item) -> (r: Vec<i64>)
    ensures
        r@ == item_key(*order, *it),
{
    let mut key: Vec<i64> = Vec::new();
    match order {
        ItemOrder::ByName => {},
        ItemOrder::ByQuantity => {
            key.push(it.quantity);
        },
        ItemOrder::ByExpiry => {
            match &it.expiry_date {
                Some(e) => push_text_key(&mut key, e.as_str()),
                None => push_text_key(&mut key, ""),
            }
        },
    }
    push_text_key(&mut key, it.name.as_str());
    key.push(it.id);
    proof {
        match order {
            ItemOrder::ByName => {
                assert(key@ =~= name_key(it.name@, it.id));
            },
            ItemOrder::ByQuantity => {
                assert(key@ =~= seq![it.quantity] + name_key(it.name@, it.id));
            },
            ItemOrder::ByExpiry => {
                if it.expiry_date is None {
                    assert(""@ =~= Seq::<char>::empty()) by {
                        reveal_strlit("");
                    }
                }
                assert(key@ =~= text_key(
                    match it.expiry_date {
                        Some(e) => e@,
                        None => Seq::empty(),
                    },
                ) + name_key(it.name@, it.id));
            },
        }
    }
    key
}

/// Sorts item rows into the given order.
fn sort_items(rows: Vec<Item>, order: ItemOrder) -> (r: Vec<Item>)
    ensures
        r@.to_multiset() == rows@.to_multiset(),
        sorted_by_key(r@, |it: Item| item_key(order, it)),
{
    let ghost kf = |it: Item| item_key(order, it);
    let mut keys: Vec<Vec<i64>> = Vec::new();
    let mut i: usize = 0;
    while i < rows.len()
        invariant
            kf == (|it: Item| item_key(order, it)),
            i <= rows@.len(),
            keys.len() == i,
            forall|k: int| 0 <= k < i ==> (#[trigger] keys@[k])@ == kf(rows@[k]),
        decreases rows@.len() - i,
    {
        let key = item_key_of(&order, &rows[i]);
        keys.push(key);
        i = i + 1;
    }
    sort_by_keys(rows, keys, Ghost(kf))
}

/// Copies of the items that an alert list selects, in table order.
fn copy_items(items: &Vec<Item>, cutoff: &str, low_only: bool) -> (r: Vec<Item>)
    ensures
        r@ == items@.filter(|it: Item| item_selected(it, cutoff@, low_only)),
{
    let ghost pred = |it: Item| item_selected(it, cutoff@, low_only);
    let mut out: Vec<Item> = Vec::new();
    let mut i: usize = 0;
    while i < items.len()
        invariant
            pred == (|it: Item| item_selected(it, cutoff@, low_only)),
            i <= items@.len(),
            out@ == items@.take(i as int).filter(pred),
        decreases items@.len() - i,
    {
        assert(items@.take(i + 1) =~= items@.take(i as int).push(items@[i as int]));
        proof {
            items@.take(i as int).lemma_filter_push(items@[i as int], pred);
        }
        if select_item(&items[i], cutoff, low_only) {
            out.push(items[i].copy());
        }
        i = i + 1;
    }
    assert(items@.take(items@.len() as int) =~= items@);
    out
}

/// The item is low on stock: at or below its minimum.
pub open spec fn is_low(it: Item) -> bool {
    it.quantity <= it.min_quantity
}

/// The item has a non-empty expiry date that is not after `cutoff`
/// (comparing the texts).
pub open spec fn expires_by(it: Item, cutoff: Seq<char>) -> bool {
    &&& it.expiry_date is Some
    &&& it.expiry_date->0@.len() > 0
    &&& lex_le(text_key(it.expiry_date->0@), text_key(cutoff))
}

/// Selection used by the two alert lists.
pub open spec fn item_selected(it: Item, cutoff: Seq<char>, low_only: bool) -> bool {
    if low_only {
        is_low(it)
    } else {
        expires_by(it, cutoff)
    }
}

fn select_item(it: &Item, cutoff: &str, low_only: bool) -> (r: bool)
    ensures
        r == item_selected(*it, cutoff@, low_only),
{
    if low_only {
        it.quantity <= it.min_quantity
    } else {
        match &it.expiry_date {
            None => false,
            Some(e) => {
                if e.as_str().unicode_len() == 0 {
                    false
                } else {
                    let mut a: Vec<i64> = Vec::new();
                    push_text_key(&mut a, e.as_str());
                    let mut b: Vec<i64> = Vec::new();
                    push_text_key(&mut b, cutoff);
                    proof {
                        assert(a@ =~= text_key(e@));
                        assert(b@ =~= text_key(cutoff@));
                    }
                    key_le(&a, &b)
                }
            },
        }
    }
}

/// All items, ordered by name (then id).
pub fn list_items(db: &Stock) -> (r: Vec<Item>)
    ensures
        r@.to_multiset() == db.items@.to_multiset(),
        sorted_by_key(r@, |it: Item| name_key(it.name@, it.id)),
{
    let mut rows: Vec<Item> = Vec::new();
    let mut i: usize = 0;
    while i < db.items.len()
        invariant
            i <= db.items@.len(),
            rows@ == db.items@.take(i as int),
        decreases db.items@.len() - i,
    {
        rows.push(db.items[i].copy());
        i = i + 1;
        assert(rows@ =~= db.items@.take(i as int));
    }
    assert(rows@ =~= db.items@);
    let r = sort_items(rows, ItemOrder::ByName);
    assert(sorted_by_key(r@, |it: Item| item_key(ItemOrder::ByName, it)));
    r
}

/// Items at or below their minimum, ordered by quantity, then name.
pub fn low_stock_items(db: &Stock) -> (r: Vec<Item>)
    ensures
        r@.to_multiset() == db.items@.filter(|it: Item| is_low(it)).to_multiset(),
        sorted_by_key(r@, |it: Item| item_key(ItemOrder::ByQuantity, it)),
{
    let rows = copy_items(&db.items, "", true);
    proof {
        let a = |it: Item| item_selected(it, ""@, true);
        let b = |it: Item| is_low(it);
        assert(a =~= b);
    }
    sort_items(rows, ItemOrder::ByQuantity)
}

/// Items with an expiry date not after `cutoff` (a `YYYY-MM-DD` text),
/// ordered by expiry date, then name.
pub fn expiring_items_until(db: &Stock, cutoff: &str) -> (r: Vec<Item>)
    ensures
        r@.to_multiset() == db.items@.filter(|it: Item| expires_by(it, cutoff@)).to_multiset(),
        sorted_by_key(r@, |it: Item| item_key(ItemOrder::ByExpiry, it)),
{
    let rows = copy_items(&db.items, cutoff, false);
    proof {
        let a = |it: Item| item_selected(it, cutoff@, false);
        let b = |it: Item| expires_by(it, cutoff@);
        assert(a =~= b);
    }
    sort_items(rows, ItemOrder::ByExpiry)
}

/// What listing the items that expire within `days` days answered: for
/// the day the clock gave as today, the items whose expiry date is not after
/// that day plus `days`, by expiry date and name; refused when that day
/// leaves the calendar.
pub open spec fn expiring_outcome(db: Stock, days: i64, r: Result<Vec<Item>, StockError>) -> bool {
    exists|today: i32|
        #![trigger day_in_range(today as int, days as int)]
        clock_day(today) && MIN_DAY <= today <= MAX_DAY && match r {
            Ok(v) => {
                &&& day_in_range(today as int, days as int)
                &&& v@.to_multiset() == db.items@.filter(
                    |it: Item| expires_by(it, ymd_text((today + days) as i32)),
                ).to_multiset()
                &&& sorted_by_key(v@, |it: Item| item_key(ItemOrder::ByExpiry, it))
            },
            Err(e) => e == StockError::DateOutOfRange && !day_in_range(today as int, days as int),
        }
}

/// Items that expire within `days` days from today (or have expired).
/// Refused with `DateOutOfRange` when that day lies outside the calendar.
pub fn expiring_items(db: &Stock, days: i64) -> (r: Result<Vec<Item>, StockError>)
    ensures
        expiring_outcome(*db, days, r),
{
    match date_after_today(days) {
        Some(cutoff) => Ok(expiring_items_until(db, cutoff.as_str())),
        None => Err(StockError::DateOutOfRange),
    }
}

} // verus!

verus! {

// ───────────────────────────────── history ─────────────────────────────────

/// The row of a named table with the id (meaningful when there is one).
pub open spec fn named_with_id<T: NamedRow>(rows: Seq<T>, id: i64) -> T {
    rows[choose|k: int| 0 <= k < rows.len() && #[trigger] rows[k].row_id() == id]
}

/// The name of the recording user, empty when nobody was recorded.
pub open spec fn user_name_of(users: Seq<User>, user_id: Option<i64>) -> Seq<char> {
    match user_id {
        Some(u) => if has_id(users, u) {
            named_with_id(users, u).name@
        } else {
            Seq::empty()
        },
        None => Seq::empty(),
    }
}

/// `t` shows movement `m` with the names of its item and user joined in.
pub open spec fn shows_movement(t: Transaction, db: Stock, m: Movement) -> bool {
    &&& t.id == m.id
    &&& t.item_id == m.item_id
    &&& t.item_name == item_with_id(db.items@, m.item_id).name
    &&& t.user_name@ == user_name_of(db.users@, m.user_id)
    &&& t.tx_type == m.tx_type
    &&& t.quantity == m.quantity
    &&& t.note == m.note
    &&& t.timestamp == m.timestamp
}

/// History order: latest time first, then the larger id first.
pub open spec fn history_key(t: Transaction) -> Seq<i64> {
    text_key_desc(t.timestamp@) + seq![(0 - t.id) as i64]
}

pub proof fn lemma_named_with_id<T: NamedRow>(rows: Seq<T>, last: i64, k: int)
    requires
        named_ok(rows, last),
        0 <= k < rows.len(),
    ensures
        named_with_id(rows, rows[k].row_id()) == rows[k],
{
    let id = rows[k].row_id();
    let j = choose|j: int| 0 <= j < rows.len() && #[trigger] rows[j].row_id() == id;
    if j < k {
        assert(rows[j].row_id() < rows[k].row_id());
    } else if j > k {
        assert(rows[k].row_id() < rows[j].row_id());
    }
}

pub(crate) fn show_movement(db: &Stock, m: &Movement) -> (r: Transaction)
    requires
        db.wf(),
        has_item(db.items@, m.item_id),
        ref_ok(db.users@, m.user_id),
        m.id >= 1,
    ensures
        shows_movement(r, *db, *m),
{
    let k = find_item(&db.items, m.item_id).unwrap();
    proof {
        lemma_item_with_id(*db, k as int);
    }
    let user_name = match m.user_id {
        Some(u) => match find_named(&db.users, u) {
            Some(j) => {
                proof {
                    lemma_named_with_id(db.users@, db.last_user_id, j as int);
                }
                db.users[j].name.clone()
            },
            None => String::new(),
        },
        None => String::new(),
    };
    Transaction {
        id: m.id,
        item_id: m.item_id,
        item_name: db.items[k].name.clone(),
        user_name,
        tx_type: m.tx_type,
        quantity: m.quantity,
        note: m.note.clone(),
        timestamp: m.timestamp.clone(),
    }
}

} // verus!

verus! {

// ──────────────────────────────── barcodes ────────────────────────────────

/// The value of a decimal digit, or -1 for any other character.
pub open spec fn digit_of(c: char) -> int {
    if c == '0' {
        0
    } else if c == '1' {
        1
    } else if c == '2' {
        2
    } else if c == '3' {
        3
    } else if c == '4' {
        4
    } else if c == '5' {
        5
    } else if c == '6' {
        6
    } else if c == '7' {
        7
    } else if c == '8' {
        8
    } else if c == '9' {
        9
    } else {
        -1
    }
}

/// The character of a decimal digit.
pub open spec fn digit_char(d: int) -> char {
    if d == 0 {
        '0'
    } else if d == 1 {
        '1'
    } else if d == 2 {
        '2'
    } else if d == 3 {
        '3'
    } else if d == 4 {
        '4'
    } else if d == 5 {
        '5'
    } else if d == 6 {
        '6'
    } else if d == 7 {
        '7'
    } else if d == 8 {
        '8'
    } else {
        '9'
    }
}

/// Five decimal digits, the first not zero (the shape `[1-9][0-9]{4}`).
pub open spec fn is_code5(s: Seq<char>) -> bool {
    &&& s.len() == 5
    &&& 1 <= digit_of(s[0])
    &&& 0 <= digit_of(s[1])
    &&& 0 <= digit_of(s[2])
    &&& 0 <= digit_of(s[3])
    &&& 0 <= digit_of(s[4])
}

/// The number that five digits spell.
pub open spec fn code_value(s: Seq<char>) -> int {
    digit_of(s[0]) * 10000 + digit_of(s[1]) * 1000 + digit_of(s[2]) * 100 + digit_of(s[3]) * 10
        + digit_of(s[4])
}

/// The decimal text of a five-digit number.
pub open spec fn code_text(n: int) -> Seq<char> {
    seq![
        digit_char(n / 10000 % 10),
        digit_char(n / 1000 % 10),
        digit_char(n / 100 % 10),
        digit_char(n / 10 % 10),
        digit_char(n % 10),
    ]
}

/// The largest five-digit barcode among the items, if any.
pub open spec fn max_code(items: Seq<Item>) -> Option<int>
    decreases items.len(),
{
    if items.len() == 0 {
        None
    } else {
        let rest = max_code(items.drop_last());
        let it = items.last();
        if it.barcode is Some && is_code5(it.barcode->0@) {
            let v = code_value(it.barcode->0@);
            match rest {
                Some(m) => Some(
                    if v > m {
                        v
                    } else {
                        m
                    },
                ),
                None => Some(v),
            }
        } else {
            rest
        }
    }
}

/// Where the search for a free barcode starts: one past the largest
/// five-digit barcode, and 10000 when there is none.
pub open spec fn barcode_start(items: Seq<Item>) -> int {
    match max_code(items) {
        Some(m) => if m + 1 < 10000 {
            10000
        } else {
            m + 1
        },
        None => 10000,
    }
}

/// The `t`-th number the search tries: counting up from `start` and
/// wrapping from 99999 back to 10000.
pub open spec fn cycle_code(start: int, t: int) -> int {
    10000 + (start - 10000 + t) % 90000
}

/// Some item carries the barcode.
pub open spec fn barcode_used(items: Seq<Item>, code: Seq<char>) -> bool {
    exists|k: int| 0 <= k < items.len() && has_barcode(#[trigger] items[k], code)
}

/// The number tried at step `t` is free, and all before it are in use.
pub open spec fn first_free_at(items: Seq<Item>, t: int) -> bool {
    &&& 0 <= t < 90000
    &&& !barcode_used(items, code_text(cycle_code(barcode_start(items), t)))
    &&& forall|u: int|
        0 <= u < t ==> barcode_used(items, #[trigger] code_text(cycle_code(barcode_start(items), u)))
}

fn digit_value(c: char) -> (r: i64)
    ensures
        r == digit_of(c),
{
    if c == '0' {
        0
    } else if c == '1' {
        1
    } else if c == '2' {
        2
    } else if c == '3' {
        3
    } else if c == '4' {
        4
    } else if c == '5' {
        5
    } else if c == '6' {
        6
    } else if c == '7' {
        7
    } else if c == '8' {
        8
    } else if c == '9' {
        9
    } else {
        -1
    }
}

pub(crate) fn digit_text(d: i64) -> (r: &'static str)
    requires
        0 <= d <= 9,
    ensures
        r@ == seq![digit_char(d as int)],
{
    if d == 0 {
        proof { reveal_strlit("0"); }
        "0"
    } else if d == 1 {
        proof { reveal_strlit("1"); }
        "1"
    } else if d == 2 {
        proof { reveal_strlit("2"); }
        "2"
    } else if d == 3 {
        proof { reveal_strlit("3"); }
        "3"
    } else if d == 4 {
        proof { reveal_strlit("4"); }
        "4"
    } else if d == 5 {
        proof { reveal_strlit("5"); }
        "5"
    } else if d == 6 {
        proof { reveal_strlit("6"); }
        "6"
    } else if d == 7 {
        proof { reveal_strlit("7"); }
        "7"
    } else if d == 8 {
        proof { reveal_strlit("8"); }
        "8"
    } else {
        proof { reveal_strlit("9"); }
        "9"
    }
}

/// The decimal text of a five-digit number.
pub fn code_string(n: i64) -> (r: String)
    requires
        10000 <= n <= 99999,
    ensures
        r@ == code_text(n as int),
{
    let mut s = String::new();
    s.append(digit_text(n / 10000 % 10));
    s.append(digit_text(n / 1000 % 10));
    s.append(digit_text(n / 100 % 10));
    s.append(digit_text(n / 10 % 10));
    s.append(digit_text(n % 10));
    assert(s@ =~= code_text(n as int));
    s
}

/// The number a five-digit barcode spells, or nothing for any other text.
pub fn five_digit_value(s: &str) -> (r: Option<i64>)
    ensures
        r == if is_code5(s@) {
            Some(code_value(s@) as i64)
        } else {
            None::<i64>
        },
{
    if s.unicode_len() != 5 {
        return None;
    }
    let d0 = digit_value(s.get_char(0));
    let d1 = digit_value(s.get_char(1));
    let d2 = digit_value(s.get_char(2));
    let d3 = digit_value(s.get_char(3));
    let d4 = digit_value(s.get_char(4));
    if d0 < 1 || d1 < 0 || d2 < 0 || d3 < 0 || d4 < 0 {
        return None;
    }
    Some(d0 * 10000 + d1 * 1000 + d2 * 100 + d3 * 10 + d4)
}

/// Whether some item carries the barcode.
fn barcode_in_stock(items: &Vec<Item>, code: &str) -> (r: bool)
    ensures
        r == barcode_used(items@, code@),
{
    let mut k: usize = 0;
    while k < items.len()
        invariant
            k <= items@.len(),
            forall|j: int| 0 <= j < k ==> !has_barcode(#[trigger] items@[j], code@),
        decreases items@.len() - k,
    {
        match &items[k].barcode {
            Some(b) => {
                if same_text(b.as_str(), code) {
                    return true;
                }
            },
            None => {},
        }
        k = k + 1;
    }
    false
}

/// The largest five-digit barcode among the items.
fn largest_code(items: &Vec<Item>) -> (r: Option<i64>)
    ensures
        match r {
            Some(v) => max_code(items@) == Some(v as int),
            None => max_code(items@) is None,
        },
        r matches Some(v) ==> 10000 <= v <= 99999,
{
    let mut best: Option<i64> = None;
    let mut i: usize = 0;
    while i < items.len()
        invariant
            i <= items@.len(),
            match best {
                Some(v) => max_code(items@.take(i as int)) == Some(v as int),
                None => max_code(items@.take(i as int)) is None,
            },
            best matches Some(v) ==> 10000 <= v <= 99999,
        decreases items@.len() - i,
    {
        assert(items@.take(i + 1).drop_last() =~= items@.take(i as int));
        assert(items@.take(i + 1).last() == items@[i as int]);
        match &items[i].barcode {
            Some(b) => {
                match five_digit_value(b.as_str()) {
                    Some(v) => {
                        best = match best {
                            Some(m) => Some(
                                if v > m {
                                    v
                                } else {
                                    m
                                },
                            ),
                            None => Some(v),
                        };
                    },
                    None => {},
                }
            },
            None => {},
        }
        i = i + 1;
    }
    assert(items@.take(items@.len() as int) =~= items@);
    best
}

/// A free five-digit barcode: counting up from one past the largest one in
/// use (10000 when there is none) and wrapping from 99999 to 10000, the
/// first number that no item carries. Refused with `NoFreeBarcode` when all
/// 90000 numbers are in use.
pub fn next_barcode(db: &Stock) -> (r: Result<String, StockError>)
    ensures
        match r {
            Ok(code) => exists|t: int|
                first_free_at(db.items@, t) && code@ == code_text(
                    cycle_code(barcode_start(db.items@), t),
                ),
            Err(e) => e == StockError::NoFreeBarcode && forall|u: int|
                0 <= u < 90000 ==> barcode_used(
                    db.items@,
                    #[trigger] code_text(cycle_code(barcode_start(db.items@), u)),
                ),
        },
{
    let start: i64 = match largest_code(&db.items) {
        Some(m) => if m + 1 < 10000 {
            10000
        } else {
            m + 1
        },
        None => 10000,
    };
    let ghost s = barcode_start(db.items@);
    assert(start == s);
    let mut candidate: i64 = start;
    let mut t: i64 = 0;
    while t < 90000
        invariant
            start == s,
            s == barcode_start(db.items@),
            10000 <= start <= 100000,
            0 <= t <= 90000,
            10000 <= candidate <= 100000,
            (if candidate == 100000 {
                10000
            } else {
                candidate as int
            }) == cycle_code(s, t as int),
            forall|u: int|
                0 <= u < t ==> barcode_used(db.items@, #[trigger] code_text(cycle_code(s, u))),
        decreases 90000 - t,
    {
        if candidate > 99999 {
            candidate = 10000;
        }
        let code = code_string(candidate);
        if !barcode_in_stock(&db.items, code.as_str()) {
            assert(first_free_at(db.items@, t as int));
            return Ok(code);
        }
        proof {
            let x = s - 10000 + t;
            assert(x >= 0);
            assert((x + 1) % 90000 == if x % 90000 == 89999 {
                0
            } else {
                x % 90000 + 1
            });
        }
        candidate = candidate + 1;
        t = t + 1;
    }
    Err(StockError::NoFreeBarcode)
}

} // verus!
