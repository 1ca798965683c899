//! The stock book: every table of the storeroom as plain rows, with the
//! invariant that keeps them consistent (ascending ids, unique names and
//! setting keys, and references that point at existing rows).

use vstd::prelude::*;
use crate::models::{Category, Item, Location, Movement, Setting, User};
use crate::text::same_text;

verus! {

/// Why a request on the stock book was refused.
#[derive(Clone, Debug)]
pub enum StockError {
    /// The item has no name (only whitespace).
    NameRequired,
    /// The barcode is already used by another item.
    BarcodeTaken,
    /// The quantity of a check-in or check-out is zero or negative.
    NonPositiveQuantity,
    /// A check-out asks for more than is left; the amount left is given.
    InsufficientStock(i64),
    /// No item has the given id.
    ItemNotFound,
    /// A referenced category, location, item or user does not exist.
    MissingReference,
    /// A user, category or location of that name already exists.
    DuplicateName,
    /// A table has used up every id.
    IdsExhausted,
    /// Every five-digit barcode is in use.
    NoFreeBarcode,
    /// The new quantity would not fit in 64 bits.
    QuantityOverflow,
    /// The date asked for lies outside the calendar's range.
    DateOutOfRange,
}

/// Rows that are identified by an id and carry a name: users, categories
/// and locations.
pub trait NamedRow: Sized {
    spec fn row_id(&self) -> i64;

    spec fn row_name(&self) -> Seq<char>;

    fn get_id(&self) -> (r: i64)
        ensures
            r == self.row_id(),
    ;

    fn get_name(&self) -> (r: &String)
        ensures
            r@ == self.row_name(),
    ;

    fn make(id: i64, name: String) -> (r: Self)
        ensures
            r.row_id() == id,
            r.row_name() == name@,
    ;

    fn copy_row(&self) -> (r: Self)
        ensures
            r == *self,
    ;
}

impl NamedRow for User {
    open spec fn row_id(&self) -> i64 {
        self.id
    }

    open spec fn row_name(&self) -> Seq<char> {
        self.name@
    }

    fn get_id(&self) -> (r: i64) {
        self.id
    }

    fn get_name(&self) -> (r: &String) {
        &self.name
    }

    fn make(id: i64, name: String) -> (r: Self) {
        User { id, name }
    }

    fn copy_row(&self) -> (r: Self) {
        self.copy()
    }
}

impl NamedRow for Category {
    open spec fn row_id(&self) -> i64 {
        self.id
    }

    open spec fn row_name(&self) -> Seq<char> {
        self.name@
    }

    fn get_id(&self) -> (r: i64) {
        self.id
    }

    fn get_name(&self) -> (r: &String) {
        &self.name
    }

    fn make(id: i64, name: String) -> (r: Self) {
        Category { id, name }
    }

    fn copy_row(&self) -> (r: Self) {
        self.copy()
    }
}

impl NamedRow for Location {
    open spec fn row_id(&self) -> i64 {
        self.id
    }

    open spec fn row_name(&self) -> Seq<char> {
        self.name@
    }

    fn get_id(&self) -> (r: i64) {
        self.id
    }

    fn get_name(&self) -> (r: &String) {
        &self.name
    }

    fn make(id: i64, name: String) -> (r: Self) {
        Location { id, name }
    }

    fn copy_row(&self) -> (r: Self) {
        self.copy()
    }
}

/// A table of named rows is consistent: ids ascend, lie in `1..=last`, and
/// no two rows share a name.
pub open spec fn named_ok<T: NamedRow>(rows: Seq<T>, last: i64) -> bool {
    &&& forall|i: int, j: int|
        0 <= i < j < rows.len() ==> #[trigger] rows[i].row_id() < #[trigger] rows[j].row_id()
    &&& forall|i: int| 0 <= i < rows.len() ==> 1 <= #[trigger] rows[i].row_id() <= last
    &&& forall|i: int, j: int|
        0 <= i < j < rows.len() ==> #[trigger] rows[i].row_name() != #[trigger] rows[j].row_name()
}

/// Some row of the table has the id.
pub open spec fn has_id<T: NamedRow>(rows: Seq<T>, id: i64) -> bool {
    exists|k: int| 0 <= k < rows.len() && #[trigger] rows[k].row_id() == id
}

/// Some row of the table has the name.
pub open spec fn has_name<T: NamedRow>(rows: Seq<T>, name: Seq<char>) -> bool {
    exists|k: int| 0 <= k < rows.len() && #[trigger] rows[k].row_name() == name
}

/// Some item has the id.
pub open spec fn has_item(items: Seq<Item>, id: i64) -> bool {
    exists|k: int| 0 <= k < items.len() && #[trigger] items[k].id == id
}

/// An optional reference is empty or names an existing row.
pub open spec fn ref_ok<T: NamedRow>(rows: Seq<T>, id: Option<i64>) -> bool {
    match id {
        Some(i) => has_id(rows, i),
        None => true,
    }
}

/// The whole stock book. The tables keep their rows in ascending id order;
/// `last_*` is the largest id each table has ever given out, so that ids of
/// deleted rows are never handed out again.
pub struct Stock {
    pub users: Vec<User>,
    pub categories: Vec<Category>,
    pub locations: Vec<Location>,
    pub items: Vec<Item>,
    pub movements: Vec<Movement>,
    pub settings: Vec<Setting>,
    pub last_user_id: i64,
    pub last_category_id: i64,
    pub last_location_id: i64,
    pub last_item_id: i64,
    pub last_movement_id: i64,
}

impl Stock {
    pub open spec fn items_ok(&self) -> bool {
        let items = self.items@;
        &&& forall|i: int, j: int| 0 <= i < j < items.len() ==> #[trigger] items[i].id < #[trigger] items[j].id
        &&& forall|i: int| 0 <= i < items.len() ==> 1 <= #[trigger] items[i].id <= self.last_item_id
        &&& forall|i: int|
            0 <= i < items.len() ==> ref_ok(self.categories@, #[trigger] items[i].category_id)
        &&& forall|i: int|
            0 <= i < items.len() ==> ref_ok(self.locations@, #[trigger] items[i].location_id)
    }

    pub open spec fn movements_ok(&self) -> bool {
        let ms = self.movements@;
        &&& forall|i: int, j: int| 0 <= i < j < ms.len() ==> #[trigger] ms[i].id < #[trigger] ms[j].id
        &&& forall|i: int| 0 <= i < ms.len() ==> 1 <= #[trigger] ms[i].id <= self.last_movement_id
        &&& forall|i: int| 0 <= i < ms.len() ==> has_item(self.items@, #[trigger] ms[i].item_id)
        &&& forall|i: int| 0 <= i < ms.len() ==> ref_ok(self.users@, #[trigger] ms[i].user_id)
    }

    pub open spec fn settings_ok(&self) -> bool {
        forall|i: int, j: int|
            0 <= i < j < self.settings@.len() ==> #[trigger] self.settings@[i].key@
                != #[trigger] self.settings@[j].key@
    }

    /// The stock book is consistent.
    pub open spec fn wf(&self) -> bool {
        &&& self.last_user_id >= 0
        &&& self.last_category_id >= 0
        &&& self.last_location_id >= 0
        &&& self.last_item_id >= 0
        &&& self.last_movement_id >= 0
        &&& named_ok(self.users@, self.last_user_id)
        &&& named_ok(self.categories@, self.last_category_id)
        &&& named_ok(self.locations@, self.last_location_id)
        &&& self.items_ok()
        &&& self.movements_ok()
        &&& self.settings_ok()
    }

    /// An empty stock book.
    pub fn new() -> (r: Stock)
        ensures
            r.wf(),
            r.users@.len() == 0,
            r.categories@.len() == 0,
            r.locations@.len() == 0,
            r.items@.len() == 0,
            r.movements@.len() == 0,
            r.settings@.len() == 0,
            r.last_user_id == 0,
            r.last_category_id == 0,
            r.last_location_id == 0,
            r.last_item_id == 0,
            r.last_movement_id == 0,
    {
        Stock {
            users: Vec::new(),
            categories: Vec::new(),
            locations: Vec::new(),
            items: Vec::new(),
            movements: Vec::new(),
            settings: Vec::new(),
            last_user_id: 0,
            last_category_id: 0,
            last_location_id: 0,
            last_item_id: 0,
            last_movement_id: 0,
        }
    }
}

/// Position of the row with the id, if any.
pub fn find_named<T: NamedRow>(rows: &Vec<T>, id: i64) -> (r: Option<usize>)
    ensures
        match r {
            Some(k) => k < rows@.len() && rows@[k as int].row_id() == id,
            None => !has_id(rows@, id),
        },
{
    let mut k: usize = 0;
    while k < rows.len()
        invariant
            k <= rows@.len(),
            forall|j: int| 0 <= j < k ==> #[trigger] rows@[j].row_id() != id,
        decreases rows@.len() - k,
    {
        if rows[k].get_id() == id {
            return Some(k);
        }
        k = k + 1;
    }
    None
}

/// Whether some row of the table has the name.
pub fn name_used<T: NamedRow>(rows: &Vec<T>, name: &str) -> (r: bool)
    ensures
        r == has_name(rows@, name@),
{
    let mut k: usize = 0;
    while k < rows.len()
        invariant
            k <= rows@.len(),
            forall|j: int| 0 <= j < k ==> #[trigger] rows@[j].row_name() != name@,
        decreases rows@.len() - k,
    {
        if same_text(rows[k].get_name().as_str(), name) {
            return true;
        }
        k = k + 1;
    }
    false
}

/// Position of the item with the id, if any.
pub fn find_item(items: &Vec<Item>, id: i64) -> (r: Option<usize>)
    ensures
        match r {
            Some(k) => k < items@.len() && items@[k as int].id == id,
            None => !has_item(items@, id),
        },
{
    let mut k: usize = 0;
    while k < items.len()
        invariant
            k <= items@.len(),
            forall|j: int| 0 <= j < k ==> #[trigger] items@[j].id != id,
        decreases items@.len() - k,
    {
        if items[k].id == id {
            return Some(k);
        }
        k = k + 1;
    }
    None
}

/// Whether an optional reference is empty or names an existing row.
pub fn check_ref<T: NamedRow>(rows: &Vec<T>, id: Option<i64>) -> (r: bool)
    ensures
        r == ref_ok(rows@, id),
{
    match id {
        Some(i) => find_named(rows, i).is_some(),
        None => true,
    }
}

} // verus!

verus! {

/// `new` holds the rows of `old` followed by one more row.
pub open spec fn appended<T>(old: Seq<T>, new: Seq<T>) -> bool {
    new.len() == old.len() + 1 && new.take(old.len() as int) == old
}

/// Only the user table (and its id counter) may differ.
pub open spec fn only_users_changed(a: Stock, b: Stock) -> bool {
    &&& a.categories@ == b.categories@
    &&& a.locations@ == b.locations@
    &&& a.items@ == b.items@
    &&& a.movements@ == b.movements@
    &&& a.settings@ == b.settings@
    &&& a.last_category_id == b.last_category_id
    &&& a.last_location_id == b.last_location_id
    &&& a.last_item_id == b.last_item_id
    &&& a.last_movement_id == b.last_movement_id
}

/// Only the category table (and its id counter) may differ.
pub open spec fn only_categories_changed(a: Stock, b: Stock) -> bool {
    &&& a.users@ == b.users@
    &&& a.locations@ == b.locations@
    &&& a.items@ == b.items@
    &&& a.movements@ == b.movements@
    &&& a.settings@ == b.settings@
    &&& a.last_user_id == b.last_user_id
    &&& a.last_location_id == b.last_location_id
    &&& a.last_item_id == b.last_item_id
    &&& a.last_movement_id == b.last_movement_id
}

/// Only the location table (and its id counter) may differ.
pub open spec fn only_locations_changed(a: Stock, b: Stock) -> bool {
    &&& a.users@ == b.users@
    &&& a.categories@ == b.categories@
    &&& a.items@ == b.items@
    &&& a.movements@ == b.movements@
    &&& a.settings@ == b.settings@
    &&& a.last_user_id == b.last_user_id
    &&& a.last_category_id == b.last_category_id
    &&& a.last_item_id == b.last_item_id
    &&& a.last_movement_id == b.last_movement_id
}

/// Only the settings may differ.
pub open spec fn only_settings_changed(a: Stock, b: Stock) -> bool {
    &&& a.users@ == b.users@
    &&& a.categories@ == b.categories@
    &&& a.locations@ == b.locations@
    &&& a.items@ == b.items@
    &&& a.movements@ == b.movements@
    &&& a.last_user_id == b.last_user_id
    &&& a.last_category_id == b.last_category_id
    &&& a.last_location_id == b.last_location_id
    &&& a.last_item_id == b.last_item_id
    &&& a.last_movement_id == b.last_movement_id
}

/// Only the items, the movements and their id counters may differ.
pub open spec fn only_stock_changed(a: Stock, b: Stock) -> bool {
    &&& a.users@ == b.users@
    &&& a.categories@ == b.categories@
    &&& a.locations@ == b.locations@
    &&& a.settings@ == b.settings@
    &&& a.last_user_id == b.last_user_id
    &&& a.last_category_id == b.last_category_id
    &&& a.last_location_id == b.last_location_id
}

/// Nothing differs.
pub open spec fn unchanged(a: Stock, b: Stock) -> bool {
    &&& only_stock_changed(a, b)
    &&& a.items@ == b.items@
    &&& a.movements@ == b.movements@
    &&& a.last_item_id == b.last_item_id
    &&& a.last_movement_id == b.last_movement_id
}

pub proof fn lemma_has_id_grows<T: NamedRow>(old: Seq<T>, new: Seq<T>, id: i64)
    requires
        appended(old, new),
        has_id(old, id),
    ensures
        has_id(new, id),
{
    let k = choose|k: int| 0 <= k < old.len() && #[trigger] old[k].row_id() == id;
    assert(new[k] == new.take(old.len() as int)[k]);
}

pub proof fn lemma_ref_ok_grows<T: NamedRow>(old: Seq<T>, new: Seq<T>, id: Option<i64>)
    requires
        appended(old, new),
        ref_ok(old, id),
    ensures
        ref_ok(new, id),
{
    if let Some(i) = id {
        lemma_has_id_grows(old, new, i);
    }
}

} // verus!

verus! {

/// Whether the rows' ids ascend and lie in `1..=last`.
fn ids_ascend<T: NamedRow>(rows: &Vec<T>, last: i64) -> (r: bool)
    ensures
        r == ((forall|i: int, j: int|
            0 <= i < j < rows@.len() ==> #[trigger] rows@[i].row_id() < #[trigger] rows@[j].row_id())
            && (forall|i: int| 0 <= i < rows@.len() ==> 1 <= #[trigger] rows@[i].row_id() <= last)),
{
    let mut k: usize = 0;
    while k < rows.len()
        invariant
            k <= rows@.len(),
            forall|i: int, j: int| 0 <= i < j < k ==> #[trigger] rows@[i].row_id() < #[trigger] rows@[j].row_id(),
            forall|i: int| 0 <= i < k ==> 1 <= #[trigger] rows@[i].row_id() <= last,
        decreases rows@.len() - k,
    {
        let id = rows[k].get_id();
        if id < 1 || id > last {
            return false;
        }
        if k > 0 && rows[k - 1].get_id() >= id {
            assert(!(rows@[k - 1].row_id() < rows@[k as int].row_id()));
            return false;
        }
        proof {
            assert forall|i: int, j: int| 0 <= i < j < k + 1 implies #[trigger] rows@[i].row_id()
                < #[trigger] rows@[j].row_id() by {
                if j == k && i < k - 1 {
                    assert(rows@[i].row_id() < rows@[k - 1].row_id());
                }
            }
        }
        k = k + 1;
    }
    true
}

/// Whether no two rows share a name.
fn names_distinct<T: NamedRow>(rows: &Vec<T>) -> (r: bool)
    ensures
        r == (forall|i: int, j: int|
            0 <= i < j < rows@.len() ==> #[trigger] rows@[i].row_name() != #[trigger] rows@[j].row_name()),
{
    let mut i: usize = 0;
    while i < rows.len()
        invariant
            i <= rows@.len(),
            forall|a: int, b: int|
                0 <= a < i && a < b < rows@.len() ==> #[trigger] rows@[a].row_name()
                    != #[trigger] rows@[b].row_name(),
        decreases rows@.len() - i,
    {
        let mut j: usize = i + 1;
        while j < rows.len()
            invariant
                i < rows@.len(),
                i + 1 <= j <= rows@.len(),
                forall|a: int, b: int|
                    0 <= a < i && a < b < rows@.len() ==> #[trigger] rows@[a].row_name()
                        != #[trigger] rows@[b].row_name(),
                forall|b: int| i < b < j ==> rows@[i as int].row_name() != #[trigger] rows@[b].row_name(),
            decreases rows@.len() - j,
        {
            if same_text(rows[i].get_name().as_str(), rows[j].get_name().as_str()) {
                return false;
            }
            j = j + 1;
        }
        i = i + 1;
    }
    true
}

/// Whether the table of named rows is consistent.
pub fn named_table_ok<T: NamedRow>(rows: &Vec<T>, last: i64) -> (r: bool)
    ensures
        r == named_ok(rows@, last),
{
    ids_ascend(rows, last) && names_distinct(rows)
}

/// Whether the items are consistent with the rest of the book.
fn items_consistent(db: &Stock) -> (r: bool)
    ensures
        r == db.items_ok(),
{
    let items = &db.items;
    let mut k: usize = 0;
    while k < items.len()
        invariant
            items == &db.items,
            k <= items@.len(),
            forall|i: int, j: int| 0 <= i < j < k ==> #[trigger] items@[i].id < #[trigger] items@[j].id,
            forall|i: int| 0 <= i < k ==> 1 <= #[trigger] items@[i].id <= db.last_item_id,
            forall|i: int| 0 <= i < k ==> ref_ok(db.categories@, #[trigger] items@[i].category_id),
            forall|i: int| 0 <= i < k ==> ref_ok(db.locations@, #[trigger] items@[i].location_id),
        decreases items@.len() - k,
    {
        let it = &items[k];
        if it.id < 1 || it.id > db.last_item_id {
            return false;
        }
        if k > 0 && items[k - 1].id >= it.id {
            assert(!(items@[k - 1].id < items@[k as int].id));
            return false;
        }
        if !check_ref(&db.categories, it.category_id) || !check_ref(&db.locations, it.location_id) {
            return false;
        }
        proof {
            assert forall|i: int, j: int| 0 <= i < j < k + 1 implies #[trigger] items@[i].id
                < #[trigger] items@[j].id by {
                if j == k && i < k - 1 {
                    assert(items@[i].id < items@[k - 1].id);
                }
            }
        }
        k = k + 1;
    }
    true
}

/// Whether the movements are consistent with the rest of the book.
fn movements_consistent(db: &Stock) -> (r: bool)
    ensures
        r == db.movements_ok(),
{
    let ms = &db.movements;
    let mut k: usize = 0;
    while k < ms.len()
        invariant
            ms == &db.movements,
            k <= ms@.len(),
            forall|i: int, j: int| 0 <= i < j < k ==> #[trigger] ms@[i].id < #[trigger] ms@[j].id,
            forall|i: int| 0 <= i < k ==> 1 <= #[trigger] ms@[i].id <= db.last_movement_id,
            forall|i: int| 0 <= i < k ==> has_item(db.items@, #[trigger] ms@[i].item_id),
            forall|i: int| 0 <= i < k ==> ref_ok(db.users@, #[trigger] ms@[i].user_id),
        decreases ms@.len() - k,
    {
        let m = &ms[k];
        if m.id < 1 || m.id > db.last_movement_id {
            return false;
        }
        if k > 0 && ms[k - 1].id >= m.id {
            assert(!(ms@[k - 1].id < ms@[k as int].id));
            return false;
        }
        if find_item(&db.items, m.item_id).is_none() || !check_ref(&db.users, m.user_id) {
            return false;
        }
        proof {
            assert forall|i: int, j: int| 0 <= i < j < k + 1 implies #[trigger] ms@[i].id
                < #[trigger] ms@[j].id by {
                if j == k && i < k - 1 {
                    assert(ms@[i].id < ms@[k - 1].id);
                }
            }
        }
        k = k + 1;
    }
    true
}

/// Whether no two settings share a key.
fn settings_consistent(db: &Stock) -> (r: bool)
    ensures
        r == db.settings_ok(),
{
    let rows = &db.settings;
    let mut i: usize = 0;
    while i < rows.len()
        invariant
            rows == &db.settings,
            i <= rows@.len(),
            forall|a: int, b: int|
                0 <= a < i && a < b < rows@.len() ==> #[trigger] rows@[a].key@ != #[trigger] rows@[b].key@,
        decreases rows@.len() - i,
    {
        let mut j: usize = i + 1;
        while j < rows.len()
            invariant
                rows == &db.settings,
                i < rows@.len(),
                i + 1 <= j <= rows@.len(),
                forall|a: int, b: int|
                    0 <= a < i && a < b < rows@.len() ==> #[trigger] rows@[a].key@ != #[trigger] rows@[b].key@,
                forall|b: int| i < b < j ==> rows@[i as int].key@ != #[trigger] rows@[b].key@,
            decreases rows@.len() - j,
        {
            if same_text(rows[i].key.as_str(), rows[j].key.as_str()) {
                return false;
            }
            j = j + 1;
        }
        i = i + 1;
    }
    true
}

impl Stock {
    /// Whether the stock book is consistent; a book read from storage is
    /// used only when it is.
    pub fn is_consistent(&self) -> (r: bool)
        ensures
            r == self.wf(),
    {
        self.last_user_id >= 0 && self.last_category_id >= 0 && self.last_location_id >= 0
            && self.last_item_id >= 0 && self.last_movement_id >= 0 && named_table_ok(
            &self.users,
            self.last_user_id,
        ) && named_table_ok(&self.categories, self.last_category_id) && named_table_ok(
            &self.locations,
            self.last_location_id,
        ) && items_consistent(self) && movements_consistent(self) && settings_consistent(self)
    }
}

} // verus!
