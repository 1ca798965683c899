//! What the buttons of the screens do: switching and remembering the theme,
//! quick-adding people, categories and places, looking an item up by
//! scanned barcode, recording a movement from the check-in/check-out form,
//! and saving the item form.

use vstd::prelude::*;
use crate::models::{Item, TxType};
use crate::queries::{
    add_category, add_item, add_location, add_named_result, add_item_outcome, added_named,
    barcode_used, barcode_start, check_in, check_out, code_text, cycle_code, find_by_barcode,
    first_free_at, get_setting, has_barcode, moved, movement_error, next_barcode, set_setting,
    setting_value, setting_written, update_item, update_item_outcome, add_user, ItemInput,
};
use crate::state::{form_error, form_input, CheckInOutForm, FormError, ItemForm, QuickAdd};
use crate::store::{
    NamedRow, Stock, StockError, only_categories_changed, only_locations_changed,
    only_settings_changed, only_users_changed, unchanged,
};
use crate::text::{blank, is_blank, trim_text, trimmed};
use crate::theme::{other_theme, theme_of_text, theme_text, Theme};

verus! {

// ───────────────────────────────── the theme ─────────────────────────────────

/// The theme a stored setting value stands for; the light theme when none
/// is stored.
pub open spec fn theme_setting(stored: Option<Seq<char>>) -> Theme {
    match stored {
        Some(s) => theme_of_text(s),
        None => Theme::Light,
    }
}

/// The theme saved in the book under the key `theme` (light when none is).
pub fn saved_theme(db: &Stock) -> (r: Theme)
    requires
        db.wf(),
    ensures
        r == theme_setting(setting_value(db.settings@, "theme"@)),
{
    match get_setting(db, "theme") {
        Some(s) => Theme::from_str(s.as_str()),
        None => Theme::Light,
    }
}

/// Switches from `current` to the other theme and saves the choice under
/// the key `theme`.
pub fn switch_theme(db: &mut Stock, current: Theme) -> (r: Theme)
    requires
        old(db).wf(),
    ensures
        final(db).wf(),
        r == other_theme(current),
        only_settings_changed(*old(db), *final(db)),
        setting_written(old(db).settings@, final(db).settings@, "theme"@, theme_text(r)),
{
    let next = current.toggled();
    set_setting(db, "theme", next.as_str());
    next
}

// ──────────────────────────────── quick adding ────────────────────────────────

/// What submitting the quick-add text `text` did to a table of named rows
/// (`rows` with counter `last` before, `new_rows` and `new_last` after), to
/// the text (`new_text` after) and what it answered: blank text is
/// ignored; otherwise the trimmed name is added, and the text is cleared
/// once it was.
pub open spec fn named_submit<T: NamedRow>(
    rows: Seq<T>,
    last: i64,
    new_rows: Seq<T>,
    new_last: i64,
    text: Seq<char>,
    new_text: Seq<char>,
    r: Option<Result<i64, StockError>>,
) -> bool {
    if is_blank(text) {
        r is None && new_rows == rows && new_last == last && new_text == text
    } else {
        &&& r == Some(add_named_result(rows, last, trimmed(text)))
        &&& match r {
            Some(Ok(id)) => added_named(rows, new_rows, id, trimmed(text)) && new_last == id
                && new_text.len() == 0,
            _ => new_rows == rows && new_last == last && new_text == text,
        }
    }
}

impl QuickAdd {
    /// Adds the user typed in the quick-add field, if any.
    pub fn submit_user(&mut self, db: &mut Stock) -> (r: Option<Result<i64, StockError>>)
        requires
            old(db).wf(),
        ensures
            final(db).wf(),
            only_users_changed(*old(db), *final(db)),
            named_submit(
                old(db).users@,
                old(db).last_user_id,
                final(db).users@,
                final(db).last_user_id,
                old(self).new_user@,
                final(self).new_user@,
                r,
            ),
            final(self).new_category == old(self).new_category,
            final(self).new_location == old(self).new_location,
    {
        if blank(self.new_user.as_str()) {
            return None;
        }
        let name = trim_text(self.new_user.as_str());
        let r = add_user(db, name.as_str());
        if r.is_ok() {
            self.new_user = String::new();
        }
        Some(r)
    }

    /// Adds the category typed in the quick-add field, if any.
    pub fn submit_category(&mut self, db: &mut Stock) -> (r: Option<Result<i64, StockError>>)
        requires
            old(db).wf(),
        ensures
            final(db).wf(),
            only_categories_changed(*old(db), *final(db)),
            named_submit(
                old(db).categories@,
                old(db).last_category_id,
                final(db).categories@,
                final(db).last_category_id,
                old(self).new_category@,
                final(self).new_category@,
                r,
            ),
            final(self).new_user == old(self).new_user,
            final(self).new_location == old(self).new_location,
    {
        if blank(self.new_category.as_str()) {
            return None;
        }
        let name = trim_text(self.new_category.as_str());
        let r = add_category(db, name.as_str());
        if r.is_ok() {
            self.new_category = String::new();
        }
        Some(r)
    }

    /// Adds the place typed in the quick-add field, if any.
    pub fn submit_location(&mut self, db: &mut Stock) -> (r: Option<Result<i64, StockError>>)
        requires
            old(db).wf(),
        ensures
            final(db).wf(),
            only_locations_changed(*old(db), *final(db)),
            named_submit(
                old(db).locations@,
                old(db).last_location_id,
                final(db).locations@,
                final(db).last_location_id,
                old(self).new_location@,
                final(self).new_location@,
                r,
            ),
            final(self).new_user == old(self).new_user,
            final(self).new_category == old(self).new_category,
    {
        if blank(self.new_location.as_str()) {
            return None;
        }
        let name = trim_text(self.new_location.as_str());
        let r = add_location(db, name.as_str());
        if r.is_ok() {
            self.new_location = String::new();
        }
        Some(r)
    }
}

// ─────────────────────────────── check-in / check-out ───────────────────────────────

/// What looking up a scanned barcode found.
pub enum Lookup {
    /// Nothing was typed.
    Blank,
    /// The item that carries the barcode; it is now selected.
    Found(Item),
    /// No item carries the (trimmed) barcode.
    NotFound(String),
}

/// Why the check-in/check-out form did not record a movement.
pub enum SubmitError {
    /// No item is selected.
    NoItemSelected,
    /// The stock book refused the movement.
    Refused(StockError),
}

impl CheckInOutForm {
    /// Looks up the typed barcode (trimmed); when an item carries it, that
    /// item is selected and the field cleared.
    pub fn lookup_barcode(&mut self, db: &Stock) -> (r: Lookup)
        ensures
            final(self).qty == old(self).qty,
            final(self).note == old(self).note,
            is_blank(old(self).barcode_input@) ==> r is Blank && final(self).barcode_input
                == old(self).barcode_input && final(self).selected_item == old(self).selected_item,
            !is_blank(old(self).barcode_input@) ==> match r {
                Lookup::Blank => false,
                Lookup::NotFound(code) => {
                    &&& code@ == trimmed(old(self).barcode_input@)
                    &&& !barcode_used(db.items@, code@)
                    &&& final(self).barcode_input == old(self).barcode_input
                    &&& final(self).selected_item == old(self).selected_item
                },
                Lookup::Found(it) => {
                    &&& exists|k: int|
                        0 <= k < db.items@.len() && it == db.items@[k] && has_barcode(
                            #[trigger] db.items@[k],
                            trimmed(old(self).barcode_input@),
                        ) && forall|j: int|
                            0 <= j < k ==> !has_barcode(
                                #[trigger] db.items@[j],
                                trimmed(old(self).barcode_input@),
                            )
                    &&& final(self).selected_item == Some(it.id)
                    &&& final(self).barcode_input@.len() == 0
                },
            },
    {
        if blank(self.barcode_input.as_str()) {
            return Lookup::Blank;
        }
        let code = trim_text(self.barcode_input.as_str());
        match find_by_barcode(db, code.as_str()) {
            Some(it) => {
                self.selected_item = Some(it.id);
                self.barcode_input = String::new();
                Lookup::Found(it)
            },
            None => Lookup::NotFound(code),
        }
    }

    /// Records a movement of the selected item in direction `kind` by
    /// `user_id`, with the form's quantity and trimmed note; once recorded,
    /// the note is cleared and the quantity set back to 1.
    pub fn submit(&mut self, db: &mut Stock, kind: TxType, user_id: Option<i64>) -> (r: Result<
        (),
        SubmitError,
    >)
        requires
            old(db).wf(),
        ensures
            final(db).wf(),
            final(self).barcode_input == old(self).barcode_input,
            final(self).selected_item == old(self).selected_item,
            match old(self).selected_item {
                None => {
                    &&& r == Err::<(), SubmitError>(SubmitError::NoItemSelected)
                    &&& unchanged(*old(db), *final(db))
                    &&& final(self).qty == old(self).qty
                    &&& final(self).note == old(self).note
                },
                Some(id) => match movement_error(*old(db), id, user_id, kind, old(self).qty) {
                    Some(e) => {
                        &&& r == Err::<(), SubmitError>(SubmitError::Refused(e))
                        &&& unchanged(*old(db), *final(db))
                        &&& final(self).qty == old(self).qty
                        &&& final(self).note == old(self).note
                    },
                    None => {
                        &&& r is Ok
                        &&& moved(
                            *old(db),
                            *final(db),
                            id,
                            user_id,
                            kind,
                            old(self).qty,
                            trimmed(old(self).note@),
                            final(db).movements@.last().timestamp@,
                        )
                        &&& final(self).qty == 1
                        &&& final(self).note@.len() == 0
                    },
                },
            },
    {
        let id = match self.selected_item {
            Some(id) => id,
            None => {
                return Err(SubmitError::NoItemSelected);
            },
        };
        let note = trim_text(self.note.as_str());
        let res = match kind {
            TxType::In => check_in(db, id, user_id, self.qty, note.as_str()),
            TxType::Out => check_out(db, id, user_id, self.qty, note.as_str()),
        };
        match res {
            Ok(()) => {
                self.note = String::new();
                self.qty = 1;
                Ok(())
            },
            Err(e) => Err(SubmitError::Refused(e)),
        }
    }
}

// ───────────────────────────────── the item form ─────────────────────────────────

/// The barcode offered for a new item: the first free five-digit number
/// the search reaches, or nothing when all are in use.
pub open spec fn offered_barcode(items: Seq<Item>, code: Seq<char>) -> bool {
    ||| exists|t: int|
        #[trigger] first_free_at(items, t) && code == code_text(cycle_code(barcode_start(items), t))
    ||| code.len() == 0 && forall|u: int|
        0 <= u < 90000 ==> barcode_used(
            items,
            #[trigger] code_text(cycle_code(barcode_start(items), u)),
        )
}

/// The result of saving the item form.
pub enum Saved {
    /// A new item was added under this id.
    Added(i64),
    /// The edited item was changed.
    Updated,
}

/// Why the item form was not saved.
pub enum SaveError {
    /// The form itself is not valid.
    Form(FormError),
    /// The stock book refused the request.
    Refused(StockError),
}

/// What saving `input` did to the book: adding it when `editing` is
/// `None`, changing item `id` when it is `Some(id)`, each as the stock
/// book's own request describes, with the answer carried over.
pub open spec fn saved_as(
    old: Stock,
    new: Stock,
    editing: Option<i64>,
    input: ItemInput,
    r: Result<Saved, SaveError>,
) -> bool {
    match editing {
        None => exists|ar: Result<i64, StockError>, now: Seq<char>|
            #[trigger] add_item_outcome(old, new, input, now, ar) && r == match ar {
                Ok(id) => Ok::<Saved, SaveError>(Saved::Added(id)),
                Err(e) => Err::<Saved, SaveError>(SaveError::Refused(e)),
            },
        Some(id) => exists|ur: Result<(), StockError>, now: Seq<char>|
            #[trigger] update_item_outcome(old, new, id, input, now, ur) && r == match ur {
                Ok(_) => Ok::<Saved, SaveError>(Saved::Updated),
                Err(e) => Err::<Saved, SaveError>(SaveError::Refused(e)),
            },
    }
}

/// `b` is form `a` with only its `open` flag possibly changed.
pub open spec fn same_fields(a: ItemForm, b: ItemForm) -> bool {
    &&& b.editing_id == a.editing_id
    &&& b.name == a.name
    &&& b.category_id == a.category_id
    &&& b.location_id == a.location_id
    &&& b.unit == a.unit
    &&& b.quantity == a.quantity
    &&& b.min_quantity == a.min_quantity
    &&& b.barcode == a.barcode
    &&& b.expiry_date == a.expiry_date
}

impl ItemForm {
    /// The form for adding a new item, with a free five-digit barcode filled
    /// in (left empty when every number is in use).
    pub fn for_new_in(db: &Stock) -> (r: Self)
        ensures
            r.open,
            r.editing_id is None,
            r.name@.len() == 0,
            r.category_id is None,
            r.location_id is None,
            r.unit@ == "ชิ้น"@,
            r.quantity == 0,
            r.min_quantity == 0,
            r.expiry_date@.len() == 0,
            offered_barcode(db.items@, r.barcode@),
    {
        let mut form = ItemForm::for_new();
        match next_barcode(db) {
            Ok(code) => {
                form.barcode = code;
            },
            Err(_) => {},
        }
        form
    }

    /// Checks the form and saves it: a new item when adding, the edited
    /// item otherwise. The form closes once saved.
    pub fn save(&mut self, db: &mut Stock) -> (r: Result<Saved, SaveError>)
        requires
            old(db).wf(),
        ensures
            final(db).wf(),
            same_fields(*old(self), *final(self)),
            final(self).open == (old(self).open && r is Err),
            match form_error(*old(self)) {
                Some(e) => r == Err::<Saved, SaveError>(SaveError::Form(e)) && unchanged(
                    *old(db),
                    *final(db),
                ),
                None => exists|input: ItemInput|
                    #[trigger] form_input(*old(self), input) && saved_as(
                        *old(db),
                        *final(db),
                        old(self).editing_id,
                        input,
                        r,
                    ),
            },
    {
        let input = match self.to_input() {
            Ok(input) => input,
            Err(e) => {
                return Err(SaveError::Form(e));
            },
        };
        let r = match self.editing_id {
            None => match add_item(db, &input) {
                Ok(id) => Ok(Saved::Added(id)),
                Err(e) => Err(SaveError::Refused(e)),
            },
            Some(id) => match update_item(db, id, &input) {
                Ok(()) => Ok(Saved::Updated),
                Err(e) => Err(SaveError::Refused(e)),
            },
        };
        if r.is_ok() {
            self.open = false;
        }
        r
    }
}

} // verus!
