//! State of the screens: the tabs, the status line, and the forms and
//! filters, with the checks that turn the item form into a request.

use vstd::prelude::*;
use crate::models::{opt_view, copy_opt_text, Item};
use crate::queries::ItemInput;
use crate::text::{blank, trim_text, is_blank, trimmed, lemma_trimmed_idempotent};
use crate::clock::{parse_date, parsed_day};

verus! {

/// The main tabs.
#[derive(Clone, Copy, Debug, PartialEq, Eq, Structural)]
pub enum Tab {
    Items,
    CheckInOut,
    History,
    Alerts,
    Reports,
}

impl Default for Tab {
    fn default() -> (r: Self)
        ensures
            r == Tab::Items,
    {
        Tab::Items
    }
}

/// A status message (success in green, error in red).
pub struct Status {
    pub text: String,
    pub error: bool,
}

/// The add/edit item form.
pub struct ItemForm {
    pub open: bool,
    /// `None`: adding a new item; `Some(id)`: editing that item.
    pub editing_id: Option<i64>,
    pub name: String,
    pub category_id: Option<i64>,
    pub location_id: Option<i64>,
    pub unit: String,
    pub quantity: i64,
    pub min_quantity: i64,
    pub barcode: String,
    pub expiry_date: String,
}

/// A closed, empty form.
pub open spec fn is_empty_form(f: ItemForm) -> bool {
    &&& !f.open
    &&& f.editing_id is None
    &&& f.name@.len() == 0
    &&& f.category_id is None
    &&& f.location_id is None
    &&& f.unit@.len() == 0
    &&& f.quantity == 0
    &&& f.min_quantity == 0
    &&& f.barcode@.len() == 0
    &&& f.expiry_date@.len() == 0
}

impl Default for ItemForm {
    fn default() -> (r: Self)
        ensures
            is_empty_form(r),
    {
        ItemForm {
            open: false,
            editing_id: None,
            name: String::new(),
            category_id: None,
            location_id: None,
            unit: String::new(),
            quantity: 0,
            min_quantity: 0,
            barcode: String::new(),
            expiry_date: String::new(),
        }
    }
}

/// Why the item form cannot be saved.
#[derive(Clone, Copy, Debug, PartialEq, Eq, Structural)]
pub enum FormError {
    /// The name is blank.
    NameRequired,
    /// The expiry date is not a `YYYY-MM-DD` date.
    BadExpiryDate,
}

/// Why the form is refused, if it is.
pub open spec fn form_error(f: ItemForm) -> Option<FormError> {
    if is_blank(f.name@) {
        Some(FormError::NameRequired)
    } else if !is_blank(f.expiry_date@) && parsed_day(trimmed(f.expiry_date@)) is None {
        Some(FormError::BadExpiryDate)
    } else {
        None
    }
}

/// A text field read as an optional value: trimmed, nothing when blank.
pub open spec fn optional_field(s: Seq<char>) -> Option<Seq<char>> {
    if is_blank(s) {
        None
    } else {
        Some(trimmed(s))
    }
}

/// The request that a valid form makes.
pub open spec fn form_input(f: ItemForm, input: ItemInput) -> bool {
    &&& input.name@ == trimmed(f.name@)
    &&& input.category_id == f.category_id
    &&& input.location_id == f.location_id
    &&& input.unit@ == if is_blank(f.unit@) {
        "ชิ้น"@
    } else {
        trimmed(f.unit@)
    }
    &&& input.quantity == f.quantity
    &&& input.min_quantity == f.min_quantity
    &&& opt_view(input.barcode) == optional_field(f.barcode@)
    &&& opt_view(input.expiry_date) == optional_field(f.expiry_date@)
}

fn optional_text(s: &String) -> (r: Option<String>)
    ensures
        opt_view(r) == optional_field(s@),
{
    if blank(s.as_str()) {
        None
    } else {
        Some(trim_text(s.as_str()))
    }
}

impl ItemForm {
    /// The form for adding a new item: open, counted in pieces.
    pub fn for_new() -> (r: Self)
        ensures
            r.open,
            r.editing_id is None,
            r.name@.len() == 0,
            r.category_id is None,
            r.location_id is None,
            r.unit@ == "ชิ้น"@,
            r.quantity == 0,
            r.min_quantity == 0,
            r.barcode@.len() == 0,
            r.expiry_date@.len() == 0,
    {
        ItemForm { open: true, unit: String::from_str("ชิ้น"), ..Default::default() }
    }

    /// The form for editing an existing item.
    pub fn for_item(it: &Item) -> (r: Self)
        ensures
            r.open,
            r.editing_id == Some(it.id),
            r.name == it.name,
            r.category_id == it.category_id,
            r.location_id == it.location_id,
            r.unit == it.unit,
            r.quantity == it.quantity,
            r.min_quantity == it.min_quantity,
            r.barcode@ == match it.barcode {
                Some(b) => b@,
                None => Seq::empty(),
            },
            r.expiry_date@ == match it.expiry_date {
                Some(e) => e@,
                None => Seq::empty(),
            },
    {
        ItemForm {
            open: true,
            editing_id: Some(it.id),
            name: it.name.clone(),
            category_id: it.category_id,
            location_id: it.location_id,
            unit: it.unit.clone(),
            quantity: it.quantity,
            min_quantity: it.min_quantity,
            barcode: match &it.barcode {
                Some(b) => b.clone(),
                None => String::new(),
            },
            expiry_date: match &it.expiry_date {
                Some(e) => e.clone(),
                None => String::new(),
            },
        }
    }

    /// Checks the form and turns it into a request: the name and unit
    /// trimmed (an empty unit counts in pieces), blank barcode and expiry
    /// date left out, and the expiry date required to be `YYYY-MM-DD`.
    pub fn to_input(&self) -> (r: Result<ItemInput, FormError>)
        ensures
            match form_error(*self) {
                Some(e) => r == Err::<ItemInput, FormError>(e),
                None => r matches Ok(input) && form_input(*self, input),
            },
    {
        if blank(self.name.as_str()) {
            return Err(FormError::NameRequired);
        }
        let expiry = optional_text(&self.expiry_date);
        match &expiry {
            Some(e) => {
                proof {
                    lemma_trimmed_idempotent(self.expiry_date@);
                }
                if parse_date(e.as_str()).is_none() {
                    return Err(FormError::BadExpiryDate);
                }
            },
            None => {},
        }
        let unit = if blank(self.unit.as_str()) {
            String::from_str("ชิ้น")
        } else {
            trim_text(self.unit.as_str())
        };
        Ok(
            ItemInput {
                name: trim_text(self.name.as_str()),
                category_id: self.category_id,
                location_id: self.location_id,
                unit,
                quantity: self.quantity,
                min_quantity: self.min_quantity,
                barcode: optional_text(&self.barcode),
                expiry_date: expiry,
            },
        )
    }
}

/// The filters of the items tab.
#[derive(Default)]
pub struct ItemFilter {
    pub search: String,
    pub category_id: Option<i64>,
    pub location_id: Option<i64>,
}

/// The check-in/check-out form.
pub struct CheckInOutForm {
    pub barcode_input: String,
    pub selected_item: Option<i64>,
    pub qty: i64,
    pub note: String,
}

impl Default for CheckInOutForm {
    fn default() -> (r: Self)
        ensures
            r.barcode_input@.len() == 0,
            r.selected_item is None,
            r.qty == 1,
            r.note@.len() == 0,
    {
        CheckInOutForm {
            barcode_input: String::new(),
            selected_item: None,
            qty: 1,
            note: String::new(),
        }
    }
}

/// The filters of the history tab.
#[derive(Default)]
pub struct HistoryFilter {
    pub item_id: Option<i64>,
    pub user_id: Option<i64>,
}

/// Quick-add fields for users, categories and locations.
#[derive(Default)]
pub struct QuickAdd {
    pub new_user: String,
    pub new_category: String,
    pub new_location: String,
}

} // verus!
