//! The rows of the stock book.

use vstd::prelude::*;
use crate::text::same_text;

verus! {

/// A member of the household who records movements.
#[derive(Clone, Debug)]
pub struct User {
    pub id: i64,
    pub name: String,
}

/// A category of goods, such as food, supplies or medicine.
#[derive(Clone, Debug)]
pub struct Category {
    pub id: i64,
    pub name: String,
}

/// A place in the storeroom.
#[derive(Clone, Debug)]
pub struct Location {
    pub id: i64,
    pub name: String,
}

/// An item kept in stock.
#[derive(Clone, Debug)]
pub struct Item {
    pub id: i64,
    pub name: String,
    pub category_id: Option<i64>,
    pub location_id: Option<i64>,
    pub unit: String,
    pub quantity: i64,
    pub min_quantity: i64,
    pub barcode: Option<String>,
    /// Expiry date as ISO `YYYY-MM-DD` text (`None`: does not expire).
    pub expiry_date: Option<String>,
    pub created_at: String,
    pub updated_at: String,
}

/// The direction of a stock movement.
#[derive(Clone, Copy, Debug, PartialEq, Eq, Structural)]
pub enum TxType {
    /// Goods received.
    In,
    /// Goods taken out.
    Out,
}

/// A stored movement, as the history table keeps it.
#[derive(Clone, Debug)]
pub struct Movement {
    pub id: i64,
    pub item_id: i64,
    pub user_id: Option<i64>,
    pub tx_type: TxType,
    pub quantity: i64,
    pub note: String,
    pub timestamp: String,
}

/// A movement as the history shows it, with the names of the item and the
/// user joined in (an empty user name when nobody was recorded).
#[derive(Clone, Debug)]
pub struct Transaction {
    pub id: i64,
    pub item_id: i64,
    pub item_name: String,
    pub user_name: String,
    pub tx_type: TxType,
    pub quantity: i64,
    pub note: String,
    pub timestamp: String,
}

/// A key/value setting.
#[derive(Clone, Debug)]
pub struct Setting {
    pub key: String,
    pub value: String,
}

/// The view of an optional text.
pub open spec fn opt_view(o: Option<String>) -> Option<Seq<char>> {
    match o {
        Some(s) => Some(s@),
        None => None,
    }
}

/// The stored text of a direction.
pub open spec fn tx_type_text(t: TxType) -> Seq<char> {
    match t {
        TxType::In => "IN"@,
        TxType::Out => "OUT"@,
    }
}

/// The direction that stored text stands for: `OUT` is a check-out and
/// every other text a check-in.
pub open spec fn tx_type_of_text(s: Seq<char>) -> TxType {
    if s == "OUT"@ {
        TxType::Out
    } else {
        TxType::In
    }
}

/// The Thai label of a direction: "received" or "taken out".
pub open spec fn tx_label(t: TxType) -> Seq<char> {
    match t {
        TxType::In => "รับเข้า"@,
        TxType::Out => "เบิกออก"@,
    }
}

impl TxType {
    pub fn from_db(s: &str) -> (r: TxType)
        ensures
            r == tx_type_of_text(s@),
    {
        if same_text(s, "OUT") {
            TxType::Out
        } else {
            TxType::In
        }
    }

    /// The text under which the history table stores the direction.
    pub fn as_db(self) -> (r: &'static str)
        ensures
            r@ == tx_type_text(self),
    {
        match self {
            TxType::In => "IN",
            TxType::Out => "OUT",
        }
    }

    /// Thai label for display.
    pub fn label_th(self) -> (r: &'static str)
        ensures
            r@ == tx_label(self),
    {
        match self {
            TxType::In => "รับเข้า",
            TxType::Out => "เบิกออก",
        }
    }
}

/// An exact copy of an optional text.
pub fn copy_opt_text(o: &Option<String>) -> (r: Option<String>)
    ensures
        r == *o,
{
    match o {
        Some(s) => Some(s.clone()),
        None => None,
    }
}

impl User {
    pub fn copy(&self) -> (r: User)
        ensures
            r == *self,
    {
        User { id: self.id, name: self.name.clone() }
    }
}

impl Category {
    pub fn copy(&self) -> (r: Category)
        ensures
            r == *self,
    {
        Category { id: self.id, name: self.name.clone() }
    }
}

impl Location {
    pub fn copy(&self) -> (r: Location)
        ensures
            r == *self,
    {
        Location { id: self.id, name: self.name.clone() }
    }
}

impl Item {
    pub fn copy(&self) -> (r: Item)
        ensures
            r == *self,
    {
        Item {
            id: self.id,
            name: self.name.clone(),
            category_id: self.category_id,
            location_id: self.location_id,
            unit: self.unit.clone(),
            quantity: self.quantity,
            min_quantity: self.min_quantity,
            barcode: copy_opt_text(&self.barcode),
            expiry_date: copy_opt_text(&self.expiry_date),
            created_at: self.created_at.clone(),
            updated_at: self.updated_at.clone(),
        }
    }
}

impl Movement {
    pub fn copy(&self) -> (r: Movement)
        ensures
            r == *self,
    {
        Movement {
            id: self.id,
            item_id: self.item_id,
            user_id: self.user_id,
            tx_type: self.tx_type,
            quantity: self.quantity,
            note: self.note.clone(),
            timestamp: self.timestamp.clone(),
        }
    }
}

impl Setting {
    pub fn copy(&self) -> (r: Setting)
        ensures
            r == *self,
    {
        Setting { key: self.key.clone(), value: self.value.clone() }
    }
}

} // verus!
