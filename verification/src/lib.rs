//! Home stock keeping: the verified core of a household storeroom manager.
//!
//! The crate holds the stock book (items, people, categories, places,
//! movement history and settings) as plain values, together with every rule
//! that decides what a request does to it: check-in and check-out, barcode
//! allocation and uniqueness, the alert lists and the report figures.

pub mod text;
pub mod order;
pub mod models;
pub mod store;
pub mod queries;
pub mod clock;
pub mod history;
pub mod theme;
pub mod state;
pub mod views;
pub mod laws;
pub mod export;
pub mod actions;
