//! Query parsing and column text for a fuzzy picker.
//!
//! A picker shows a list of items in named columns and narrows the list as
//! the user types. This crate turns the typed line into a [`Query`]: the text
//! that applies to every column, and the text bound to single columns with
//! `field:value` words. It also defines what a [`Column`] is: a name and the
//! text that an item displays, sorts and filters by in that column.
//!
//! Matching and drawing are left to the caller.

pub mod column;
pub mod fuzzy_match;
pub mod laws;
pub mod path;
pub mod query;
pub mod widget;
pub mod words;

pub use column::{Column, PathColumn, SimpleColumn, TextCell};
pub use fuzzy_match::FuzzyQuery;
pub use query::Query;
