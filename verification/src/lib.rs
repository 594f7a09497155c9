//! XML parsing and XPath 1.0 queries over the `oxml` engine, with the
//! decisions this crate makes about bindings, results and messages
//! stated as contracts.

pub mod decimal;
pub mod engine;
pub mod bindings;
pub mod logic;

pub use crate::logic::{is_well_formed, parse, Document};
