//! A statistics calculator's engine: the catalog of formulas and their
//! fields, the selection over tabs and formulas, the collection of one value
//! per field, and the dispatcher that validates a committed set of values and
//! routes it to the numeric routine.

pub mod app;
pub mod catalog;
pub mod dispatch;
pub mod numeric;
pub mod selection;
pub mod text;
pub mod value;
