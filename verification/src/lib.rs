//! Reconciliation between a transactional row store and a search index built
//! over it: rows are projected into schema-typed documents, and index hits are
//! re-validated against the row store before they are surfaced.

pub mod coerce;
pub mod document;
pub mod fixtures;
pub mod locator;
pub mod project;
pub mod routing;
pub mod schema;
pub mod visibility;
