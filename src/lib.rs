//! Extraction of health-measurement records from a flat XML health export.
//!
//! The document is cut into record units on a literal marker, each unit is
//! scanned as a stream of tags, filtered by record type and by a month-granular
//! recency window, and the surviving records are gathered in document order.
pub mod text;
pub mod recency;
pub mod activity;
pub mod segment;
pub mod xml;
pub mod record;
pub mod unit;
pub mod pipeline;
pub mod cache;
