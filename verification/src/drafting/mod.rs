//! A run that has a model draft long documents, one after the other.
pub mod calendar;
pub mod csv;
pub mod ident;
pub mod prompt;
pub mod report;
pub mod timestamp;
