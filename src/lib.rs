//! A per-account note tracker keyed by calendar date, with weekly repeating
//! notes whose completion is tracked per occurrence.
pub mod date;
pub mod errors;
pub mod laws;
pub mod note;
pub mod tracker;

pub use date::{Date, DayOfWeek, UncheckedDate};
pub use errors::TodoError;
pub use note::Note;
pub use tracker::{Todo, TodoModel};
