//! Deck progress report library.
//!
//! Reads normalized learning-progress records, classifies each record's
//! scheduling state, computes aggregate statistics, renders one HTML
//! fragment per record, and substitutes named tokens into an HTML
//! template document.

pub mod card;
pub mod decimal;
pub mod render;
pub mod report;
pub mod state;
pub mod stats;
pub mod template;

pub use state::ExtractError;
pub use state::Queue;
