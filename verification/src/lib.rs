mod clock;
pub mod decks;
pub mod error;
pub mod image;
pub mod questions;
pub mod store;
