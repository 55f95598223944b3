//! Flow metrics for cards that are tracked in decks, and the import of a
//! card from the reply of the board service that holds it.

pub mod card;
pub mod decimal;
pub mod deck;
pub mod json;
pub mod time;
