//! Song catalogue logic for a music-guessing card game: song records and
//! their ids, an in-memory song store, card data for printed game cards,
//! player links, and the checks behind song uploads.

pub mod decimal;
pub mod text;
pub mod models;
pub mod store;
pub mod prepare;
pub mod ids;
pub mod player;
pub mod cards;
pub mod upload;
