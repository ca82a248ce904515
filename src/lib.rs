pub mod card;
pub mod deck;
pub mod log;
pub mod input;
pub mod state;
pub mod engine;
pub mod laws;
pub mod relay;
