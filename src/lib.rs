//! Turn-and-scoring engine of a five-dice game for one to four players.

pub mod app;
pub mod events;
pub mod game_data;
pub mod hand;
pub mod play;
pub mod score_table;
pub mod scoring;
