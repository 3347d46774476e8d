//! The data that the services exchange: puzzles, tiles, players, and the
//! requests and events between the bot and the generator.
pub mod puzzle;
pub mod request;
pub mod user;
