//! Verified core of the jigsaw puzzle service: how a picture is cut into
//! interlocking pieces, what every piece outline looks like, how the tiles of a
//! puzzle are laid out and stored, the puzzle and user model, the Redis key
//! scheme, the validation of Telegram Mini App credentials, the rules of play
//! on the puzzle websocket, and what the Telegram bot answers.

pub mod connections;
pub mod model;
pub mod outline;
pub mod layout;
pub mod ids;
pub mod redis_scheme;
pub mod util;
pub mod init_data;
pub mod message;
pub mod auth;
pub mod play;
pub mod paths;
pub mod bot;
pub mod storage;
pub mod server;
pub mod session;
pub mod channels;
