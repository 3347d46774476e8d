//! What the server and the clients of a puzzle websocket say to each other.
//!
//! A message goes from the server to the clients; a request goes from a
//! client to the server. Tile ids are UUIDs held as `u128`, players are keyed
//! by their Telegram id.
use std::collections::HashMap;
use vstd::prelude::*;

use crate::model::puzzle::{JigsawIndex, JigsawMeta, PublicJigsawTile};
use crate::model::user::{User, UserData, UserId};

verus! {

/// A message from the server to the clients of a puzzle.
#[allow(inconsistent_fields)]
pub enum WsMessage {
    /// Everything a client needs when it joins: the sizes of the puzzle, what
    /// is known of each tile, the players and their scores.
    Initial {
        meta: JigsawMeta,
        state: HashMap<u128, PublicJigsawTile>,
        users: HashMap<u64, UserData>,
        scores: HashMap<u64, u64>,
    },
    /// A player put a tile in its place.
    Placed { user: UserId, tile_uuid: u128, index: JigsawIndex },
    /// A player joined.
    Join { user: User },
    /// A player left.
    Leave { user: UserId },
    /// A player said something.
    Chat { user: UserId, message: String },
}

impl WsMessage {
    pub fn initial(
        meta: JigsawMeta,
        state: HashMap<u128, PublicJigsawTile>,
        users: HashMap<u64, UserData>,
        scores: HashMap<u64, u64>,
    ) -> (r: WsMessage)
        ensures
            r matches WsMessage::Initial { meta: m, state: s, users: u, scores: c } && m == meta
                && s@ == state@ && u@ == users@ && c@ == scores@,
    {
        WsMessage::Initial { meta, state, users, scores }
    }

    pub fn placed(user: UserId, tile_uuid: u128, index: JigsawIndex) -> (r: WsMessage)
        ensures
            r == (WsMessage::Placed { user, tile_uuid, index }),
    {
        WsMessage::Placed { user, tile_uuid, index }
    }

    pub fn join(user: User) -> (r: WsMessage)
        ensures
            r == (WsMessage::Join { user }),
    {
        WsMessage::Join { user }
    }

    pub fn leave(user: UserId) -> (r: WsMessage)
        ensures
            r == (WsMessage::Leave { user }),
    {
        WsMessage::Leave { user }
    }
}

/// A request from a client to the server.
pub enum WsRequest {
    /// The Telegram Mini App init data, percent-encoded, as the first request
    /// under the Telegram protocol.
    TelegramAuth { init_data: String },
    /// Put a tile at a place.
    Place { tile_uuid: u128, index: JigsawIndex },
    /// Say something to the other players.
    Chat { message: String },
}

} // verus!
