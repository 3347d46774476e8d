//! The names of the keys and channels that the services share in Redis.
use vstd::prelude::*;

use crate::ids::{lemma_hyphenated_injective, spec_hyphenated, uuid_to_string};

verus! {

/// Every key of the scheme is a fixed prefix followed by the text of an id,
/// so two puzzles (or two requests) never share a key.
pub proof fn lemma_keys_name_one_id(prefix: Seq<char>, a: u128, b: u128)
    requires
        prefix + spec_hyphenated(a) == prefix + spec_hyphenated(b),
    ensures
        a == b,
{
    let ka = prefix + spec_hyphenated(a);
    let kb = prefix + spec_hyphenated(b);
    assert(ka.subrange(prefix.len() as int, ka.len() as int) =~= spec_hyphenated(a));
    assert(kb.subrange(prefix.len() as int, kb.len() as int) =~= spec_hyphenated(b));
    lemma_hyphenated_injective(a, b);
}

/// The Redis key scheme.
pub struct RedisScheme;

/// `prefix` followed by the hyphenated form of `id`.
fn prefixed_id(prefix: &str, id: u128) -> (key: String)
    ensures
        key@ == prefix@ + spec_hyphenated(id),
{
    let mut key = String::from_str(prefix);
    let id_text = uuid_to_string(id);
    key.append(id_text.as_str());
    key
}

impl RedisScheme {
    /// Hash of the tiles of a puzzle: field is the tile id, value a `JigsawTile`.
    pub fn jigsaw_puzzle_state(puzzle_uuid: u128) -> (key: String)
        ensures
            key@ == "jigsaw_puzzle_state:"@ + spec_hyphenated(puzzle_uuid),
    {
        prefixed_id("jigsaw_puzzle_state:", puzzle_uuid)
    }

    /// The `JigsawMeta` of a puzzle.
    pub fn jigsaw_puzzle_meta(puzzle_uuid: u128) -> (key: String)
        ensures
            key@ == "jigsaw_puzzle_meta:"@ + spec_hyphenated(puzzle_uuid),
    {
        prefixed_id("jigsaw_puzzle_meta:", puzzle_uuid)
    }

    /// The chat that asked for a puzzle to be generated.
    pub fn request_message_data(request_uuid: u128) -> (key: String)
        ensures
            key@ == "request_message_data:"@ + spec_hyphenated(request_uuid),
    {
        prefixed_id("request_message_data:", request_uuid)
    }

    /// Sorted set of the scores of the players of a puzzle, by user id.
    pub fn jigsaw_puzzle_score(puzzle_uuid: u128) -> (key: String)
        ensures
            key@ == "jigsaw_puzzle_score:"@ + spec_hyphenated(puzzle_uuid),
    {
        prefixed_id("jigsaw_puzzle_score:", puzzle_uuid)
    }

    /// The number of tiles placed in a puzzle so far.
    pub fn jigsaw_puzzle_score_total(puzzle_uuid: u128) -> (key: String)
        ensures
            key@ == "jigsaw_puzzle_score_total:"@ + spec_hyphenated(puzzle_uuid),
    {
        prefixed_id("jigsaw_puzzle_score_total:", puzzle_uuid)
    }

    /// Hash of the public data of every player: field is the user id.
    pub const JIGSAW_USER_DATA: &'static str = "jigsaw_user_data";

    /// Channel on which puzzle generation is requested.
    pub const REQUEST_GENERATE_PUZZLE: &'static str = "request:generate_puzzle";

    /// Channel on which the generator announces finished puzzles.
    pub const EVENT_PUZZLE_GENERATED: &'static str = "event:puzzle_generated";
}

} // verus!
