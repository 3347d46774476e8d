//! The messages that the bot and the generator exchange over Redis.
use vstd::prelude::*;

verus! {

/// A request to cut the picture stored under `image_path`, relative to the
/// generator's request storage, into a puzzle. `uuid` names the request.
pub struct GeneratePuzzleRequest {
    pub uuid: u128,
    pub image_path: String,
}

/// The answer to a `GeneratePuzzleRequest`: the id of the new puzzle, or
/// nothing when no puzzle could be made of the picture.
#[derive(Copy, Clone, Debug, PartialEq, Eq, Structural)]
pub struct PuzzleGeneratedEvent {
    pub request_uuid: u128,
    pub puzzle_uuid: Option<u128>,
}

impl PuzzleGeneratedEvent {
    pub fn new(request_uuid: u128, puzzle_uuid: Option<u128>) -> (r: PuzzleGeneratedEvent)
        ensures
            r.request_uuid == request_uuid,
            r.puzzle_uuid == puzzle_uuid,
    {
        PuzzleGeneratedEvent { request_uuid, puzzle_uuid }
    }
}

} // verus!
