//! The life of an authorized websocket session.
//!
//! The server records the player, loads the puzzle and sends it to the
//! client; then it announces the player to the others and relays messages
//! and requests until either side stops, announces that the player left and
//! drops the puzzle's channel once nobody listens to it. A failure before the
//! puzzle reached the client ends the session at once, unannounced.
use vstd::prelude::*;

use crate::message::WsRequest;
use crate::model::puzzle::JigsawIndex;

verus! {

/// A step of a session.
#[derive(Copy, Clone, Debug, PartialEq, Eq, Structural)]
pub enum SessionStep {
    /// Store the player's data and give it a score of its own in the puzzle.
    SetUserData,
    /// Load the puzzle's tiles, sizes, players and scores.
    LoadInitialData,
    /// Send them to the client.
    SendInitialData,
    /// Tell the other players that the player joined.
    AnnounceJoin,
    /// Relay messages and requests until either side stops.
    Play,
    /// Tell the other players that the player left.
    AnnounceLeave,
    /// Drop the puzzle's channel if nobody listens to it any more.
    ReleaseChannel,
    /// The session is over.
    Done,
}

/// How a step went.
#[derive(Copy, Clone, Debug, PartialEq, Eq, Structural)]
pub enum StepOutcome {
    Succeeded,
    Failed,
}

/// The step after `step`, which went as `outcome` says.
pub open spec fn spec_next_step(step: SessionStep, outcome: StepOutcome) -> SessionStep {
    match step {
        SessionStep::SetUserData => if outcome == StepOutcome::Succeeded {
            SessionStep::LoadInitialData
        } else {
            SessionStep::Done
        },
        SessionStep::LoadInitialData => if outcome == StepOutcome::Succeeded {
            SessionStep::SendInitialData
        } else {
            SessionStep::Done
        },
        SessionStep::SendInitialData => if outcome == StepOutcome::Succeeded {
            SessionStep::AnnounceJoin
        } else {
            SessionStep::Done
        },
        SessionStep::AnnounceJoin => SessionStep::Play,
        SessionStep::Play => SessionStep::AnnounceLeave,
        SessionStep::AnnounceLeave => SessionStep::ReleaseChannel,
        SessionStep::ReleaseChannel => SessionStep::Done,
        SessionStep::Done => SessionStep::Done,
    }
}

/// The step after `step`. A failure ends the session while the puzzle has
/// not reached the client; later, whether a step went well changes nothing.
pub fn next_step(step: SessionStep, outcome: StepOutcome) -> (r: SessionStep)
    ensures
        r == spec_next_step(step, outcome),
{
    let succeeded = match outcome {
        StepOutcome::Succeeded => true,
        StepOutcome::Failed => false,
    };
    match step {
        SessionStep::SetUserData => if succeeded {
            SessionStep::LoadInitialData
        } else {
            SessionStep::Done
        },
        SessionStep::LoadInitialData => if succeeded {
            SessionStep::SendInitialData
        } else {
            SessionStep::Done
        },
        SessionStep::SendInitialData => if succeeded {
            SessionStep::AnnounceJoin
        } else {
            SessionStep::Done
        },
        SessionStep::AnnounceJoin => SessionStep::Play,
        SessionStep::Play => SessionStep::AnnounceLeave,
        SessionStep::AnnounceLeave => SessionStep::ReleaseChannel,
        SessionStep::ReleaseChannel => SessionStep::Done,
        SessionStep::Done => SessionStep::Done,
    }
}

/// The steps of a session that starts at `step` and whose steps go as
/// `outcomes` says, one outcome per step; `step` comes first.
pub open spec fn session_trace(step: SessionStep, outcomes: Seq<StepOutcome>) -> Seq<SessionStep>
    decreases outcomes.len(),
{
    if outcomes.len() == 0 {
        seq![step]
    } else {
        seq![step] + session_trace(spec_next_step(step, outcomes[0]), outcomes.drop_first())
    }
}

/// `step` may follow `previous`: play follows the announcement that the
/// player joined, the announcement that it left follows play, and the
/// channel is released right after that announcement.
pub open spec fn may_follow(previous: SessionStep, step: SessionStep) -> bool {
    &&& step == SessionStep::Play ==> previous == SessionStep::AnnounceJoin
    &&& step == SessionStep::AnnounceLeave ==> previous == SessionStep::Play
    &&& step == SessionStep::ReleaseChannel ==> previous == SessionStep::AnnounceLeave
}

/// A player is announced as leaving only right after it played, it plays
/// only right after it was announced as joining, and the puzzle's channel is
/// released only right after the announcement that the player left: in every
/// session, whatever its steps' outcomes, each step may follow the one
/// before it.
pub proof fn lemma_leave_follows_join(step: SessionStep, outcomes: Seq<StepOutcome>)
    ensures
        ({
            let t = session_trace(step, outcomes);
            &&& t.len() == outcomes.len() + 1
            &&& t[0] == step
            &&& forall|i: int| #![trigger t[i]] 0 < i < t.len() ==> may_follow(t[i - 1], t[i])
        }),
    decreases outcomes.len(),
{
    if outcomes.len() > 0 {
        let next = spec_next_step(step, outcomes[0]);
        lemma_leave_follows_join(next, outcomes.drop_first());
        let t = session_trace(step, outcomes);
        let rest = session_trace(next, outcomes.drop_first());
        assert forall|i: int| #![trigger t[i]] 0 < i < t.len() implies may_follow(t[i - 1], t[i]) by {
            assert(t[i] == rest[i - 1]);
            if i > 1 {
                assert(t[i - 1] == rest[i - 2]);
            }
        }
    }
}

/// What the server does with a request of an authorized player.
#[derive(Copy, Clone, Debug, PartialEq, Eq, Structural)]
pub enum RequestAction {
    /// Try to put a tile at a place.
    Place { tile_uuid: u128, index: JigsawIndex },
    /// Nothing: chat is not relayed, and credentials are asked for only once.
    Ignore,
}

/// What the server does with a request of an authorized player.
pub fn request_action(request: &WsRequest) -> (r: RequestAction)
    ensures
        match *request {
            WsRequest::Place { tile_uuid, index } => r == (RequestAction::Place { tile_uuid, index }),
            _ => r == RequestAction::Ignore,
        },
{
    match request {
        WsRequest::Place { tile_uuid, index } => RequestAction::Place {
            tile_uuid: *tile_uuid,
            index: *index,
        },
        _ => RequestAction::Ignore,
    }
}

} // verus!
