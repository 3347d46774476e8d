//! The broadcast channel of every puzzle that has players on it.
//!
//! Every message about a puzzle goes to all of its sessions through one
//! tokio broadcast channel. The registry opens a puzzle's channel when its
//! first player joins and drops it when the last one has left.
use std::collections::HashMap;
use tokio::sync::broadcast::{Receiver, Sender};
use vstd::prelude::*;

verus! {

broadcast use vstd::std_specs::hash::group_hash_axioms;

#[verifier::external_type_specification]
#[verifier::external_body]
#[verifier::reject_recursive_types(T)]
pub struct ExSender<T>(Sender<T>);

#[verifier::external_type_specification]
#[verifier::external_body]
#[verifier::reject_recursive_types(T)]
pub struct ExReceiver<T>(Receiver<T>);

/// How many messages a puzzle's channel holds for a session that lags.
pub const CHANNEL_CAPACITY: usize = 100;

/// The number of messages that the broadcast channel of `sender` holds for a
/// receiver that lags.
pub uninterp spec fn channel_capacity(sender: Sender<String>) -> nat;

/// Which broadcast channel the sender `sender` sends on.
pub uninterp spec fn sender_channel(sender: Sender<String>) -> int;

/// Which broadcast channel the receiver `receiver` receives from.
pub uninterp spec fn receiver_channel(receiver: Receiver<String>) -> int;

/// The smallest power of two that is at least `n`.
pub open spec fn next_power_of_two(n: nat) -> nat
    decreases n,
{
    if n <= 1 {
        1
    } else {
        2 * next_power_of_two(((n + 1) / 2) as nat)
    }
}

/// A new broadcast channel: `tokio::sync::broadcast::channel`, whose
/// receiver is dropped. tokio rounds the capacity up to a power of two, and
/// that many messages are kept for a receiver that lags. It panics on a
/// capacity of 0 or above `usize::MAX / 2`, which `requires` leaves out.
#[verifier::external_body]
fn new_sender(capacity: usize) -> (r: Sender<String>)
    requires
        0 < capacity <= usize::MAX / 2,
    ensures
        channel_capacity(r) == next_power_of_two(capacity as nat),
{
    tokio::sync::broadcast::channel(capacity).0
}

/// A new receiver of the messages sent on the channel of `sender` after this
/// moment: `tokio::sync::broadcast::Sender::subscribe`, which builds the
/// receiver on the sender's own shared channel. It panics only when the
/// channel already has `usize::MAX >> 2` receivers, more than memory holds.
#[verifier::external_body]
fn subscribe(sender: &Sender<String>) -> (r: Receiver<String>)
    ensures
        receiver_channel(r) == sender_channel(*sender),
{
    sender.subscribe()
}

/// How many receivers the channel has now:
/// `tokio::sync::broadcast::Sender::receiver_count`. Other sessions
/// subscribe and leave at any time, so nothing is claimed of it.
#[verifier::external_body]
fn receiver_count(sender: &Sender<String>) -> usize {
    sender.receiver_count()
}

/// Another handle to the same channel: `Clone` of
/// `tokio::sync::broadcast::Sender`, which shares the channel through an
/// `Arc`, so the clone is the same handle.
#[verifier::external_body]
fn clone_sender(sender: &Sender<String>) -> (r: Sender<String>)
    ensures
        r == *sender,
{
    sender.clone()
}


/// The channels of the puzzles, by puzzle id. Every message is the JSON
/// text that goes to the clients.
pub struct ChannelRegistry {
    senders: HashMap<u128, Sender<String>>,
}

impl ChannelRegistry {
    /// The channel of each puzzle that has one.
    pub closed spec fn channels(&self) -> Map<u128, Sender<String>> {
        self.senders@
    }

    /// A registry without channels.
    pub fn new() -> (r: ChannelRegistry)
        ensures
            r.channels() == Map::<u128, Sender<String>>::empty(),
    {
        ChannelRegistry { senders: HashMap::new() }
    }

    /// A receiver and a sender for the channel of a puzzle. A channel that
    /// exists is kept and handed out, so all players of a puzzle share it;
    /// otherwise a channel made with `CHANNEL_CAPACITY` is opened.
    pub fn get_channel(&mut self, puzzle_uuid: u128) -> (r: (Receiver<String>, Sender<String>))
        ensures
            old(self).channels().dom().contains(puzzle_uuid) ==> final(self).channels() == old(
                self,
            ).channels(),
            !old(self).channels().dom().contains(puzzle_uuid) ==> {
                &&& final(self).channels().dom() == old(self).channels().dom().insert(puzzle_uuid)
                &&& final(self).channels().remove(puzzle_uuid) == old(self).channels()
                &&& channel_capacity(final(self).channels()[puzzle_uuid]) == next_power_of_two(
                    CHANNEL_CAPACITY as nat,
                )
            },
            final(self).channels().dom().contains(puzzle_uuid),
            r.1 == final(self).channels()[puzzle_uuid],
            receiver_channel(r.0) == sender_channel(final(self).channels()[puzzle_uuid]),
    {
        match self.senders.get(&puzzle_uuid) {
            Some(sender) => {
                return (subscribe(sender), clone_sender(sender));
            },
            None => {},
        }
        let sender = new_sender(CHANNEL_CAPACITY);
        let receiver = subscribe(&sender);
        let kept = clone_sender(&sender);
        self.senders.insert(puzzle_uuid, kept);
        proof {
            assert(self.senders@.dom() =~= old(self).senders@.dom().insert(puzzle_uuid));
            assert(self.senders@.remove(puzzle_uuid) =~= old(self).senders@);
        }
        (receiver, sender)
    }

    /// A sender for the channel of a puzzle, if it has one.
    pub fn get_sender(&self, puzzle_uuid: u128) -> (r: Option<Sender<String>>)
        ensures
            r == (if self.channels().dom().contains(puzzle_uuid) {
                Some(self.channels()[puzzle_uuid])
            } else {
                None
            }),
    {
        match self.senders.get(&puzzle_uuid) {
            Some(sender) => Some(clone_sender(sender)),
            None => None,
        }
    }

    /// Drops the channel of a puzzle when `receiver_count`, the number of
    /// receivers of that channel, is zero. Nothing when the puzzle has no
    /// channel; otherwise whether the channel was dropped.
    pub fn remove_if_count_zero(&mut self, puzzle_uuid: u128, receiver_count: usize) -> (r: Option<
        bool,
    >)
        ensures
            !old(self).channels().dom().contains(puzzle_uuid) ==> r is None,
            old(self).channels().dom().contains(puzzle_uuid) ==> r == Some(receiver_count == 0),
            r == Some(true) ==> final(self).channels() == old(self).channels().remove(puzzle_uuid),
            r != Some(true) ==> final(self).channels() == old(self).channels(),
    {
        if !self.senders.contains_key(&puzzle_uuid) {
            return None;
        }
        if receiver_count != 0 {
            return Some(false);
        }
        self.senders.remove(&puzzle_uuid);
        Some(true)
    }

    /// Drops the channel of a puzzle if nobody listens to it any more: the
    /// receiver count of the puzzle's own channel goes to
    /// `remove_if_count_zero`. Nothing when the puzzle has no channel;
    /// otherwise whether the channel was dropped.
    pub fn remove_if_no_receivers(&mut self, puzzle_uuid: u128) -> (r: Option<bool>)
        ensures
            !old(self).channels().dom().contains(puzzle_uuid) ==> r is None && final(self).channels()
                == old(self).channels(),
            old(self).channels().dom().contains(puzzle_uuid) ==> r is Some,
            r == Some(true) ==> final(self).channels() == old(self).channels().remove(puzzle_uuid),
            r == Some(false) ==> final(self).channels() == old(self).channels(),
    {
        let count = match self.senders.get(&puzzle_uuid) {
            None => return None,
            Some(sender) => receiver_count(sender),
        };
        self.remove_if_count_zero(puzzle_uuid, count)
    }
}

} // verus!
