//! All OptRand events: timer payloads and loopback messages.

use vstd::prelude::*;

use crate::config::Epoch;
use crate::config::Replica;
use crate::msg::ProtocolMsg;

verus! {

/// Everything the scheduler can hand to the state machine.
#[derive(Debug)]
pub enum Event {
    /// Start proposing, status round finished.
    /// Triggered when the leader of an epoch had to wait for status
    /// messages before proposing.
    Propose,
    /// An epoch has ended, start a new epoch.
    /// Raised either by committing in the previous epoch or by the previous
    /// epoch's timer expiring.
    EpochEnd,
    /// ProposeTimeout tells whether we have timed out for proposing.
    ProposeTimeout,
    /// VoteTimeout to send or not to send synchronous vote messages on the
    /// block hash.
    VoteTimeout(crate::msg::Hash),
    /// Attempt to commit the block of the epoch once the sync certificate
    /// has rested for two delays.
    CommitTimeout(Epoch, crate::msg::Hash),
    /// After this fires, sync certificates for the epoch are refused.
    StopAcceptingSyncCerts(Epoch),
    /// An inbound or looped-back protocol message with its sender.
    Message(Replica, ProtocolMsg),
}

impl Event {
    /// A short display name for logging.
    pub fn to_string(&self) -> (r: &'static str)
        ensures
            r@ == match self {
                Event::Propose => "Propose"@,
                Event::EpochEnd => "Epoch Ended"@,
                Event::ProposeTimeout => "Propose Timed out"@,
                Event::VoteTimeout(_) => "Vote Timed out"@,
                Event::CommitTimeout(_, _) => "Commit Timed out"@,
                Event::StopAcceptingSyncCerts(_) => "Stop Accepting Sync Certs"@,
                Event::Message(_, _) => "New Message"@,
            },
    {
        match self {
            Event::Propose => "Propose",
            Event::EpochEnd => "Epoch Ended",
            Event::ProposeTimeout => "Propose Timed out",
            Event::VoteTimeout(_) => "Vote Timed out",
            Event::CommitTimeout(_, _) => "Commit Timed out",
            Event::StopAcceptingSyncCerts(_) => "Stop Accepting Sync Certs",
            Event::Message(_, _) => "New Message",
        }
    }
}

} // verus!
