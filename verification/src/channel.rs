//! Message vocabulary shared by the room actor and its callers.

use vstd::prelude::*;

use crate::estimate::Estimate;
use crate::room::{Participant, SessionId};

verus! {

/// One request into a room's mailbox.  Requests are processed strictly in
/// arrival order; each is answered with one [`RoomResponse`].
#[derive(Clone, Debug)]
pub enum RoomRequest {
    Join(Participant),
    Leave(SessionId),
    Remove(SessionId),
    SendEstimate(SessionId, Estimate),
    ChangeVisibility,
    DeleteEstimates,
    Heartbeat(SessionId),
    NameChange(SessionId, String),
}

/// The answer a room gives to one request: the full roster snapshot on a
/// join, a plain acknowledgement for everything else, so no caller ever
/// hangs on an unanswered reply slot.
#[derive(Clone, Debug)]
pub enum RoomResponse {
    RoomState(Vec<Participant>, EstimateVisibility),
    Ack,
}

/// One state-change notification a room fans out to every subscriber, in
/// the order the room emitted them.
#[derive(Clone, Debug)]
pub enum RoomBroadcastMessage {
    Joined(Participant),
    ParticipantUpdate(Participant),
    ChangedVisibility(EstimateVisibility),
    EstimatesDeleted,
    Left(SessionId),
    RoomRequestedHeartbeat,
}

/// Whether the estimates cast in a room are currently shown to everyone
/// or still hidden.  One instance per room, independent of any participant.
#[derive(Clone, Copy, Debug, PartialEq, Eq, Structural)]
pub enum EstimateVisibility {
    Visible,
    Hidden,
}

impl EstimateVisibility {
    /// Flips between `Visible` and `Hidden`.
    pub fn toggle(&self) -> (r: Self)
        ensures
            r == (match *self {
                EstimateVisibility::Visible => EstimateVisibility::Hidden,
                EstimateVisibility::Hidden => EstimateVisibility::Visible,
            }),
            r != *self,
    {
        match *self {
            EstimateVisibility::Visible => EstimateVisibility::Hidden,
            EstimateVisibility::Hidden => EstimateVisibility::Visible,
        }
    }

    pub fn is_visible(&self) -> (r: bool)
        ensures
            r == (*self == EstimateVisibility::Visible),
    {
        *self == EstimateVisibility::Visible
    }
}

/// Toggling twice restores the original visibility, so a double
/// `ChangeVisibility` request leaves the room as it was.
pub proof fn lemma_toggle_involution(v: EstimateVisibility)
    ensures
        v.toggle_spec().toggle_spec() == v,
{
}

impl EstimateVisibility {
    /// What `toggle` returns, for use in contracts.
    pub open spec fn toggle_spec(self) -> Self {
        match self {
            EstimateVisibility::Visible => EstimateVisibility::Hidden,
            EstimateVisibility::Hidden => EstimateVisibility::Visible,
        }
    }
}

} // verus!
