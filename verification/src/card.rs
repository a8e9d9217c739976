//! The card-event records a game client exchanges with the service.

use vstd::prelude::*;

verus! {

/// One card event a player sends: who played what, where.
#[derive(Debug)]
pub struct CardRequest {
    pub player_id: String,
    pub room_id: String,
    pub event: String,
    pub card: String,
}

/// The service's acknowledgement of a card event.
#[derive(Debug)]
pub struct CardResponse {
    pub status: String,
    pub message: String,
}

} // verus!
