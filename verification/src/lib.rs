//! Core of a collaborative planning-poker service.
//!
//! Participants join a named room, cast hidden estimates, and reveal or clear
//! them together.  The room coordination engine here owns all mutable session
//! state: the participant roster, the estimate-visibility flag, and the
//! estimates themselves.  Every request handler is a pure state transition
//! with a verified contract; an unverified runtime drives these transitions
//! from asynchronous mailboxes and fans the resulting broadcasts out to
//! subscribers.
//!
//! The room engine lives in [`room`] (state and request handlers), [`channel`]
//! (the message vocabulary), and [`room_pool`] (the registry that keeps at
//! most one live room per id).  Around it stand the card values
//! ([`estimate`]), the reveal-table ordering ([`table`]), display-name and
//! room-id validation ([`validate`], [`username`]), and the RPC service layer
//! ([`rpc`], [`wire`], [`vote`], [`dispatch`], [`resources`], [`service`],
//! [`app`]).

use vstd::prelude::*;

mod app;
mod card;
mod channel;
mod dirs;
mod dispatch;
mod estimate;
mod resources;
mod room;
mod room_pool;
mod rpc;
mod service;
mod table;
mod text;
mod username;
mod validate;
mod vote;
mod wire;

pub use app::App;
pub use card::{CardRequest, CardResponse};
pub use channel::{
    lemma_toggle_involution, EstimateVisibility, RoomBroadcastMessage, RoomRequest, RoomResponse,
};
pub use dirs::Dirs;
pub use dispatch::Dispatch;
pub use estimate::{lemma_rank_injective, Estimate};
pub use resources::{Resource, Resources};
pub use room::{
    cleanup_probe_plan, clear_estimates_model, estimate_broadcasts, estimate_model,
    heartbeat_model, join_all, join_broadcasts, join_model, leave_model,
    lemma_delete_estimates_resets, lemma_estimate_then_rejoin, lemma_heartbeat_cancels_removal,
    lemma_join_all_distinct, lemma_rejoin_no_duplicate, lemma_unanswered_probe_removes,
    ps_has_session, remove_broadcasts, remove_model, rename_broadcasts, rename_model,
    session_index, step_broadcasts, step_participants, step_probe, step_visibility,
    wf_participants, Participant, ParticipantStatus, Room, RoomId, RoomOutcome, SessionId,
};
pub use room_pool::{
    distinct_ids, handle_ctrl, lemma_shutdown_forces_fresh_spawn, remove_id_model, CtrlRequest,
    CtrlResponse, HealthStatus, RoomPoolRequest, RoomRegistry,
};
pub use rpc::{RpcError, RpcErrorCode, RpcRequest, RpcResponse};
pub use service::{Service, ServiceContext};
pub use table::{sort_participants_by_estimate, sorted_by_estimate};
pub use username::{capitalized, capitalize_words, random_username};
pub use validate::{normalized_name, room_id, room_id_spec, username};
pub use vote::{
    decode_vote_request, decode_vote_response, encode_vote_request, encode_vote_response,
    vote_message, vote_service, VoteCounter, VoteRequest, VoteResponse, VoteService,
};
pub use wire::{
    decode_str_array, decoded_strings, encode_str_array, lemma_encode_then_decode,
    parse_str_array, parse_str_item, parse_str_items,
};

verus! {

} // verus!
