//! The vote service: records one player's vote and acknowledges it.

use vstd::prelude::*;

use crate::rpc::{RpcError, RpcErrorCode, RpcResponse};
use crate::service::ServiceContext;
use crate::wire::{decode_str_array, decoded_strings, encode_str_array, parse_str_array};
use vstd::string::StringExecFns;
use vstd::utf8::encode_utf8;

verus! {

/// One vote: who votes for which card in which room.
#[derive(Debug)]
pub struct VoteRequest {
    pub player_id: String,
    pub room_id: String,
    pub card: String,
}

/// The service's acknowledgement of one vote.
#[derive(Debug)]
pub struct VoteResponse {
    pub status: String,
    pub message: String,
}

/// The running vote count the service keeps as a shared resource.
pub struct VoteCounter(pub usize);

/// The wire form of a vote request: its three fields, in order.
pub open spec fn vote_request_fields(player_id: Seq<char>, room_id: Seq<char>, card: Seq<char>) -> Seq<Seq<u8>> {
    seq![encode_utf8(player_id), encode_utf8(room_id), encode_utf8(card)]
}

/// The wire form of a vote response: its two fields, in order.
pub open spec fn vote_response_fields(status: Seq<char>, message: Seq<char>) -> Seq<Seq<u8>> {
    seq![encode_utf8(status), encode_utf8(message)]
}

/// Encodes a vote request as its wire bytes.
pub fn encode_vote_request(request: &VoteRequest) -> (r: Vec<u8>)
    requires
        encode_utf8(request.player_id@).len() <= 0xffff_ffff,
        encode_utf8(request.room_id@).len() <= 0xffff_ffff,
        encode_utf8(request.card@).len() <= 0xffff_ffff,
    ensures
        parse_str_array(r@, 3) == Some(
            vote_request_fields(request.player_id@, request.room_id@, request.card@),
        ),
{
    let mut fields: Vec<String> = Vec::new();
    fields.push(request.player_id.clone());
    fields.push(request.room_id.clone());
    fields.push(request.card.clone());
    let r = encode_str_array(&fields);
    proof {
        assert(fields@.map_values(|s: String| encode_utf8(s@)) =~= vote_request_fields(
            request.player_id@,
            request.room_id@,
            request.card@,
        ));
    }
    r
}

/// Decodes a vote request from its wire bytes.
pub fn decode_vote_request(bytes: &[u8]) -> (r: Option<VoteRequest>)
    ensures
        match r {
            Some(v) => decoded_strings(bytes@, 3) == Some(seq![v.player_id@, v.room_id@, v.card@]),
            None => decoded_strings(bytes@, 3) is None,
        },
{
    let decoded = decode_str_array(bytes, 3);
    match decoded {
        None => None,
        Some(mut v) => {
            let card = v.pop().unwrap();
            let room_id = v.pop().unwrap();
            let player_id = v.pop().unwrap();
            proof {
                assert(decoded_strings(bytes@, 3)->Some_0 =~= seq![
                    player_id@,
                    room_id@,
                    card@,
                ]);
            }
            Some(VoteRequest { player_id, room_id, card })
        },
    }
}

/// Encodes a vote response as its wire bytes.
pub fn encode_vote_response(response: &VoteResponse) -> (r: Vec<u8>)
    requires
        encode_utf8(response.status@).len() <= 0xffff_ffff,
        encode_utf8(response.message@).len() <= 0xffff_ffff,
    ensures
        parse_str_array(r@, 2) == Some(vote_response_fields(response.status@, response.message@)),
{
    let mut fields: Vec<String> = Vec::new();
    fields.push(response.status.clone());
    fields.push(response.message.clone());
    let r = encode_str_array(&fields);
    proof {
        assert(fields@.map_values(|s: String| encode_utf8(s@)) =~= vote_response_fields(
            response.status@,
            response.message@,
        ));
    }
    r
}

/// Decodes a vote response from its wire bytes.
pub fn decode_vote_response(bytes: &[u8]) -> (r: Option<VoteResponse>)
    ensures
        match r {
            Some(v) => decoded_strings(bytes@, 2) == Some(seq![v.status@, v.message@]),
            None => decoded_strings(bytes@, 2) is None,
        },
{
    let decoded = decode_str_array(bytes, 2);
    match decoded {
        None => None,
        Some(mut v) => {
            let message = v.pop().unwrap();
            let status = v.pop().unwrap();
            proof {
                assert(decoded_strings(bytes@, 2)->Some_0 =~= seq![status@, message@]);
            }
            Some(VoteResponse { status, message })
        },
    }
}

/// The acknowledgement text of one vote.
pub open spec fn vote_message(player_id: Seq<char>, room_id: Seq<char>) -> Seq<char> {
    "Vote recorded for player "@ + player_id + " in room "@ + room_id
}

/// Serves one vote call: parses the parameters as a vote request and
/// acknowledges it with status `success` and a message naming the player
/// and the room.  Parameters that do not decode as a vote request are
/// answered with an invalid-params error; an acknowledgement too large for
/// the wire format (beyond the four-byte length range) with an internal
/// error.
pub fn vote_service(ctx: ServiceContext<VoteCounter>) -> (r: Result<RpcResponse, RpcError>)
    ensures
        decoded_strings(ctx.request.params@, 3) is None ==> (r matches Err(e) && e.code
            == RpcErrorCode::InvalidParams.code_spec()),
        decoded_strings(ctx.request.params@, 3) matches Some(fields) ==> ((encode_utf8(
            "success"@,
        ).len() <= 0xffff_ffff && encode_utf8(vote_message(fields[0], fields[1])).len()
            <= 0xffff_ffff) ==> (r matches Ok(resp) && resp.id == ctx.request.id && resp.error
            is None && (resp.result matches Some(body) && parse_str_array(body@, 2) == Some(
            vote_response_fields("success"@, vote_message(fields[0], fields[1])),
        )))),
{
    let params = decode_vote_request(ctx.request.params.as_slice());
    match params {
        None => Err(
            RpcError::new(RpcErrorCode::InvalidParams, "Failed to parse params".to_owned()),
        ),
        Some(vote) => {
            let mut message = "Vote recorded for player ".to_owned();
            message.append(vote.player_id.as_str());
            message.append(" in room ");
            message.append(vote.room_id.as_str());
            let status = "success".to_owned();
            if status.as_str().as_bytes().len() > 0xffff_ffff || message.as_str().as_bytes().len()
                > 0xffff_ffff {
                return Err(
                    RpcError::new(RpcErrorCode::InternalError, "Response too large".to_owned()),
                );
            }
            let response = VoteResponse { status, message };
            let body = encode_vote_response(&response);
            Ok(RpcResponse { result: Some(body), error: None, id: ctx.request.id })
        },
    }
}

/// The vote service as a registrable handler.
#[derive(Debug)]
pub struct VoteService;

impl crate::service::Service<VoteCounter> for VoteService {
    fn call(&self, ctx: ServiceContext<VoteCounter>) -> Result<RpcResponse, RpcError> {
        vote_service(ctx)
    }
}

} // verus!
