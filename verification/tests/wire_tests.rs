use scrum_poker::{
    decode_vote_request, decode_vote_response, encode_vote_request, encode_vote_response,
    VoteRequest, VoteResponse,
};

#[test]
fn vote_request_round_trip() {
    let request = VoteRequest {
        player_id: "player1".to_string(),
        room_id: "room1".to_string(),
        card: "1".to_string(),
    };
    let bytes = encode_vote_request(&request);
    let back = decode_vote_request(&bytes).unwrap();
    assert_eq!(back.player_id, request.player_id);
    assert_eq!(back.room_id, request.room_id);
    assert_eq!(back.card, request.card);
}

#[test]
fn vote_response_round_trip() {
    let response = VoteResponse {
        status: "success".to_string(),
        message: "Vote recorded for player player1 in room room1".to_string(),
    };
    let bytes = encode_vote_response(&response);
    let back = decode_vote_response(&bytes).unwrap();
    assert_eq!(back.status, response.status);
    assert_eq!(back.message, response.message);
}

#[test]
fn encoding_matches_the_messagepack_reference() {
    let request = VoteRequest {
        player_id: "player1".to_string(),
        room_id: "room1".to_string(),
        card: "1".to_string(),
    };
    let bytes = encode_vote_request(&request);
    let reference = rmp_serde::to_vec(&(
        "player1".to_string(),
        "room1".to_string(),
        "1".to_string(),
    ))
    .unwrap();
    assert_eq!(bytes, reference);

    let response = VoteResponse {
        status: "ok".to_string(),
        message: "fine".to_string(),
    };
    let bytes = encode_vote_response(&response);
    let reference = rmp_serde::to_vec(&("ok".to_string(), "fine".to_string())).unwrap();
    assert_eq!(bytes, reference);
}

#[test]
fn the_reference_decoder_reads_our_bytes() {
    let response = VoteResponse {
        status: "success".to_string(),
        message: "recorded".to_string(),
    };
    let bytes = encode_vote_response(&response);
    let (status, message): (String, String) = rmp_serde::from_slice(&bytes).unwrap();
    assert_eq!(status, "success".to_string());
    assert_eq!(message, "recorded".to_string());
}

#[test]
fn long_fields_use_wider_length_headers() {
    let request = VoteRequest {
        player_id: "p".repeat(100),
        room_id: "r".repeat(70_000),
        card: "c".repeat(31),
    };
    let bytes = encode_vote_request(&request);
    let reference = rmp_serde::to_vec(&(
        "p".repeat(100),
        "r".repeat(70_000),
        "c".repeat(31),
    ))
    .unwrap();
    assert_eq!(bytes, reference);
    let back = decode_vote_request(&bytes).unwrap();
    assert_eq!(back.player_id.len(), 100);
    assert_eq!(back.room_id.len(), 70_000);
    assert_eq!(back.card.len(), 31);
}

#[test]
fn unicode_fields_survive_the_round_trip() {
    let response = VoteResponse {
        status: "успех".to_string(),
        message: "données ☕️".to_string(),
    };
    let bytes = encode_vote_response(&response);
    let back = decode_vote_response(&bytes).unwrap();
    assert_eq!(back.status, response.status);
    assert_eq!(back.message, response.message);
}

#[test]
fn malformed_bytes_are_rejected() {
    assert!(decode_vote_request(&[]).is_none());
    // wrong arity: a two-element array where three fields are expected
    assert!(decode_vote_request(&[0x92, 0xa1, b'a', 0xa1, b'b']).is_none());
    // truncated payload
    assert!(decode_vote_request(&[0x93, 0xa5, b'a']).is_none());
    // an integer where a string is expected
    assert!(decode_vote_request(&[0x93, 0x01, 0xa1, b'b', 0xa1, b'c']).is_none());
    // trailing garbage after a complete message
    assert!(decode_vote_response(&[0x92, 0xa1, b'a', 0xa1, b'b', 0x00]).is_none());
    // invalid UTF-8 in a payload
    assert!(decode_vote_response(&[0x92, 0xa1, 0xff, 0xa1, b'b']).is_none());
}
