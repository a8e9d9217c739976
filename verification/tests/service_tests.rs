use scrum_poker::{
    decode_vote_response, encode_vote_request, App, Dirs, Resources, RpcError, RpcErrorCode,
    RpcRequest, RpcResponse, VoteCounter, VoteRequest, VoteService,
};

#[test]
fn start_app() {
    let mut app: App<VoteCounter, VoteService> = App::new();
    app.add_service("vote".to_string(), VoteService);
    app.insert_resource(VoteCounter(0));

    let params = VoteRequest {
        player_id: "player1".to_string(),
        room_id: "room1".to_string(),
        card: "1".to_string(),
    };
    let request = RpcRequest::new("vote".to_string(), encode_vote_request(&params), None);
    let rpc_response = app.run(request);
    let vote_response = decode_vote_response(&rpc_response.result.unwrap()).unwrap();
    assert_eq!(vote_response.status, "success".to_string());
}

#[test]
fn vote_acknowledgement_names_player_and_room() {
    let mut app: App<VoteCounter, VoteService> = App::new();
    app.add_service("vote".to_string(), VoteService);
    let params = VoteRequest {
        player_id: "alice".to_string(),
        room_id: "r7".to_string(),
        card: "8".to_string(),
    };
    let request = RpcRequest::new("vote".to_string(), encode_vote_request(&params), Some(5));
    let response = app.run(request);
    assert_eq!(response.id, Some(5));
    assert!(response.error.is_none());
    let vote_response = decode_vote_response(&response.result.unwrap()).unwrap();
    assert_eq!(
        vote_response.message,
        "Vote recorded for player alice in room r7".to_string()
    );
}

#[test]
fn unknown_method_is_answered_with_method_not_found() {
    let mut app: App<VoteCounter, VoteService> = App::new();
    app.add_service("vote".to_string(), VoteService);
    let request = RpcRequest::new("nope".to_string(), Vec::new(), Some(9));
    let response = app.run(request);
    assert!(response.result.is_none());
    assert_eq!(response.id, Some(9));
    let error = response.error.unwrap();
    assert_eq!(error.code, -32601);
    assert_eq!(error.message, "Method 'nope' not found".to_string());
}

#[test]
fn undecodable_params_are_answered_with_invalid_params() {
    let mut app: App<VoteCounter, VoteService> = App::new();
    app.add_service("vote".to_string(), VoteService);
    let request = RpcRequest::new("vote".to_string(), vec![0x01, 0x02], Some(3));
    let response = app.run(request);
    assert!(response.result.is_none());
    assert_eq!(response.id, Some(3));
    assert_eq!(response.error.unwrap().code, -32602);
}

#[test]
fn resources_hold_insert_and_remove() {
    let mut resources: Resources<VoteCounter> = Resources::new();
    assert!(!resources.contains());
    assert!(resources.get().is_none());
    resources.insert(VoteCounter(3));
    assert!(resources.contains());
    assert_eq!(resources.get().unwrap().0, 3);
    if let Some(counter) = resources.get_mut() {
        counter.0 += 1;
    }
    assert_eq!(resources.get().unwrap().0, 4);
    let taken = resources.remove().unwrap();
    assert_eq!(taken.0, 4);
    assert!(!resources.contains());
    assert!(resources.remove().is_none());
}

#[test]
fn resource_scope_runs_on_the_held_resource() {
    let mut resources: Resources<VoteCounter> = Resources::new();
    assert!(resources.resource_scope(|c: &VoteCounter| c.0).is_none());
    resources.insert(VoteCounter(5));
    assert_eq!(resources.resource_scope(|c: &VoteCounter| c.0 * 2), Some(10));
    let doubled = resources.resource_scope_mut(|c: &mut VoteCounter| {
        c.0 *= 2;
        c.0
    });
    assert_eq!(doubled, Some(10));
    assert_eq!(resources.get().unwrap().0, 10);
}

#[test]
fn app_resource_accessors_work() {
    let mut app: App<VoteCounter, VoteService> = App::new();
    assert!(!app.has_resource());
    assert!(app.resource().is_none());
    app.insert_resource(VoteCounter(7));
    assert!(app.has_resource());
    assert_eq!(app.resource().unwrap().0, 7);
    if let Some(counter) = app.resource_mut() {
        counter.0 = 9;
    }
    assert_eq!(app.resource().unwrap().0, 9);
}

#[test]
fn registering_a_method_again_replaces_its_handler() {
    let mut app: App<VoteCounter, VoteService> = App::new();
    app.add_service("vote".to_string(), VoteService);
    app.add_service("vote".to_string(), VoteService);
    let params = VoteRequest {
        player_id: "p".to_string(),
        room_id: "r".to_string(),
        card: "1".to_string(),
    };
    let request = RpcRequest::new("vote".to_string(), encode_vote_request(&params), None);
    let response = app.run(request);
    assert!(response.error.is_none());
}

#[test]
fn error_codes_and_descriptions_are_standard() {
    assert_eq!(RpcErrorCode::ParseError.code(), -32700);
    assert_eq!(RpcErrorCode::InvalidRequest.code(), -32600);
    assert_eq!(RpcErrorCode::MethodNotFound.code(), -32601);
    assert_eq!(RpcErrorCode::InvalidParams.code(), -32602);
    assert_eq!(RpcErrorCode::InternalError.code(), -32603);
    assert_eq!(RpcErrorCode::ServerError.code(), -32000);
    assert_eq!(RpcErrorCode::ParseError.description(), "Parse error");
    assert_eq!(RpcErrorCode::MethodNotFound.description(), "Method not found");
    assert_eq!(RpcErrorCode::ServerError.description(), "Server error");
}

#[test]
fn error_responses_carry_the_error_and_id() {
    let error = RpcError::new(RpcErrorCode::ServerError, "down".to_string());
    assert_eq!(error.code, -32000);
    assert_eq!(error.message, "down".to_string());
    assert!(error.data.is_none());
    let response = RpcResponse::error(error, Some(2));
    assert!(response.result.is_none());
    assert_eq!(response.id, Some(2));
    assert_eq!(response.error.unwrap().code, -32000);
}

#[test]
fn request_constructor_keeps_its_fields() {
    let request = RpcRequest::new("m".to_string(), vec![1, 2, 3], Some(4));
    assert_eq!(request.method, "m".to_string());
    assert_eq!(request.params, vec![1, 2, 3]);
    assert_eq!(request.id, Some(4));
}

#[test]
fn directory_layout_hangs_off_the_home_directory() {
    let dirs = Dirs::new("/home/sam", "poker");
    assert_eq!(dirs.config_dir, "/home/sam/.poker/config".to_string());
    assert_eq!(dirs.data_dir, "/home/sam/.poker/data".to_string());
    assert_eq!(dirs.cache_dir, "/home/sam/.poker/cache".to_string());
}
