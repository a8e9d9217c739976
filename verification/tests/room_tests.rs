use scrum_poker::{
    cleanup_probe_plan, sort_participants_by_estimate, Estimate, EstimateVisibility, Participant,
    ParticipantStatus, Room, RoomBroadcastMessage, RoomRequest, RoomResponse,
};

fn new_room(id: &str) -> Room {
    Room::new(id.to_string())
}

fn roster_of(response: RoomResponse) -> (Vec<Participant>, EstimateVisibility) {
    match response {
        RoomResponse::RoomState(roster, visibility) => (roster, visibility),
        RoomResponse::Ack => panic!("expected a roster snapshot"),
    }
}

#[test]
fn joins_with_distinct_sessions_build_the_roster() {
    let mut room = new_room("alpha");
    room.update_room(RoomRequest::Join(Participant::new(1, "Ann".to_string())));
    room.update_room(RoomRequest::Join(Participant::new(2, "Ben".to_string())));
    let out = room.update_room(RoomRequest::Join(Participant::new(3, "Cal".to_string())));
    let (roster, visibility) = roster_of(out.response);
    assert_eq!(visibility, EstimateVisibility::Hidden);
    assert_eq!(roster.len(), 3);
    let ids: Vec<u128> = roster.iter().map(|p| p.session_id).collect();
    assert_eq!(ids, vec![1, 2, 3]);
    for p in &roster {
        assert_eq!(p.status, ParticipantStatus::Online);
        assert_eq!(p.estimate, Estimate::Unset);
    }
}

#[test]
fn rejoin_updates_without_duplicating() {
    let mut room = new_room("alpha");
    room.update_room(RoomRequest::Join(Participant::new(1, "Ann".to_string())));
    room.update_room(RoomRequest::SendEstimate(1, Estimate::Five));
    room.update_room(RoomRequest::Leave(1));
    let out = room.update_room(RoomRequest::Join(Participant::new(1, "Annie".to_string())));
    assert!(out.broadcasts.is_empty());
    let (roster, _) = roster_of(out.response);
    assert_eq!(roster.len(), 1);
    assert_eq!(roster[0].session_id, 1);
    assert_eq!(roster[0].name, "Annie".to_string());
    assert_eq!(roster[0].status, ParticipantStatus::Online);
    assert_eq!(roster[0].estimate, Estimate::Five);
}

#[test]
fn join_announces_new_participants_only() {
    let mut room = new_room("alpha");
    let out = room.update_room(RoomRequest::Join(Participant::new(7, "Gil".to_string())));
    assert_eq!(out.broadcasts.len(), 1);
    match &out.broadcasts[0] {
        RoomBroadcastMessage::Joined(p) => {
            assert_eq!(p.session_id, 7);
            assert_eq!(p.name, "Gil".to_string());
        },
        other => panic!("unexpected broadcast {:?}", other),
    }
}

#[test]
fn send_estimate_updates_roster_and_broadcasts_once() {
    let mut room = new_room("alpha");
    room.update_room(RoomRequest::Join(Participant::new(1, "Ann".to_string())));
    let out = room.update_room(RoomRequest::SendEstimate(1, Estimate::Eight));
    assert_eq!(out.broadcasts.len(), 1);
    match &out.broadcasts[0] {
        RoomBroadcastMessage::ParticipantUpdate(p) => {
            assert_eq!(p.session_id, 1);
            assert_eq!(p.estimate, Estimate::Eight);
        },
        other => panic!("unexpected broadcast {:?}", other),
    }
    let out = room.update_room(RoomRequest::Join(Participant::new(2, "Ben".to_string())));
    let (roster, _) = roster_of(out.response);
    assert_eq!(roster[0].estimate, Estimate::Eight);
}

#[test]
fn stale_estimate_is_discarded() {
    let mut room = new_room("alpha");
    room.update_room(RoomRequest::Join(Participant::new(1, "Ann".to_string())));
    let out = room.update_room(RoomRequest::SendEstimate(99, Estimate::Two));
    assert!(out.broadcasts.is_empty());
    let out = room.update_room(RoomRequest::Join(Participant::new(1, "Ann".to_string())));
    let (roster, _) = roster_of(out.response);
    assert_eq!(roster.len(), 1);
    assert_eq!(roster[0].estimate, Estimate::Unset);
}

#[test]
fn visibility_toggles_and_double_toggle_restores() {
    let mut room = new_room("alpha");
    let out = room.update_room(RoomRequest::ChangeVisibility);
    assert_eq!(out.broadcasts.len(), 1);
    match &out.broadcasts[0] {
        RoomBroadcastMessage::ChangedVisibility(v) => assert_eq!(*v, EstimateVisibility::Visible),
        other => panic!("unexpected broadcast {:?}", other),
    }
    let out = room.update_room(RoomRequest::ChangeVisibility);
    assert_eq!(out.broadcasts.len(), 1);
    match &out.broadcasts[0] {
        RoomBroadcastMessage::ChangedVisibility(v) => assert_eq!(*v, EstimateVisibility::Hidden),
        other => panic!("unexpected broadcast {:?}", other),
    }
    let out = room.update_room(RoomRequest::Join(Participant::new(1, "Ann".to_string())));
    let (_, visibility) = roster_of(out.response);
    assert_eq!(visibility, EstimateVisibility::Hidden);
}

#[test]
fn delete_estimates_resets_everyone_and_hides() {
    let mut room = new_room("alpha");
    room.update_room(RoomRequest::Join(Participant::new(1, "Ann".to_string())));
    room.update_room(RoomRequest::Join(Participant::new(2, "Ben".to_string())));
    room.update_room(RoomRequest::SendEstimate(1, Estimate::Five));
    room.update_room(RoomRequest::SendEstimate(2, Estimate::Coffe));
    room.update_room(RoomRequest::ChangeVisibility);
    let out = room.update_room(RoomRequest::DeleteEstimates);
    assert_eq!(out.broadcasts.len(), 1);
    assert!(matches!(out.broadcasts[0], RoomBroadcastMessage::EstimatesDeleted));
    let out = room.update_room(RoomRequest::Join(Participant::new(3, "Cal".to_string())));
    let (roster, visibility) = roster_of(out.response);
    assert_eq!(visibility, EstimateVisibility::Hidden);
    for p in &roster {
        assert_eq!(p.estimate, Estimate::Unset);
    }
}

#[test]
fn heartbeat_before_probe_cancels_removal() {
    let mut room = new_room("alpha");
    room.update_room(RoomRequest::Join(Participant::new(1, "Ann".to_string())));
    let out = room.update_room(RoomRequest::Leave(1));
    assert!(out.broadcasts.is_empty());
    assert_eq!(out.probe, Some(1));
    let (heartbeat_request, remove_request) = cleanup_probe_plan(1);
    assert!(matches!(heartbeat_request, RoomBroadcastMessage::RoomRequestedHeartbeat));
    let out = room.update_room(RoomRequest::Heartbeat(1));
    assert!(out.broadcasts.is_empty());
    let out = room.update_room(remove_request);
    assert!(out.broadcasts.is_empty());
    let out = room.update_room(RoomRequest::Join(Participant::new(2, "Ben".to_string())));
    let (roster, _) = roster_of(out.response);
    assert_eq!(roster.len(), 2);
    assert_eq!(roster[0].session_id, 1);
    assert_eq!(roster[0].status, ParticipantStatus::Online);
}

#[test]
fn unanswered_probe_removes_exactly_once() {
    let mut room = new_room("alpha");
    room.update_room(RoomRequest::Join(Participant::new(1, "Ann".to_string())));
    room.update_room(RoomRequest::Join(Participant::new(2, "Ben".to_string())));
    let out = room.update_room(RoomRequest::Leave(1));
    assert_eq!(out.probe, Some(1));
    let (heartbeat_request, remove_request) = cleanup_probe_plan(1);
    assert!(matches!(heartbeat_request, RoomBroadcastMessage::RoomRequestedHeartbeat));
    let out = room.update_room(remove_request);
    assert_eq!(out.broadcasts.len(), 1);
    match &out.broadcasts[0] {
        RoomBroadcastMessage::Left(sid) => assert_eq!(*sid, 1),
        other => panic!("unexpected broadcast {:?}", other),
    }
    let (_, second_remove) = cleanup_probe_plan(1);
    let out = room.update_room(second_remove);
    assert!(out.broadcasts.is_empty());
    let out = room.update_room(RoomRequest::Join(Participant::new(3, "Cal".to_string())));
    let (roster, _) = roster_of(out.response);
    assert!(roster.iter().all(|p| p.session_id != 1));
}

#[test]
fn leave_of_unknown_session_schedules_nothing() {
    let mut room = new_room("alpha");
    let out = room.update_room(RoomRequest::Leave(42));
    assert_eq!(out.probe, None);
    assert!(out.broadcasts.is_empty());
}

#[test]
fn name_change_updates_and_broadcasts() {
    let mut room = new_room("alpha");
    room.update_room(RoomRequest::Join(Participant::new(1, "Ann".to_string())));
    let out = room.update_room(RoomRequest::NameChange(1, "Anna".to_string()));
    assert_eq!(out.broadcasts.len(), 1);
    match &out.broadcasts[0] {
        RoomBroadcastMessage::ParticipantUpdate(p) => {
            assert_eq!(p.session_id, 1);
            assert_eq!(p.name, "Anna".to_string());
        },
        other => panic!("unexpected broadcast {:?}", other),
    }
}

#[test]
fn empty_room_reports_itself_empty() {
    let mut room = new_room("alpha");
    assert!(room.is_room_empty());
    room.update_room(RoomRequest::Join(Participant::new(1, "Ann".to_string())));
    assert!(!room.is_room_empty());
    room.update_room(RoomRequest::Leave(1));
    let (_, remove_request) = cleanup_probe_plan(1);
    room.update_room(remove_request);
    assert!(room.is_room_empty());
}

#[test]
fn full_session_scenario_broadcast_order_and_sorted_reveal() {
    let mut room = new_room("alpha");
    let mut broadcasts: Vec<RoomBroadcastMessage> = Vec::new();
    let mut last_state: Option<(Vec<Participant>, EstimateVisibility)> = None;
    let requests = vec![
        RoomRequest::Join(Participant::new(1, "A".to_string())),
        RoomRequest::Join(Participant::new(2, "B".to_string())),
        RoomRequest::SendEstimate(1, Estimate::Five),
        RoomRequest::SendEstimate(2, Estimate::Eight),
        RoomRequest::ChangeVisibility,
    ];
    for request in requests {
        let out = room.update_room(request);
        broadcasts.extend(out.broadcasts);
        if let RoomResponse::RoomState(roster, visibility) = out.response {
            last_state = Some((roster, visibility));
        }
    }
    assert_eq!(broadcasts.len(), 5);
    match &broadcasts[0] {
        RoomBroadcastMessage::Joined(p) => assert_eq!((p.session_id, p.name.as_str()), (1, "A")),
        other => panic!("unexpected broadcast {:?}", other),
    }
    match &broadcasts[1] {
        RoomBroadcastMessage::Joined(p) => assert_eq!((p.session_id, p.name.as_str()), (2, "B")),
        other => panic!("unexpected broadcast {:?}", other),
    }
    match &broadcasts[2] {
        RoomBroadcastMessage::ParticipantUpdate(p) => {
            assert_eq!((p.session_id, p.estimate), (1, Estimate::Five))
        },
        other => panic!("unexpected broadcast {:?}", other),
    }
    match &broadcasts[3] {
        RoomBroadcastMessage::ParticipantUpdate(p) => {
            assert_eq!((p.session_id, p.estimate), (2, Estimate::Eight))
        },
        other => panic!("unexpected broadcast {:?}", other),
    }
    match &broadcasts[4] {
        RoomBroadcastMessage::ChangedVisibility(v) => assert_eq!(*v, EstimateVisibility::Visible),
        other => panic!("unexpected broadcast {:?}", other),
    }
    let out = room.update_room(RoomRequest::Join(Participant::new(3, "C".to_string())));
    let (final_roster, visibility) = roster_of(out.response);
    assert_eq!(visibility, EstimateVisibility::Visible);
    let (first_roster, _) = last_state.unwrap();
    assert_eq!(first_roster.len(), 2);
    let mut voted: Vec<Participant> = final_roster
        .into_iter()
        .filter(|p| p.session_id != 3)
        .collect();
    voted = sort_participants_by_estimate(&voted);
    assert_eq!(voted.len(), 2);
    assert_eq!((voted[0].name.as_str(), voted[0].estimate), ("A", Estimate::Five));
    assert_eq!((voted[1].name.as_str(), voted[1].estimate), ("B", Estimate::Eight));
}
