use scrum_poker::{
    handle_ctrl, CtrlRequest, CtrlResponse, EstimateVisibility, HealthStatus, Room, RoomRegistry,
};

#[test]
fn spawn_or_find_reuses_a_live_room() {
    let mut registry: RoomRegistry<u32> = RoomRegistry::new();
    assert!(registry.find(&"alpha".to_string()).is_none());
    registry.insert("alpha".to_string(), 10);
    registry.insert("beta".to_string(), 20);
    let i = registry.find(&"alpha".to_string()).unwrap();
    assert_eq!(*registry.get(i), 10);
    let j = registry.find(&"beta".to_string()).unwrap();
    assert_eq!(*registry.get(j), 20);
}

#[test]
fn evicted_room_respawns_fresh() {
    let mut registry: RoomRegistry<u32> = RoomRegistry::new();
    registry.insert("alpha".to_string(), 10);
    registry.insert("beta".to_string(), 20);
    registry.remove(&"alpha".to_string());
    assert!(registry.find(&"alpha".to_string()).is_none());
    let j = registry.find(&"beta".to_string()).unwrap();
    assert_eq!(*registry.get(j), 20);
    let fresh = Room::new("alpha".to_string());
    assert!(fresh.is_room_empty());
    assert_eq!(fresh.visibility, EstimateVisibility::Hidden);
    registry.insert("alpha".to_string(), 11);
    let i = registry.find(&"alpha".to_string()).unwrap();
    assert_eq!(*registry.get(i), 11);
}

#[test]
fn removing_an_unknown_room_is_harmless() {
    let mut registry: RoomRegistry<u32> = RoomRegistry::new();
    registry.insert("alpha".to_string(), 10);
    registry.remove(&"gone".to_string());
    let i = registry.find(&"alpha".to_string()).unwrap();
    assert_eq!(*registry.get(i), 10);
}

#[test]
fn health_check_reports_healthy() {
    let response = handle_ctrl(&CtrlRequest::HealthCheck);
    assert_eq!(response, CtrlResponse::Health(HealthStatus::Healthy));
}
