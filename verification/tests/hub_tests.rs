use relay::hub::{hub_step, HubAction, HubEvent};
use relay::message::MessageType;
use relay::registry::Registry;

fn targets_of(act: &HubAction) -> Vec<String> {
    match act {
        HubAction::Deliver(targets, _) => targets.clone(),
        _ => panic!("expected a delivery"),
    }
}

fn frame_of(act: &HubAction) -> Vec<u8> {
    match act {
        HubAction::Deliver(_, frame) => frame.clone(),
        _ => panic!("expected a delivery"),
    }
}

#[test]
fn broadcast_excludes_sender() {
    let mut reg = Registry::new();
    reg.register(String::from("a:1"));
    reg.register(String::from("b:2"));
    reg.register(String::from("c:3"));
    let targets = reg.broadcast_targets("a:1");
    assert!(!targets.contains(&String::from("a:1")));
    assert!(targets.contains(&String::from("b:2")));
    assert!(targets.contains(&String::from("c:3")));
    assert_eq!(targets.len(), 2);
}

#[test]
fn registering_twice_lists_once() {
    let mut reg = Registry::new();
    reg.register(String::from("a:1"));
    reg.register(String::from("a:1"));
    reg.register(String::from("b:2"));
    let targets = reg.broadcast_targets("b:2");
    assert_eq!(targets, vec![String::from("a:1")]);
}

#[test]
fn frame_event_fans_out_one_shared_frame() {
    let mut reg = Registry::new();
    for id in ["a:1", "b:2", "c:3"] {
        let act = hub_step(&mut reg, HubEvent::Accepted(String::from(id)));
        assert!(matches!(act, HubAction::Idle));
    }
    let payload = MessageType::Text(String::from("hi all")).serialize_message();
    let act = hub_step(&mut reg, HubEvent::Frame(String::from("a:1"), payload.clone()));
    let targets = targets_of(&act);
    let frame = frame_of(&act);
    assert!(!targets.contains(&String::from("a:1")));
    assert!(targets.contains(&String::from("b:2")));
    assert!(targets.contains(&String::from("c:3")));
    // the frame is the payload behind its 4-byte length, shared by all
    assert_eq!(&frame[4..], &payload[..]);
    // a failed write to b changes nothing for c: the plan still pairs c
    // with the same frame, and the registry still lists everyone
    let failed = String::from("b:2");
    let reached: Vec<&String> = targets.iter().filter(|t| **t != failed).collect();
    assert_eq!(reached, vec![&String::from("c:3")]);
    assert!(reg.contains("a:1") && reg.contains("b:2") && reg.contains("c:3"));
}

#[test]
fn corrupt_frame_drops_only_that_connection() {
    let mut reg = Registry::new();
    hub_step(&mut reg, HubEvent::Accepted(String::from("a:1")));
    hub_step(&mut reg, HubEvent::Accepted(String::from("b:2")));
    let act = hub_step(&mut reg, HubEvent::Frame(String::from("a:1"), vec![9, 9]));
    assert!(matches!(act, HubAction::Disconnect(ref id) if id == "a:1"));
    assert!(!reg.contains("a:1"));
    assert!(reg.contains("b:2"));
}

#[test]
fn disconnect_cleanup_removes_peer_from_later_broadcasts() {
    let mut reg = Registry::new();
    for id in ["a:1", "b:2", "c:3"] {
        hub_step(&mut reg, HubEvent::Accepted(String::from(id)));
    }
    let act = hub_step(&mut reg, HubEvent::Closed(String::from("b:2")));
    assert!(matches!(act, HubAction::Idle));
    assert!(!reg.contains("b:2"));
    let payload = MessageType::Text(String::from("later")).serialize_message();
    let act = hub_step(&mut reg, HubEvent::Frame(String::from("c:3"), payload));
    let targets = targets_of(&act);
    assert!(!targets.contains(&String::from("b:2")));
    assert_eq!(targets, vec![String::from("a:1")]);
}
