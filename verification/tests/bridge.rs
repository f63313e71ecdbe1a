use rlogind::bridge::{
    BridgeMode, Channel, ChildState, Endpoint, Lifecycle, ProcessBridge, Side,
};
use rlogind::command::Command;

fn end(channel: Channel, side: Side) -> Endpoint {
    Endpoint { channel, side }
}

fn closes(side: Side) -> Vec<Command> {
    vec![
        Command::Close(end(Channel::Input, side)),
        Command::Close(end(Channel::Output, side)),
        Command::Close(end(Channel::Error, side)),
    ]
}

#[test]
fn new_bridge_has_nothing() {
    let bridge = ProcessBridge::new(BridgeMode::Piped);
    assert_eq!(bridge.mode, BridgeMode::Piped);
    assert_eq!(bridge.child, ChildState::Absent);
    assert_eq!(bridge.status(end(Channel::Input, Side::Parent)), Lifecycle::Unopened);
    assert_eq!(bridge.status(end(Channel::Error, Side::Child)), Lifecycle::Unopened);
}

#[test]
fn opening_with_pipes_opens_both_sides() {
    let mut bridge = ProcessBridge::new(BridgeMode::Piped);
    bridge.opened();
    assert_eq!(bridge.parent_ends, Lifecycle::Open);
    assert_eq!(bridge.child_ends, Lifecycle::Open);
    assert_eq!(bridge.child, ChildState::Absent);
}

#[test]
fn opening_with_duplicates_opens_the_child_side_only() {
    let mut bridge = ProcessBridge::new(BridgeMode::Duplicated);
    bridge.opened();
    assert_eq!(bridge.parent_ends, Lifecycle::Unopened);
    assert_eq!(bridge.child_ends, Lifecycle::Open);
}

#[test]
fn opening_twice_is_opening_once() {
    let mut bridge = ProcessBridge::new(BridgeMode::Piped);
    bridge.opened();
    let once = bridge;
    bridge.opened();
    assert_eq!(bridge, once);
}

#[test]
fn spawning_closes_the_child_ends_at_once() {
    let mut bridge = ProcessBridge::new(BridgeMode::Piped);
    bridge.opened();
    let commands = bridge.spawned();
    assert_eq!(commands, closes(Side::Child));
    assert_eq!(bridge.child, ChildState::Running);
    assert_eq!(bridge.child_ends, Lifecycle::Closed);
    assert_eq!(bridge.parent_ends, Lifecycle::Open);
}

#[test]
fn spawning_without_endpoints_changes_nothing() {
    let mut bridge = ProcessBridge::new(BridgeMode::Piped);
    let commands = bridge.spawned();
    assert_eq!(commands, Vec::<Command>::new());
    assert_eq!(bridge, ProcessBridge::new(BridgeMode::Piped));
}

#[test]
fn spawning_twice_closes_once() {
    let mut bridge = ProcessBridge::new(BridgeMode::Duplicated);
    bridge.opened();
    assert_eq!(bridge.spawned(), closes(Side::Child));
    assert_eq!(bridge.spawned(), Vec::<Command>::new());
    assert_eq!(bridge.child, ChildState::Running);
}

#[test]
fn release_of_a_running_child_with_pipes() {
    let mut bridge = ProcessBridge::new(BridgeMode::Piped);
    bridge.opened();
    bridge.spawned();
    let mut expected = vec![Command::Terminate];
    expected.extend(closes(Side::Parent));
    assert_eq!(bridge.release(), expected);
    assert_eq!(bridge.child, ChildState::Terminating);
    assert_eq!(bridge.parent_ends, Lifecycle::Closed);
    assert_eq!(bridge.child_ends, Lifecycle::Closed);
}

#[test]
fn release_of_a_running_child_with_duplicates() {
    let mut bridge = ProcessBridge::new(BridgeMode::Duplicated);
    bridge.opened();
    bridge.spawned();
    assert_eq!(bridge.release(), vec![Command::Terminate]);
    assert_eq!(bridge.child, ChildState::Terminating);
    assert_eq!(bridge.parent_ends, Lifecycle::Unopened);
}

#[test]
fn release_after_failed_spawn_closes_both_sides() {
    let mut bridge = ProcessBridge::new(BridgeMode::Piped);
    bridge.opened();
    let mut expected = closes(Side::Child);
    expected.extend(closes(Side::Parent));
    assert_eq!(bridge.release(), expected);
    assert_eq!(bridge.child, ChildState::Absent);
}

#[test]
fn release_of_nothing_says_nothing() {
    let mut bridge = ProcessBridge::new(BridgeMode::Piped);
    assert_eq!(bridge.release(), Vec::<Command>::new());
    assert_eq!(bridge, ProcessBridge::new(BridgeMode::Piped));
}

#[test]
fn release_twice_says_nothing_the_second_time() {
    let mut bridge = ProcessBridge::new(BridgeMode::Piped);
    bridge.opened();
    bridge.spawned();
    assert_eq!(bridge.release().len(), 4);
    let once = bridge;
    assert_eq!(bridge.release(), Vec::<Command>::new());
    assert_eq!(bridge, once);
}

#[test]
fn exited_child_is_not_asked_to_end() {
    let mut bridge = ProcessBridge::new(BridgeMode::Piped);
    bridge.opened();
    bridge.spawned();
    bridge.exited();
    assert_eq!(bridge.child, ChildState::Exited);
    assert_eq!(bridge.release(), closes(Side::Parent));
    assert_eq!(bridge.child, ChildState::Exited);
}

#[test]
fn exited_only_applies_to_a_running_child() {
    let mut bridge = ProcessBridge::new(BridgeMode::Piped);
    bridge.exited();
    assert_eq!(bridge.child, ChildState::Absent);
}

#[test]
fn reaped_follows_terminating_only() {
    let mut bridge = ProcessBridge::new(BridgeMode::Piped);
    bridge.opened();
    bridge.spawned();
    bridge.reaped();
    assert_eq!(bridge.child, ChildState::Running);
    bridge.release();
    bridge.reaped();
    assert_eq!(bridge.child, ChildState::Reaped);
}

#[test]
fn the_three_child_ends_differ() {
    let ends = closes(Side::Child);
    assert_ne!(ends[0], ends[1]);
    assert_ne!(ends[0], ends[2]);
    assert_ne!(ends[1], ends[2]);
}

#[test]
fn interpreter_is_the_plain_shell() {
    assert_eq!(rlogind::bridge::INTERPRETER, "/bin/sh");
}
