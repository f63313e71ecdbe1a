use rlogind::bridge::{BridgeMode, Channel, ChildState, Endpoint, Lifecycle, Side};
use rlogind::codec::{encode_greeting, encode_handshake, encode_rejection, HandshakeFrame};
use rlogind::command::{Command, Event, Notice};
use rlogind::handler::{ConnectionHandler, Phase, State, HANDSHAKE_LIMIT};
use rlogind::identity::Identity;
use rlogind::relay::{Observation, Polled, Watch};

const ALL: Watch = Watch { peer: true, output: true, error: true };
const NONE: Watch = Watch { peer: false, output: false, error: false };

fn handler(expected: &str, allow_root: bool, mode: BridgeMode) -> ConnectionHandler {
    ConnectionHandler::new(Identity::new(String::from(expected), allow_root), mode)
}

fn claim(name: &[u8]) -> Vec<u8> {
    encode_handshake(&HandshakeFrame {
        client_user_hint: b"client".to_vec(),
        server_user_claim: name.to_vec(),
        terminal_spec: b"xterm/38400".to_vec(),
    })
}

fn closes(side: Side) -> Vec<Command> {
    vec![
        Command::Close(Endpoint { channel: Channel::Input, side }),
        Command::Close(Endpoint { channel: Channel::Output, side }),
        Command::Close(Endpoint { channel: Channel::Error, side }),
    ]
}

fn idle(child_exited: bool) -> Observation {
    Observation { peer: Polled::Idle, output: Polled::Idle, error: Polled::Idle, child_exited }
}

/// Takes a fresh handler to the point where it waits for the handshake.
fn awaiting(expected: &str, allow_root: bool, mode: BridgeMode) -> ConnectionHandler {
    let mut h = handler(expected, allow_root, mode);
    assert_eq!(h.step(Event::Started), vec![Command::ReadHandshake(HANDSHAKE_LIMIT)]);
    h
}

/// Takes a fresh handler to an established session.
fn established(mode: BridgeMode) -> ConnectionHandler {
    let mut h = awaiting("alice", false, mode);
    h.step(Event::Received(claim(b"alice")));
    h.step(Event::Delivered);
    h.step(Event::Opened);
    h.step(Event::Spawned);
    assert_eq!(h.state(), State::Established);
    h
}

#[test]
fn handshake_limit_is_256_bytes() {
    assert_eq!(HANDSHAKE_LIMIT, 256);
}

#[test]
fn fresh_handler_is_initial() {
    let h = handler("alice", false, BridgeMode::Piped);
    assert_eq!(h.state(), State::Initial);
    assert_eq!(h.phase, Phase::Initial);
    assert!(!h.released);
    assert_eq!(h.bridge.child, ChildState::Absent);
}

#[test]
fn start_asks_for_the_handshake() {
    let mut h = handler("alice", false, BridgeMode::Piped);
    assert_eq!(h.step(Event::Started), vec![Command::ReadHandshake(256)]);
    assert_eq!(h.state(), State::Authenticating);
    assert_eq!(h.phase, Phase::AwaitingHandshake);
}

#[test]
fn expected_claim_is_greeted() {
    let mut h = awaiting("alice", false, BridgeMode::Piped);
    let commands = h.step(Event::Received(claim(b"alice")));
    assert_eq!(
        commands,
        vec![Command::Report(Notice::Authenticated), Command::Send(encode_greeting())]
    );
    assert_eq!(h.state(), State::Authenticating);
    assert_eq!(h.phase, Phase::Greeting);
}

#[test]
fn other_claim_is_rejected() {
    let mut h = awaiting("alice", false, BridgeMode::Piped);
    let commands = h.step(Event::Received(claim(b"mallory")));
    assert_eq!(
        commands,
        vec![Command::Report(Notice::AuthenticationFailed), Command::Send(encode_rejection())]
    );
    assert_eq!(h.state(), State::Closing);
}

#[test]
fn root_claim_is_greeted_where_permitted() {
    let mut h = awaiting("alice", true, BridgeMode::Piped);
    let commands = h.step(Event::Received(claim(b"root")));
    assert_eq!(commands[1], Command::Send(b"\0\xe2\x9b\xb3Coucou\r\n".to_vec()));
    assert_eq!(h.phase, Phase::Greeting);
}

#[test]
fn root_claim_is_rejected_where_not_permitted() {
    let mut h = awaiting("alice", false, BridgeMode::Piped);
    let commands = h.step(Event::Received(claim(b"root")));
    assert_eq!(commands[1], Command::Send(b"Login incorrect.\r\n".to_vec()));
    assert_eq!(h.state(), State::Closing);
}

#[test]
fn claim_with_blanks_around_is_rejected() {
    let mut h = awaiting("alice", false, BridgeMode::Piped);
    let commands = h.step(Event::Received(claim(b" alice ")));
    assert_eq!(commands[1], Command::Send(encode_rejection()));
}

#[test]
fn frame_without_leading_zero_is_read_the_same() {
    let mut h = awaiting("alice", false, BridgeMode::Piped);
    let commands = h.step(Event::Received(b"client\0alice\0vt100".to_vec()));
    assert_eq!(commands[1], Command::Send(encode_greeting()));
}

#[test]
fn frames_that_stop_short_are_rejected() {
    let short: Vec<&[u8]> = vec![b"\0", b"alice", b"\0alice", b"\0alice\0", b"\0\0", b"x\0"];
    for buffer in short {
        let mut h = awaiting("alice", true, BridgeMode::Piped);
        let commands = h.step(Event::Received(buffer.to_vec()));
        assert_eq!(
            commands,
            vec![Command::Report(Notice::AuthenticationFailed), Command::Send(encode_rejection())]
        );
        assert_eq!(h.state(), State::Closing);
        assert_eq!(h.teardown(), vec![Command::Disconnect]);
    }
}

#[test]
fn frame_of_two_fields_is_decided_by_its_claim() {
    let mut h = awaiting("alice", false, BridgeMode::Piped);
    let commands = h.step(Event::Received(b"\0client\0alice".to_vec()));
    assert_eq!(commands[1], Command::Send(encode_greeting()));
    let mut h = awaiting("alice", false, BridgeMode::Piped);
    let commands = h.step(Event::Received(b"\0client\0bob".to_vec()));
    assert_eq!(commands[1], Command::Send(encode_rejection()));
}

#[test]
fn nothing_received_means_the_peer_has_gone() {
    let mut h = awaiting("alice", false, BridgeMode::Piped);
    let commands = h.step(Event::Received(Vec::new()));
    assert_eq!(commands, vec![Command::Report(Notice::PeerDisconnected)]);
    assert_eq!(h.state(), State::Closing);
}

#[test]
fn failed_read_ends_the_connection() {
    let mut h = awaiting("alice", false, BridgeMode::Piped);
    let commands = h.step(Event::Failed);
    assert_eq!(commands, vec![Command::Report(Notice::TransportError)]);
    assert_eq!(h.state(), State::Closing);
}

#[test]
fn delivered_greeting_asks_for_the_endpoints() {
    for mode in [BridgeMode::Piped, BridgeMode::Duplicated] {
        let mut h = awaiting("alice", false, mode);
        h.step(Event::Received(claim(b"alice")));
        assert_eq!(h.step(Event::Delivered), vec![Command::OpenChannels(mode)]);
        assert_eq!(h.phase, Phase::Opening);
        assert_eq!(h.state(), State::Authenticating);
    }
}

#[test]
fn failed_greeting_ends_the_connection_without_child() {
    let mut h = awaiting("alice", false, BridgeMode::Piped);
    h.step(Event::Received(claim(b"alice")));
    assert_eq!(h.step(Event::Failed), vec![Command::Report(Notice::TransportError)]);
    assert_eq!(h.state(), State::Closing);
    assert_eq!(h.teardown(), vec![Command::Disconnect]);
}

#[test]
fn opened_endpoints_ask_for_the_child() {
    let mut h = awaiting("alice", false, BridgeMode::Piped);
    h.step(Event::Received(claim(b"alice")));
    h.step(Event::Delivered);
    assert_eq!(h.step(Event::Opened), vec![Command::Launch]);
    assert_eq!(h.phase, Phase::Spawning);
    assert_eq!(h.bridge.child_ends, Lifecycle::Open);
    assert_eq!(h.bridge.parent_ends, Lifecycle::Open);
}

#[test]
fn failed_opening_is_a_spawn_failure() {
    let mut h = awaiting("alice", false, BridgeMode::Piped);
    h.step(Event::Received(claim(b"alice")));
    h.step(Event::Delivered);
    assert_eq!(h.step(Event::Failed), vec![Command::Report(Notice::SpawnFailed)]);
    assert_eq!(h.state(), State::Closing);
    assert_eq!(h.teardown(), vec![Command::Disconnect]);
}

#[test]
fn failed_spawn_closes_all_endpoints() {
    let mut h = awaiting("alice", false, BridgeMode::Piped);
    h.step(Event::Received(claim(b"alice")));
    h.step(Event::Delivered);
    h.step(Event::Opened);
    assert_eq!(h.step(Event::Failed), vec![Command::Report(Notice::SpawnFailed)]);
    assert_eq!(h.state(), State::Closing);
    let mut expected = closes(Side::Child);
    expected.extend(closes(Side::Parent));
    expected.push(Command::Disconnect);
    assert_eq!(h.teardown(), expected);
    assert_eq!(h.bridge.child, ChildState::Absent);
}

#[test]
fn spawned_child_establishes_the_session_with_pipes() {
    let mut h = awaiting("alice", false, BridgeMode::Piped);
    h.step(Event::Received(claim(b"alice")));
    h.step(Event::Delivered);
    h.step(Event::Opened);
    let mut expected = closes(Side::Child);
    expected.push(Command::Poll(ALL));
    assert_eq!(h.step(Event::Spawned), expected);
    assert_eq!(h.state(), State::Established);
    assert_eq!(h.bridge.child, ChildState::Running);
    assert_eq!(h.bridge.child_ends, Lifecycle::Closed);
    assert_eq!(h.bridge.parent_ends, Lifecycle::Open);
}

#[test]
fn spawned_child_establishes_the_session_with_duplicates() {
    let mut h = awaiting("alice", false, BridgeMode::Duplicated);
    h.step(Event::Received(claim(b"alice")));
    h.step(Event::Delivered);
    h.step(Event::Opened);
    let mut expected = closes(Side::Child);
    expected.push(Command::Poll(NONE));
    assert_eq!(h.step(Event::Spawned), expected);
    assert_eq!(h.state(), State::Established);
    assert_eq!(h.bridge.parent_ends, Lifecycle::Unopened);
}

#[test]
fn relay_step_forwards_and_polls_again() {
    let mut h = established(BridgeMode::Piped);
    let commands = h.step(Event::Polled(Observation {
        peer: Polled::Data(b"echo hi\n".to_vec()),
        output: Polled::Data(b"hi\n".to_vec()),
        error: Polled::Data(b"warn\n".to_vec()),
        child_exited: false,
    }));
    assert_eq!(
        commands,
        vec![
            Command::Feed(b"echo hi\n".to_vec()),
            Command::Send(b"hi\nwarn\n".to_vec()),
            Command::Poll(ALL),
        ]
    );
    assert_eq!(h.state(), State::Established);
}

#[test]
fn idle_relay_step_only_polls_again() {
    let mut h = established(BridgeMode::Piped);
    assert_eq!(h.step(Event::Polled(idle(false))), vec![Command::Poll(ALL)]);
    assert_eq!(h.state(), State::Established);
}

#[test]
fn ended_output_is_dropped_from_the_watch() {
    let mut h = established(BridgeMode::Piped);
    let commands = h.step(Event::Polled(Observation {
        peer: Polled::Idle,
        output: Polled::End,
        error: Polled::Idle,
        child_exited: false,
    }));
    assert_eq!(commands, vec![Command::Poll(Watch { peer: true, output: false, error: true })]);
}

#[test]
fn peer_leaving_ends_the_session_and_the_child() {
    let mut h = established(BridgeMode::Piped);
    let commands = h.step(Event::Polled(Observation {
        peer: Polled::End,
        output: Polled::Idle,
        error: Polled::Idle,
        child_exited: false,
    }));
    assert_eq!(commands, vec![Command::Report(Notice::PeerDisconnected)]);
    assert_eq!(h.state(), State::Closing);
    let mut expected = vec![Command::Terminate];
    expected.extend(closes(Side::Parent));
    expected.push(Command::Disconnect);
    assert_eq!(h.teardown(), expected);
    assert_eq!(h.bridge.child, ChildState::Terminating);
    assert_eq!(h.teardown(), Vec::<Command>::new());
}

#[test]
fn child_ending_ends_the_session_in_that_step() {
    let mut h = established(BridgeMode::Piped);
    let commands = h.step(Event::Polled(Observation {
        peer: Polled::Idle,
        output: Polled::Data(b"logout\n".to_vec()),
        error: Polled::Idle,
        child_exited: true,
    }));
    assert_eq!(
        commands,
        vec![Command::Send(b"logout\n".to_vec()), Command::Report(Notice::ChildExited)]
    );
    assert_eq!(h.state(), State::Closing);
    assert_eq!(h.bridge.child, ChildState::Exited);
    let mut expected = closes(Side::Parent);
    expected.push(Command::Disconnect);
    assert_eq!(h.teardown(), expected);
}

#[test]
fn child_ending_with_duplicates_only_closes_the_connection() {
    let mut h = established(BridgeMode::Duplicated);
    assert_eq!(h.step(Event::Polled(idle(false))), vec![Command::Poll(NONE)]);
    assert_eq!(
        h.step(Event::Polled(idle(true))),
        vec![Command::Report(Notice::ChildExited)]
    );
    assert_eq!(h.teardown(), vec![Command::Disconnect]);
}

#[test]
fn broken_source_ends_the_session() {
    let mut h = established(BridgeMode::Piped);
    let commands = h.step(Event::Polled(Observation {
        peer: Polled::Broken,
        output: Polled::Data(b"lost".to_vec()),
        error: Polled::Idle,
        child_exited: false,
    }));
    assert_eq!(commands, vec![Command::Report(Notice::TransportError)]);
    assert_eq!(h.state(), State::Closing);
}

#[test]
fn failed_write_ends_the_session() {
    let mut h = established(BridgeMode::Piped);
    assert_eq!(h.step(Event::Failed), vec![Command::Report(Notice::TransportError)]);
    assert_eq!(h.state(), State::Closing);
    assert_eq!(h.bridge.child, ChildState::Running);
}

#[test]
fn failed_last_write_is_reported_before_teardown_only() {
    let mut h = awaiting("alice", false, BridgeMode::Piped);
    h.step(Event::Received(claim(b"bob")));
    assert_eq!(h.step(Event::Failed), vec![Command::Report(Notice::TransportError)]);
    h.teardown();
    assert_eq!(h.step(Event::Failed), Vec::<Command>::new());
}

#[test]
fn unclean_wait_is_reported_once() {
    let mut h = established(BridgeMode::Piped);
    h.step(Event::Failed);
    h.teardown();
    assert_eq!(h.step(Event::Reaped(false)), vec![Command::Report(Notice::ChildWaitFailed)]);
    assert_eq!(h.bridge.child, ChildState::Reaped);
    assert_eq!(h.step(Event::Reaped(false)), Vec::<Command>::new());
    assert_eq!(h.state(), State::Closing);
}

#[test]
fn clean_wait_is_silent() {
    let mut h = established(BridgeMode::Piped);
    h.step(Event::Failed);
    h.teardown();
    assert_eq!(h.step(Event::Reaped(true)), Vec::<Command>::new());
    assert_eq!(h.bridge.child, ChildState::Reaped);
}

#[test]
fn events_out_of_turn_change_nothing() {
    let mut h = handler("alice", false, BridgeMode::Piped);
    for event in [
        Event::Received(claim(b"alice")),
        Event::Delivered,
        Event::Opened,
        Event::Spawned,
        Event::Polled(idle(true)),
        Event::Reaped(false),
        Event::Failed,
    ] {
        assert_eq!(h.step(event), Vec::<Command>::new());
        assert_eq!(h, handler("alice", false, BridgeMode::Piped));
    }
    let mut h = awaiting("alice", false, BridgeMode::Piped);
    for event in [Event::Started, Event::Delivered, Event::Opened, Event::Spawned] {
        assert_eq!(h.step(event), Vec::<Command>::new());
        assert_eq!(h.phase, Phase::AwaitingHandshake);
    }
    let mut h = established(BridgeMode::Piped);
    for event in [Event::Started, Event::Received(claim(b"alice")), Event::Spawned, Event::Opened]
    {
        assert_eq!(h.step(event), Vec::<Command>::new());
        assert_eq!(h.state(), State::Established);
    }
}

#[test]
fn closing_is_the_end() {
    let mut h = awaiting("alice", false, BridgeMode::Piped);
    h.step(Event::Received(claim(b"bob")));
    for event in [
        Event::Started,
        Event::Received(claim(b"alice")),
        Event::Delivered,
        Event::Opened,
        Event::Spawned,
        Event::Polled(idle(false)),
        Event::Reaped(true),
    ] {
        assert_eq!(h.step(event), Vec::<Command>::new());
        assert_eq!(h.state(), State::Closing);
        assert_eq!(h.bridge.child, ChildState::Absent);
        assert_eq!(h.bridge.child_ends, Lifecycle::Unopened);
    }
}

#[test]
fn teardown_twice_has_no_further_effect() {
    for mode in [BridgeMode::Piped, BridgeMode::Duplicated] {
        let mut h = established(mode);
        let first = h.teardown();
        assert_eq!(first.last(), Some(&Command::Disconnect));
        assert_eq!(first[0], Command::Terminate);
        assert!(h.released);
        let after_first = (h.phase, h.bridge, h.relay, h.released);
        assert_eq!(h.teardown(), Vec::<Command>::new());
        assert_eq!((h.phase, h.bridge, h.relay, h.released), after_first);
        assert_eq!(h.teardown(), Vec::<Command>::new());
    }
}

#[test]
fn teardown_of_a_fresh_handler_closes_the_connection() {
    let mut h = handler("alice", false, BridgeMode::Piped);
    assert_eq!(h.teardown(), vec![Command::Disconnect]);
    assert_eq!(h.state(), State::Closing);
    assert_eq!(h.step(Event::Started), Vec::<Command>::new());
}
