use rlogind::relay::{Observation, Polled, RelayPlan, RelaySession, Verdict, Watch};

fn seen(peer: Polled, output: Polled, error: Polled, child_exited: bool) -> Observation {
    Observation { peer, output, error, child_exited }
}

fn data(bytes: &[u8]) -> Polled {
    Polled::Data(bytes.to_vec())
}

fn plan(to_child: &[u8], to_peer: &[u8], verdict: Verdict) -> RelayPlan {
    RelayPlan { to_child: to_child.to_vec(), to_peer: to_peer.to_vec(), verdict }
}

const ALL: Watch = Watch { peer: true, output: true, error: true };
const NONE: Watch = Watch { peer: false, output: false, error: false };

#[test]
fn piped_session_watches_everything() {
    assert_eq!(RelaySession::new(true).watch, ALL);
}

#[test]
fn duplicated_session_watches_nothing() {
    assert_eq!(RelaySession::new(false).watch, NONE);
}

#[test]
fn idle_step_writes_nothing_and_goes_on() {
    let mut session = RelaySession::new(true);
    let got = session.step(seen(Polled::Idle, Polled::Idle, Polled::Idle, false));
    assert_eq!(got, plan(b"", b"", Verdict::Continue));
    assert_eq!(session.watch, ALL);
}

#[test]
fn peer_bytes_go_to_the_child() {
    let mut session = RelaySession::new(true);
    let got = session.step(seen(data(b"ls\n"), Polled::Idle, Polled::Idle, false));
    assert_eq!(got, plan(b"ls\n", b"", Verdict::Continue));
}

#[test]
fn output_bytes_go_to_the_peer() {
    let mut session = RelaySession::new(true);
    let got = session.step(seen(Polled::Idle, data(b"file\n"), Polled::Idle, false));
    assert_eq!(got, plan(b"", b"file\n", Verdict::Continue));
}

#[test]
fn error_bytes_go_to_the_peer() {
    let mut session = RelaySession::new(true);
    let got = session.step(seen(Polled::Idle, Polled::Idle, data(b"oops\n"), false));
    assert_eq!(got, plan(b"", b"oops\n", Verdict::Continue));
}

#[test]
fn output_comes_before_error() {
    let mut session = RelaySession::new(true);
    let got = session.step(seen(data(b"in"), data(b"out"), data(b"err"), false));
    assert_eq!(got, plan(b"in", b"outerr", Verdict::Continue));
}

#[test]
fn bytes_pass_unchanged() {
    let raw: Vec<u8> = (0u8..=255).collect();
    let mut session = RelaySession::new(true);
    let got = session.step(seen(
        Polled::Data(raw.clone()),
        Polled::Data(raw.clone()),
        Polled::Idle,
        false,
    ));
    assert_eq!(got.to_child, raw);
    assert_eq!(got.to_peer, raw);
}

#[test]
fn peer_end_closes_the_session_and_still_passes_output() {
    let mut session = RelaySession::new(true);
    let got = session.step(seen(Polled::End, data(b"bye"), Polled::Idle, false));
    assert_eq!(got, plan(b"", b"bye", Verdict::PeerClosed));
}

#[test]
fn child_exit_ends_the_session_and_still_passes_output() {
    let mut session = RelaySession::new(true);
    let got = session.step(seen(Polled::Idle, data(b"last"), data(b"!"), true));
    assert_eq!(got, plan(b"", b"last!", Verdict::ChildExited));
}

#[test]
fn bytes_for_an_ended_child_are_dropped() {
    let mut session = RelaySession::new(true);
    let got = session.step(seen(data(b"too late"), Polled::Idle, Polled::Idle, true));
    assert_eq!(got, plan(b"", b"", Verdict::ChildExited));
}

#[test]
fn broken_source_ends_the_session_and_writes_nothing() {
    for broken in 0..3 {
        let mut session = RelaySession::new(true);
        let peer = if broken == 0 { Polled::Broken } else { data(b"a") };
        let output = if broken == 1 { Polled::Broken } else { data(b"b") };
        let error = if broken == 2 { Polled::Broken } else { data(b"c") };
        let got = session.step(seen(peer, output, error, false));
        assert_eq!(got, plan(b"", b"", Verdict::Broken));
    }
}

#[test]
fn broken_counts_before_peer_end_and_child_exit() {
    let mut session = RelaySession::new(true);
    let got = session.step(seen(Polled::End, Polled::Broken, Polled::Idle, true));
    assert_eq!(got.verdict, Verdict::Broken);
}

#[test]
fn peer_end_counts_before_child_exit() {
    let mut session = RelaySession::new(true);
    let got = session.step(seen(Polled::End, Polled::Idle, Polled::Idle, true));
    assert_eq!(got.verdict, Verdict::PeerClosed);
}

#[test]
fn ended_child_stream_is_watched_no_more() {
    let mut session = RelaySession::new(true);
    let got = session.step(seen(Polled::Idle, Polled::End, Polled::Idle, false));
    assert_eq!(got, plan(b"", b"", Verdict::Continue));
    assert_eq!(session.watch, Watch { peer: true, output: false, error: true });
    let got = session.step(seen(Polled::Idle, data(b"ghost"), Polled::End, false));
    assert_eq!(got, plan(b"", b"", Verdict::Continue));
    assert_eq!(session.watch, Watch { peer: true, output: false, error: false });
}

#[test]
fn unwatched_sources_count_for_nothing() {
    let mut session = RelaySession::new(false);
    let got = session.step(seen(data(b"a"), Polled::Broken, Polled::End, false));
    assert_eq!(got, plan(b"", b"", Verdict::Continue));
    assert_eq!(session.watch, NONE);
    let got = session.step(seen(Polled::End, Polled::Idle, Polled::Idle, true));
    assert_eq!(got, plan(b"", b"", Verdict::ChildExited));
}
