//! One step of copying bytes between the peer and the child.
//!
//! In a step the driver waits, for a bounded time, on the sources that the
//! session watches, reads what each of them holds without blocking, and looks
//! whether the child has ended. The session then says what to write where and
//! whether to go on. Bytes pass through as they come: what the peer sent goes
//! to the child's input, what the child wrote to its output and then what it
//! wrote to its error stream go to the peer.
//!
//! "Nothing to read for now" and a broken source are told apart. The first is
//! no event at all. The second ends the session, and nothing is written in
//! that step. The end of the peer's stream ends the session too. The end of
//! one of the child's streams only takes that stream off the watch list: it
//! is the child's ending that ends the session. What the peer sent to a child
//! that has ended is dropped.

use vstd::prelude::*;

verus! {

/// What one attempt to read from a source, without blocking, brought.
#[derive(PartialEq, Eq, Debug)]
pub enum Polled {
    /// Nothing to read for now.
    Idle,
    /// These bytes, at least one.
    Data(Vec<u8>),
    /// The end of the stream: the other side has closed it.
    End,
    /// An error that is not "nothing to read for now".
    Broken,
}

/// What the three sources held, and whether the child has ended.
#[derive(PartialEq, Eq, Debug)]
pub struct Observation {
    pub peer: Polled,
    pub output: Polled,
    pub error: Polled,
    pub child_exited: bool,
}

/// The sources to wait on.
#[derive(Clone, Copy, PartialEq, Eq, Structural, Debug)]
pub struct Watch {
    pub peer: bool,
    pub output: bool,
    pub error: bool,
}

impl Polled {
    /// The bytes that the attempt brought; none unless it brought data.
    pub open spec fn bytes(&self) -> Seq<u8> {
        match self {
            Polled::Data(bytes) => bytes@,
            _ => Seq::empty(),
        }
    }

    /// What a source counts for: what it brought if it is watched, nothing
    /// otherwise.
    pub open spec fn regarded(self, watched: bool) -> Polled {
        if watched {
            self
        } else {
            Polled::Idle
        }
    }
}

/// How a step ended.
#[derive(Clone, Copy, PartialEq, Eq, Structural, Debug)]
pub enum Verdict {
    /// Go on with another step.
    Continue,
    /// The peer has closed the connection.
    PeerClosed,
    /// The child has ended.
    ChildExited,
    /// A source failed for good.
    Broken,
}

/// What to write after a step, and how the step ended.
#[derive(PartialEq, Eq, Debug)]
pub struct RelayPlan {
    /// For the child's input.
    pub to_child: Vec<u8>,
    /// For the peer.
    pub to_peer: Vec<u8>,
    pub verdict: Verdict,
}

/// A [`RelayPlan`] with its bytes as mathematical sequences.
pub struct RelayPlanView {
    pub to_child: Seq<u8>,
    pub to_peer: Seq<u8>,
    pub verdict: Verdict,
}

impl View for RelayPlan {
    type V = RelayPlanView;

    open spec fn view(&self) -> RelayPlanView {
        RelayPlanView { to_child: self.to_child@, to_peer: self.to_peer@, verdict: self.verdict }
    }
}

/// The copying between one connection and one child.
#[derive(Clone, Copy, PartialEq, Eq, Structural, Debug)]
pub struct RelaySession {
    /// The sources that the next step waits on.
    pub watch: Watch,
}

impl RelaySession {
    /// Whether one of the watched sources failed for good.
    pub open spec fn broken(&self, seen: Observation) -> bool {
        ||| seen.peer.regarded(self.watch.peer) is Broken
        ||| seen.output.regarded(self.watch.output) is Broken
        ||| seen.error.regarded(self.watch.error) is Broken
    }

    /// How the step ends. A broken source counts before the peer's leaving,
    /// and that before the child's ending.
    pub open spec fn verdict_spec(&self, seen: Observation) -> Verdict {
        if self.broken(seen) {
            Verdict::Broken
        } else if seen.peer.regarded(self.watch.peer) is End {
            Verdict::PeerClosed
        } else if seen.child_exited {
            Verdict::ChildExited
        } else {
            Verdict::Continue
        }
    }

    /// What the step writes and how it ends.
    pub open spec fn plan_spec(&self, seen: Observation) -> RelayPlanView {
        if self.broken(seen) {
            RelayPlanView {
                to_child: Seq::empty(),
                to_peer: Seq::empty(),
                verdict: Verdict::Broken,
            }
        } else {
            RelayPlanView {
                to_child: if seen.child_exited {
                    Seq::empty()
                } else {
                    seen.peer.regarded(self.watch.peer).bytes()
                },
                to_peer: seen.output.regarded(self.watch.output).bytes() + seen.error.regarded(
                    self.watch.error,
                ).bytes(),
                verdict: self.verdict_spec(seen),
            }
        }
    }

    /// The session after the step: a stream of the child that has reached
    /// its end is watched no more.
    pub open spec fn after_spec(&self, seen: Observation) -> RelaySession {
        RelaySession {
            watch: Watch {
                peer: self.watch.peer,
                output: self.watch.output && !(seen.output is End),
                error: self.watch.error && !(seen.error is End),
            },
        }
    }

    /// The session at its start. With pipes it watches the peer and both
    /// streams of the child. With duplicates there is nothing to copy, and
    /// a step only waits for the child to end.
    pub open spec fn initial(piped: bool) -> RelaySession {
        RelaySession { watch: Watch { peer: piped, output: piped, error: piped } }
    }

    pub fn new(piped: bool) -> (session: RelaySession)
        ensures
            session == RelaySession::initial(piped),
    {
        RelaySession { watch: Watch { peer: piped, output: piped, error: piped } }
    }

    /// Plans one step from what the driver saw.
    pub fn step(&mut self, seen: Observation) -> (plan: RelayPlan)
        ensures
            plan@ == old(self).plan_spec(seen),
            *final(self) == old(self).after_spec(seen),
    {
        let watch = self.watch;
        let output_ended = matches!(seen.output, Polled::End);
        let error_ended = matches!(seen.error, Polled::End);
        self.watch = Watch {
            peer: watch.peer,
            output: watch.output && !output_ended,
            error: watch.error && !error_ended,
        };
        let broken = (watch.peer && matches!(seen.peer, Polled::Broken)) || (watch.output
            && matches!(seen.output, Polled::Broken)) || (watch.error && matches!(
            seen.error,
            Polled::Broken
        ));
        if broken {
            return RelayPlan {
                to_child: Vec::new(),
                to_peer: Vec::new(),
                verdict: Verdict::Broken,
            };
        }
        let verdict = if watch.peer && matches!(seen.peer, Polled::End) {
            Verdict::PeerClosed
        } else if seen.child_exited {
            Verdict::ChildExited
        } else {
            Verdict::Continue
        };
        let Observation { peer, output, error, child_exited } = seen;
        let to_child = take_bytes(peer, watch.peer && !child_exited);
        let mut to_peer = take_bytes(output, watch.output);
        let from_error = take_bytes(error, watch.error);
        to_peer.extend_from_slice(from_error.as_slice());
        let plan = RelayPlan { to_child, to_peer, verdict };
        assert(plan@.to_peer =~= old(self).plan_spec(seen).to_peer);
        plan
    }
}

/// The bytes that a source brought, if it is watched.
fn take_bytes(polled: Polled, watched: bool) -> (bytes: Vec<u8>)
    ensures
        bytes@ == polled.regarded(watched).bytes(),
{
    match polled {
        Polled::Data(bytes) => if watched {
            bytes
        } else {
            Vec::new()
        },
        _ => Vec::new(),
    }
}

} // verus!
