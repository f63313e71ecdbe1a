//! The handler of one connection.
//!
//! A handler goes through four states, in this order and never back:
//! `Initial`, `Authenticating`, `Established`, `Closing`.
//!
//! * `Initial`: nothing has happened. The first event starts the handshake.
//! * `Authenticating`: one chunk is read from the connection and decoded.
//!   If the user name it claims is let in, the greeting is sent, the stream
//!   endpoints are created and the child is started. If not, the rejection is
//!   sent and the handler is done. A peer that sends nothing has gone.
//! * `Established`: bytes are copied between peer and child, step by step,
//!   until the peer leaves, the child ends or something breaks.
//! * `Closing`: the end. Nothing is read or written any more.
//!
//! [`ConnectionHandler::step`] takes the handler from event to event.
//! [`ConnectionHandler::teardown`] lets go of everything the connection
//! holds. The driver calls it once the handler is `Closing`, and on any other
//! way out; calling it again does nothing.

use vstd::prelude::*;

use crate::bridge::{BridgeMode, ChildState, ProcessBridge};
use crate::codec::{
    FrameView, SEPARATOR, decode, decode_spec, encode_greeting, encode_rejection, encode_spec,
    field_count, greeting_spec, lemma_decode_inverts_encode, lemma_short_frame_decodes, payload,
    rejection_spec,
};
use crate::command::{Command, CommandView, Event, Notice, views};
use crate::identity::{Identity, root_alias};
use crate::relay::{Observation, RelaySession, Verdict};

verus! {

/// The most that is read of a handshake: legacy clients send one short
/// message.
pub const HANDSHAKE_LIMIT: usize = 256;

/// The four states of a handler.
#[derive(Clone, Copy, PartialEq, Eq, Structural, Debug)]
pub enum State {
    Initial,
    Authenticating,
    Established,
    Closing,
}

/// Where exactly a handler is: its state, and within `Authenticating` the
/// answer that it waits for.
#[derive(Clone, Copy, PartialEq, Eq, Structural, Debug)]
pub enum Phase {
    /// `Initial`.
    Initial,
    /// `Authenticating`: the handshake is being read.
    AwaitingHandshake,
    /// `Authenticating`: the claim was let in and the greeting is being sent.
    Greeting,
    /// `Authenticating`: the stream endpoints are being created.
    Opening,
    /// `Authenticating`: the child is being started.
    Spawning,
    /// `Established`.
    Relaying,
    /// `Closing`.
    Closing,
}

impl Phase {
    /// The state that the phase belongs to.
    pub open spec fn state_of(self) -> State {
        match self {
            Phase::Initial => State::Initial,
            Phase::AwaitingHandshake | Phase::Greeting | Phase::Opening | Phase::Spawning =>
                State::Authenticating,
            Phase::Relaying => State::Established,
            Phase::Closing => State::Closing,
        }
    }
}

/// The handler of one connection: who may log in, where the handshake or the
/// session stands, the books on child and endpoints, and whether the
/// connection's resources were let go.
#[derive(PartialEq, Eq, Debug)]
pub struct ConnectionHandler {
    pub identity: Identity,
    pub phase: Phase,
    pub bridge: ProcessBridge,
    pub relay: RelaySession,
    pub released: bool,
}

/// The answer to an accepted handshake: a notice and the greeting.
pub open spec fn welcome() -> Seq<CommandView> {
    seq![CommandView::Report(Notice::Authenticated), CommandView::Send(greeting_spec())]
}

/// The answer to a refused handshake: a notice and the rejection.
pub open spec fn refusal() -> Seq<CommandView> {
    seq![CommandView::Report(Notice::AuthenticationFailed), CommandView::Send(rejection_spec())]
}

/// A `Feed` of the bytes, if there are any.
pub open spec fn feed_if_any(bytes: Seq<u8>) -> Seq<CommandView> {
    if bytes.len() > 0 {
        seq![CommandView::Feed(bytes)]
    } else {
        Seq::empty()
    }
}

/// A `Send` of the bytes, if there are any.
pub open spec fn send_if_any(bytes: Seq<u8>) -> Seq<CommandView> {
    if bytes.len() > 0 {
        seq![CommandView::Send(bytes)]
    } else {
        Seq::empty()
    }
}

impl ConnectionHandler {
    /// A handler to which nothing has happened yet.
    pub open spec fn initial(identity: Identity, mode: BridgeMode) -> ConnectionHandler {
        ConnectionHandler {
            identity,
            phase: Phase::Initial,
            bridge: ProcessBridge::initial(mode),
            relay: RelaySession::initial(mode is Piped),
            released: false,
        }
    }

    /// The handler's state.
    pub open spec fn state_of(&self) -> State {
        self.phase.state_of()
    }

    /// The handler is consistent. Before the endpoints exist the books are
    /// blank. While the child is being started its ends are open and there is
    /// no child yet. In an established session the child runs and the peer is
    /// watched exactly where bytes are copied by hand. Nothing is let go
    /// before `Closing`, and once it is, no end is open and no child runs.
    pub open spec fn wf(&self) -> bool {
        &&& self.bridge.wf()
        &&& self.relay.watch.peer == (self.bridge.mode is Piped)
        &&& self.released ==> self.phase is Closing
        &&& match self.phase {
            Phase::Initial | Phase::AwaitingHandshake | Phase::Greeting | Phase::Opening =>
                self.bridge == ProcessBridge::initial(self.bridge.mode),
            Phase::Spawning => self.bridge.child_ends is Open && self.bridge.child is Absent,
            Phase::Relaying => self.bridge.child is Running,
            Phase::Closing => self.released ==> {
                &&& self.bridge.child_ends !is Open
                &&& self.bridge.parent_ends !is Open
                &&& self.bridge.child !is Running
            },
        }
    }

    /// The handler moved to `Closing`.
    pub open spec fn closed(self) -> ConnectionHandler {
        ConnectionHandler { phase: Phase::Closing, ..self }
    }

    /// What a received handshake leads to. No bytes at all: the peer has
    /// gone. A claim that is let in: the greeting. Any other: the rejection,
    /// and the end.
    pub open spec fn on_handshake(self, buffer: Seq<u8>) -> (ConnectionHandler, Seq<CommandView>) {
        if buffer.len() == 0 {
            (self.closed(), seq![CommandView::Report(Notice::PeerDisconnected)])
        } else if self.identity.accepts(decode_spec(buffer).server_user_claim) {
            (ConnectionHandler { phase: Phase::Greeting, ..self }, welcome())
        } else {
            (self.closed(), refusal())
        }
    }

    /// What one step of the relay leads to: the bytes that came are passed
    /// on, then either the next step is asked for or the session ends.
    pub open spec fn on_polled(self, seen: Observation) -> (ConnectionHandler, Seq<CommandView>) {
        let plan = self.relay.plan_spec(seen);
        let after = self.relay.after_spec(seen);
        let forwards = feed_if_any(plan.to_child) + send_if_any(plan.to_peer);
        match plan.verdict {
            Verdict::Continue => (
                ConnectionHandler { relay: after, ..self },
                forwards + seq![CommandView::Poll(after.watch)],
            ),
            Verdict::PeerClosed => (
                ConnectionHandler { relay: after, ..self.closed() },
                forwards + seq![CommandView::Report(Notice::PeerDisconnected)],
            ),
            Verdict::ChildExited => (
                ConnectionHandler {
                    relay: after,
                    bridge: self.bridge.exited_spec(),
                    ..self.closed()
                },
                forwards + seq![CommandView::Report(Notice::ChildExited)],
            ),
            Verdict::Broken => (
                ConnectionHandler { relay: after, ..self.closed() },
                forwards + seq![CommandView::Report(Notice::TransportError)],
            ),
        }
    }

    /// The handler after an event, and the commands it answers with. An
    /// event that the handler does not wait for changes nothing and is
    /// answered with nothing.
    pub open spec fn step_spec(self, event: Event) -> (ConnectionHandler, Seq<CommandView>) {
        match self.phase {
            Phase::Initial => match event {
                Event::Started => (
                    ConnectionHandler { phase: Phase::AwaitingHandshake, ..self },
                    seq![CommandView::ReadHandshake(HANDSHAKE_LIMIT)],
                ),
                _ => (self, Seq::empty()),
            },
            Phase::AwaitingHandshake => match event {
                Event::Received(buffer) => self.on_handshake(buffer@),
                Event::Failed => (
                    self.closed(),
                    seq![CommandView::Report(Notice::TransportError)],
                ),
                _ => (self, Seq::empty()),
            },
            Phase::Greeting => match event {
                Event::Delivered => (
                    ConnectionHandler { phase: Phase::Opening, ..self },
                    seq![CommandView::OpenChannels(self.bridge.mode)],
                ),
                Event::Failed => (
                    self.closed(),
                    seq![CommandView::Report(Notice::TransportError)],
                ),
                _ => (self, Seq::empty()),
            },
            Phase::Opening => match event {
                Event::Opened => (
                    ConnectionHandler {
                        phase: Phase::Spawning,
                        bridge: self.bridge.opened_spec(),
                        ..self
                    },
                    seq![CommandView::Launch],
                ),
                Event::Failed => (self.closed(), seq![CommandView::Report(Notice::SpawnFailed)]),
                _ => (self, Seq::empty()),
            },
            Phase::Spawning => match event {
                Event::Spawned => (
                    ConnectionHandler {
                        phase: Phase::Relaying,
                        bridge: self.bridge.spawned_spec().0,
                        ..self
                    },
                    self.bridge.spawned_spec().1 + seq![CommandView::Poll(self.relay.watch)],
                ),
                Event::Failed => (self.closed(), seq![CommandView::Report(Notice::SpawnFailed)]),
                _ => (self, Seq::empty()),
            },
            Phase::Relaying => match event {
                Event::Polled(seen) => self.on_polled(seen),
                Event::Failed => (
                    self.closed(),
                    seq![CommandView::Report(Notice::TransportError)],
                ),
                _ => (self, Seq::empty()),
            },
            Phase::Closing => match event {
                Event::Failed => (
                    self,
                    if self.released {
                        Seq::empty()
                    } else {
                        seq![CommandView::Report(Notice::TransportError)]
                    },
                ),
                Event::Reaped(clean) => (
                    ConnectionHandler { bridge: self.bridge.reaped_spec(), ..self },
                    if self.bridge.child is Terminating && !clean {
                        seq![CommandView::Report(Notice::ChildWaitFailed)]
                    } else {
                        Seq::empty()
                    },
                ),
                _ => (self, Seq::empty()),
            },
        }
    }

    /// The handler after its resources were let go, and the commands that
    /// let them go: what the bridge releases, then the connection. A handler
    /// that was through this before stays as it is, with no command.
    pub open spec fn teardown_spec(self) -> (ConnectionHandler, Seq<CommandView>) {
        if self.released {
            (self, Seq::empty())
        } else {
            (
                ConnectionHandler {
                    phase: Phase::Closing,
                    bridge: self.bridge.release_spec().0,
                    released: true,
                    ..self
                },
                self.bridge.release_spec().1 + seq![CommandView::Disconnect],
            )
        }
    }

    /// A handler for a fresh connection.
    pub fn new(identity: Identity, mode: BridgeMode) -> (handler: ConnectionHandler)
        ensures
            handler == ConnectionHandler::initial(identity, mode),
            handler.wf(),
    {
        ConnectionHandler {
            identity,
            phase: Phase::Initial,
            bridge: ProcessBridge::new(mode),
            relay: RelaySession::new(matches!(mode, BridgeMode::Piped)),
            released: false,
        }
    }

    /// The handler's state.
    pub fn state(&self) -> (state: State)
        ensures
            state == self.state_of(),
    {
        match self.phase {
            Phase::Initial => State::Initial,
            Phase::AwaitingHandshake | Phase::Greeting | Phase::Opening | Phase::Spawning =>
                State::Authenticating,
            Phase::Relaying => State::Established,
            Phase::Closing => State::Closing,
        }
    }

    /// Takes the handler through one event and gives the commands to carry
    /// out next, as [`ConnectionHandler::step_spec`] has them.
    pub fn step(&mut self, event: Event) -> (commands: Vec<Command>)
        ensures
            *final(self) == old(self).step_spec(event).0,
            views(commands@) == old(self).step_spec(event).1,
            commands@.len() == old(self).step_spec(event).1.len(),
            old(self).wf() ==> final(self).wf(),
    {
        let mut commands: Vec<Command> = Vec::new();
        match self.phase {
            Phase::Initial => match event {
                Event::Started => {
                    self.phase = Phase::AwaitingHandshake;
                    commands.push(Command::ReadHandshake(HANDSHAKE_LIMIT));
                },
                _ => {},
            },
            Phase::AwaitingHandshake => match event {
                Event::Received(buffer) => {
                    commands = self.handshake(buffer.as_slice());
                },
                Event::Failed => {
                    self.phase = Phase::Closing;
                    commands.push(Command::Report(Notice::TransportError));
                },
                _ => {},
            },
            Phase::Greeting => match event {
                Event::Delivered => {
                    self.phase = Phase::Opening;
                    commands.push(Command::OpenChannels(self.bridge.mode));
                },
                Event::Failed => {
                    self.phase = Phase::Closing;
                    commands.push(Command::Report(Notice::TransportError));
                },
                _ => {},
            },
            Phase::Opening => match event {
                Event::Opened => {
                    self.phase = Phase::Spawning;
                    self.bridge.opened();
                    commands.push(Command::Launch);
                },
                Event::Failed => {
                    self.phase = Phase::Closing;
                    commands.push(Command::Report(Notice::SpawnFailed));
                },
                _ => {},
            },
            Phase::Spawning => match event {
                Event::Spawned => {
                    self.phase = Phase::Relaying;
                    commands = self.bridge.spawned();
                    commands.push(Command::Poll(self.relay.watch));
                },
                Event::Failed => {
                    self.phase = Phase::Closing;
                    commands.push(Command::Report(Notice::SpawnFailed));
                },
                _ => {},
            },
            Phase::Relaying => match event {
                Event::Polled(seen) => {
                    commands = self.relayed(seen);
                },
                Event::Failed => {
                    self.phase = Phase::Closing;
                    commands.push(Command::Report(Notice::TransportError));
                },
                _ => {},
            },
            Phase::Closing => match event {
                Event::Failed => {
                    if !self.released {
                        commands.push(Command::Report(Notice::TransportError));
                    }
                },
                Event::Reaped(clean) => {
                    if matches!(self.bridge.child, ChildState::Terminating) && !clean {
                        commands.push(Command::Report(Notice::ChildWaitFailed));
                    }
                    self.bridge.reaped();
                },
                _ => {},
            },
        }
        assert(views(commands@) =~= old(self).step_spec(event).1);
        commands
    }

    /// Decodes a received handshake and decides on it.
    fn handshake(&mut self, buffer: &[u8]) -> (commands: Vec<Command>)
        requires
            old(self).phase is AwaitingHandshake,
        ensures
            *final(self) == old(self).on_handshake(buffer@).0,
            views(commands@) == old(self).on_handshake(buffer@).1,
    {
        let mut commands: Vec<Command> = Vec::new();
        if buffer.len() == 0 {
            self.phase = Phase::Closing;
            commands.push(Command::Report(Notice::PeerDisconnected));
        } else {
            let frame = decode(buffer);
            if self.identity.authenticate(frame.server_user_claim.as_slice()) {
                self.phase = Phase::Greeting;
                commands.push(Command::Report(Notice::Authenticated));
                commands.push(Command::Send(encode_greeting()));
            } else {
                self.phase = Phase::Closing;
                commands.push(Command::Report(Notice::AuthenticationFailed));
                commands.push(Command::Send(encode_rejection()));
            }
        }
        assert(views(commands@) =~= old(self).on_handshake(buffer@).1);
        commands
    }

    /// Plans one step of the relay and turns the plan into commands.
    fn relayed(&mut self, seen: Observation) -> (commands: Vec<Command>)
        requires
            old(self).phase is Relaying,
        ensures
            *final(self) == old(self).on_polled(seen).0,
            views(commands@) == old(self).on_polled(seen).1,
    {
        let mut commands: Vec<Command> = Vec::new();
        let plan = self.relay.step(seen);
        if plan.to_child.len() > 0 {
            commands.push(Command::Feed(plan.to_child));
        }
        if plan.to_peer.len() > 0 {
            commands.push(Command::Send(plan.to_peer));
        }
        match plan.verdict {
            Verdict::Continue => {
                commands.push(Command::Poll(self.relay.watch));
            },
            Verdict::PeerClosed => {
                self.phase = Phase::Closing;
                commands.push(Command::Report(Notice::PeerDisconnected));
            },
            Verdict::ChildExited => {
                self.phase = Phase::Closing;
                self.bridge.exited();
                commands.push(Command::Report(Notice::ChildExited));
            },
            Verdict::Broken => {
                self.phase = Phase::Closing;
                commands.push(Command::Report(Notice::TransportError));
            },
        }
        assert(views(commands@) =~= old(self).on_polled(seen).1);
        commands
    }

    /// Lets go of everything the connection holds and says how, as
    /// [`ConnectionHandler::teardown_spec`] has it. The first call moves the
    /// handler to `Closing`; any later call changes nothing and gives no
    /// command.
    pub fn teardown(&mut self) -> (commands: Vec<Command>)
        ensures
            *final(self) == old(self).teardown_spec().0,
            views(commands@) == old(self).teardown_spec().1,
            commands@.len() == old(self).teardown_spec().1.len(),
            old(self).wf() ==> final(self).wf(),
    {
        if self.released {
            let commands: Vec<Command> = Vec::new();
            assert(views(commands@) =~= old(self).teardown_spec().1);
            return commands;
        }
        self.phase = Phase::Closing;
        self.released = true;
        let mut commands = self.bridge.release();
        commands.push(Command::Disconnect);
        assert(views(commands@) =~= old(self).teardown_spec().1);
        commands
    }
}

/// The claim decides. A handshake is greeted if the user name it claims is
/// the configured one or, where `root` is permitted, `root`. Every other
/// handshake is refused, and that ends the connection.
pub proof fn lemma_claim_decides(handler: ConnectionHandler, buffer: Vec<u8>)
    requires
        handler.phase is AwaitingHandshake,
        buffer@.len() > 0,
    ensures
        ({
            let claim = decode_spec(buffer@).server_user_claim;
            let let_in = claim == handler.identity.expected_bytes()
                || (handler.identity.allow_root && claim == root_alias());
            let (after, commands) = handler.step_spec(Event::Received(buffer));
            &&& let_in ==> commands == welcome() && after.state_of() is Authenticating
            &&& !let_in ==> commands == refusal() && after.state_of() is Closing
        }),
{
}

/// A client that claims a name gets the answer that the name earns. Where
/// the buffer is a frame as clients write it, with no zero byte inside a
/// field, the handshake is greeted exactly if the frame's claim is the
/// configured name or the permitted `root`.
pub proof fn lemma_written_claim_decides(
    handler: ConnectionHandler,
    frame: FrameView,
    buffer: Vec<u8>,
)
    requires
        handler.phase is AwaitingHandshake,
        buffer@ == encode_spec(frame),
        !frame.client_user_hint.contains(SEPARATOR),
        !frame.server_user_claim.contains(SEPARATOR),
        !frame.terminal_spec.contains(SEPARATOR),
    ensures
        ({
            let claim = frame.server_user_claim;
            let let_in = claim == handler.identity.expected_bytes()
                || (handler.identity.allow_root && claim == root_alias());
            let (after, commands) = handler.step_spec(Event::Received(buffer));
            &&& let_in ==> commands == welcome() && after.state_of() is Authenticating
            &&& !let_in ==> commands == refusal() && after.state_of() is Closing
        }),
{
    lemma_decode_inverts_encode(frame);
    assert(encode_spec(frame).len() > 0);
}

/// A frame that stops short is refused. Where the buffer holds at most one
/// field, so that no claim is in it, and the configured name is not empty,
/// the handshake is refused.
pub proof fn lemma_short_frame_is_refused(handler: ConnectionHandler, buffer: Vec<u8>)
    requires
        handler.phase is AwaitingHandshake,
        buffer@.len() > 0,
        field_count(payload(buffer@)) <= 1,
        handler.identity.expected_bytes().len() > 0,
    ensures
        decode_spec(buffer@).server_user_claim.len() == 0,
        decode_spec(buffer@).terminal_spec.len() == 0,
        handler.step_spec(Event::Received(buffer)).1 == refusal(),
        handler.step_spec(Event::Received(buffer)).0.state_of() is Closing,
{
    lemma_short_frame_decodes(buffer@);
    assert(root_alias().len() == 4);
}

} // verus!
