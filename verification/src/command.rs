//! What a handler is told and what it answers.
//!
//! The handler does no input or output of its own. Its driver feeds it an
//! [`Event`] and carries out the [`Command`]s that come back, in order. It
//! stops at the first command that fails and reports [`Event::Failed`].
//! Otherwise it reports the answer of the last command in the list that has
//! one; where none has, the handler has nothing more to ask for.

use vstd::prelude::*;

use crate::bridge::{BridgeMode, Endpoint};
use crate::relay::{Observation, Watch};

verus! {

/// Something worth telling whoever watches over the server.
#[derive(Clone, Copy, PartialEq, Eq, Structural, Debug)]
pub enum Notice {
    /// The claimed user name was accepted.
    Authenticated,
    /// The claimed user name was refused.
    AuthenticationFailed,
    /// The peer closed the connection.
    PeerDisconnected,
    /// Reading from or writing to the connection or the child failed.
    TransportError,
    /// The child process could not be created.
    SpawnFailed,
    /// The child process ended by itself.
    ChildExited,
    /// The child process did not confirm that it ended.
    ChildWaitFailed,
}

/// One thing for the driver to do.
#[derive(PartialEq, Eq, Debug)]
pub enum Command {
    /// Hand the notice to the log.
    Report(Notice),
    /// Read one chunk of at most this many bytes from the connection.
    /// Answered by [`Event::Received`].
    ReadHandshake(usize),
    /// Write these bytes to the connection and flush it.
    /// Answered by [`Event::Delivered`].
    Send(Vec<u8>),
    /// Create the stream endpoints for the child, all or none of them.
    /// Answered by [`Event::Opened`].
    OpenChannels(BridgeMode),
    /// Start the command interpreter on the child side of the three
    /// channels. Answered by [`Event::Spawned`].
    Launch,
    /// Close this stream endpoint.
    Close(Endpoint),
    /// Write these bytes to the child's input. Answered by
    /// [`Event::Delivered`].
    Feed(Vec<u8>),
    /// Wait, for a bounded time, until one of the watched sources has
    /// something or the child has ended; then read what is there without
    /// blocking. Answered by [`Event::Polled`].
    Poll(Watch),
    /// Ask the child to end and wait, for a bounded time, until it has.
    /// Answered by [`Event::Reaped`].
    Terminate,
    /// Close the connection.
    Disconnect,
}

/// A [`Command`] with its bytes as a mathematical sequence.
pub enum CommandView {
    Report(Notice),
    ReadHandshake(usize),
    Send(Seq<u8>),
    OpenChannels(BridgeMode),
    Launch,
    Close(Endpoint),
    Feed(Seq<u8>),
    Poll(Watch),
    Terminate,
    Disconnect,
}

impl View for Command {
    type V = CommandView;

    open spec fn view(&self) -> CommandView {
        match self {
            Command::Report(notice) => CommandView::Report(*notice),
            Command::ReadHandshake(limit) => CommandView::ReadHandshake(*limit),
            Command::Send(bytes) => CommandView::Send(bytes@),
            Command::OpenChannels(mode) => CommandView::OpenChannels(*mode),
            Command::Launch => CommandView::Launch,
            Command::Close(endpoint) => CommandView::Close(*endpoint),
            Command::Feed(bytes) => CommandView::Feed(bytes@),
            Command::Poll(watch) => CommandView::Poll(*watch),
            Command::Terminate => CommandView::Terminate,
            Command::Disconnect => CommandView::Disconnect,
        }
    }
}

/// The views of a list of commands, in order.
pub open spec fn views(commands: Seq<Command>) -> Seq<CommandView> {
    commands.map_values(|c: Command| c@)
}

/// The views stand where their commands stand: the two lists are of one
/// length, and each view is that of the command in its place.
pub proof fn lemma_views_keep_order(commands: Seq<Command>)
    ensures
        views(commands).len() == commands.len(),
        forall|i: int| 0 <= i < commands.len() ==> views(commands)[i] == (#[trigger] commands[i])@,
{
}

/// What the driver reports back.
#[derive(PartialEq, Eq, Debug)]
pub enum Event {
    /// The connection was handed to the handler.
    Started,
    /// The handshake read returned these bytes; none means that the peer
    /// has gone.
    Received(Vec<u8>),
    /// The bytes were written.
    Delivered,
    /// The stream endpoints exist.
    Opened,
    /// The child process runs.
    Spawned,
    /// What the watched sources held.
    Polled(Observation),
    /// The child has ended after it was asked to, cleanly or not.
    Reaped(bool),
    /// The command could not be carried out.
    Failed,
}

} // verus!
