//! The child process and the stream endpoints that connect it.
//!
//! A child has three channels: input, output and error. There are two ways
//! to connect them. With pipes, each channel has two ends: the child holds
//! one and the handler keeps the other, and the handler copies bytes between
//! its ends and the connection. With duplication, the child's ends are three
//! duplicates of the connection itself, and the handler keeps none.
//!
//! The bridge does not create or close anything. It keeps the books: which
//! ends exist, which are closed, whether a child runs. From the books it
//! tells the driver what to close and whether to end the child, so that each
//! end is closed once and the child is asked to end at most once.

use vstd::prelude::*;

use crate::command::{Command, CommandView, views};

verus! {

/// The command interpreter that is started for a session. It gets no
/// arguments.
pub const INTERPRETER: &'static str = "/bin/sh";

/// How the child's channels are connected.
#[derive(Clone, Copy, PartialEq, Eq, Structural, Debug)]
pub enum BridgeMode {
    /// Three pipes; the handler copies the bytes.
    Piped,
    /// Three duplicates of the connection; the operating system moves the
    /// bytes and the handler only waits for the child to end.
    Duplicated,
}

/// One of the child's three streams.
#[derive(Clone, Copy, PartialEq, Eq, Structural, Debug)]
pub enum Channel {
    Input,
    Output,
    Error,
}

/// Who holds an end of a channel.
#[derive(Clone, Copy, PartialEq, Eq, Structural, Debug)]
pub enum Side {
    /// The handler.
    Parent,
    /// The child process.
    Child,
}

/// One end of one channel.
#[derive(Clone, Copy, PartialEq, Eq, Structural, Debug)]
pub struct Endpoint {
    pub channel: Channel,
    pub side: Side,
}

/// Where a stream endpoint is in its life. It only ever moves forward.
#[derive(Clone, Copy, PartialEq, Eq, Structural, Debug)]
pub enum Lifecycle {
    Unopened,
    Open,
    Closed,
}

/// Where the child process is in its life. It only ever moves forward.
#[derive(Clone, Copy, PartialEq, Eq, Structural, Debug)]
pub enum ChildState {
    /// No child was started.
    Absent,
    /// The child runs.
    Running,
    /// The child was seen to have ended by itself.
    Exited,
    /// The child was asked to end; whether it did is not known yet.
    Terminating,
    /// The wait for a child that was asked to end is over.
    Reaped,
}

/// The books on one child and its endpoints. The three ends of a side
/// are opened together and closed together.
#[derive(Clone, Copy, PartialEq, Eq, Structural, Debug)]
pub struct ProcessBridge {
    pub mode: BridgeMode,
    pub parent_ends: Lifecycle,
    pub child_ends: Lifecycle,
    pub child: ChildState,
}

/// The commands that close the three ends of one side, input first.
pub open spec fn close_side(side: Side) -> Seq<CommandView> {
    seq![
        CommandView::Close(Endpoint { channel: Channel::Input, side }),
        CommandView::Close(Endpoint { channel: Channel::Output, side }),
        CommandView::Close(Endpoint { channel: Channel::Error, side }),
    ]
}

/// [`close_side`] where the ends are open, nothing where they are not.
pub open spec fn close_if_open(ends: Lifecycle, side: Side) -> Seq<CommandView> {
    if ends is Open {
        close_side(side)
    } else {
        Seq::empty()
    }
}

/// An endpoint's place in life after a release: closed if it was open.
pub open spec fn after_release(ends: Lifecycle) -> Lifecycle {
    if ends is Open {
        Lifecycle::Closed
    } else {
        ends
    }
}

impl ProcessBridge {
    /// The books before anything has happened.
    pub open spec fn initial(mode: BridgeMode) -> ProcessBridge {
        ProcessBridge {
            mode,
            parent_ends: Lifecycle::Unopened,
            child_ends: Lifecycle::Unopened,
            child: ChildState::Absent,
        }
    }

    /// Where the given endpoint is in its life.
    pub open spec fn status_of(&self, endpoint: Endpoint) -> Lifecycle {
        match endpoint.side {
            Side::Parent => self.parent_ends,
            Side::Child => self.child_ends,
        }
    }

    /// The books are consistent: the handler has ends of its own only with
    /// pipes, and they are opened together with the child's; a child exists
    /// only on ends that were opened and have since been closed on the
    /// handler's side; and the handler gives up its own ends only when no
    /// child runs any more.
    pub open spec fn wf(&self) -> bool {
        &&& self.mode is Duplicated ==> self.parent_ends is Unopened
        &&& self.mode is Piped ==> (self.parent_ends is Unopened <==> self.child_ends is Unopened)
        &&& self.child !is Absent ==> self.child_ends is Closed
        &&& self.parent_ends is Closed ==> self.child_ends is Closed && self.child !is Running
    }

    /// The books once the endpoints have been created.
    pub open spec fn opened_spec(self) -> ProcessBridge {
        if self.child_ends is Unopened && self.parent_ends is Unopened {
            ProcessBridge {
                child_ends: Lifecycle::Open,
                parent_ends: if self.mode is Piped {
                    Lifecycle::Open
                } else {
                    Lifecycle::Unopened
                },
                ..self
            }
        } else {
            self
        }
    }

    /// The books once the child runs. Its ends are of no more use to the
    /// handler and are closed at once.
    pub open spec fn spawned_spec(self) -> (ProcessBridge, Seq<CommandView>) {
        if self.child is Absent && self.child_ends is Open {
            (
                ProcessBridge { child: ChildState::Running, child_ends: Lifecycle::Closed, ..self },
                close_side(Side::Child),
            )
        } else {
            (self, Seq::empty())
        }
    }

    /// The books once the child was seen to have ended by itself.
    pub open spec fn exited_spec(self) -> ProcessBridge {
        if self.child is Running {
            ProcessBridge { child: ChildState::Exited, ..self }
        } else {
            self
        }
    }

    /// The books once the wait for a child that was asked to end is over.
    pub open spec fn reaped_spec(self) -> ProcessBridge {
        if self.child is Terminating {
            ProcessBridge { child: ChildState::Reaped, ..self }
        } else {
            self
        }
    }

    /// The books after everything was let go, and the commands that let it
    /// go: the child is asked to end if it runs, then every end that is
    /// still open is closed, the child's before the handler's.
    pub open spec fn release_spec(self) -> (ProcessBridge, Seq<CommandView>) {
        (
            ProcessBridge {
                mode: self.mode,
                parent_ends: after_release(self.parent_ends),
                child_ends: after_release(self.child_ends),
                child: if self.child is Running {
                    ChildState::Terminating
                } else {
                    self.child
                },
            },
            (if self.child is Running {
                seq![CommandView::Terminate]
            } else {
                Seq::empty()
            }) + close_if_open(self.child_ends, Side::Child) + close_if_open(
                self.parent_ends,
                Side::Parent,
            ),
        )
    }

    pub fn new(mode: BridgeMode) -> (bridge: ProcessBridge)
        ensures
            bridge == ProcessBridge::initial(mode),
    {
        ProcessBridge {
            mode,
            parent_ends: Lifecycle::Unopened,
            child_ends: Lifecycle::Unopened,
            child: ChildState::Absent,
        }
    }

    /// Where the given endpoint is in its life.
    pub fn status(&self, endpoint: Endpoint) -> (status: Lifecycle)
        ensures
            status == self.status_of(endpoint),
    {
        match endpoint.side {
            Side::Parent => self.parent_ends,
            Side::Child => self.child_ends,
        }
    }

    /// Records that the endpoints were created.
    pub fn opened(&mut self)
        ensures
            *final(self) == old(self).opened_spec(),
            old(self).wf() ==> final(self).wf(),
    {
        if matches!(self.child_ends, Lifecycle::Unopened) && matches!(
            self.parent_ends,
            Lifecycle::Unopened
        ) {
            self.child_ends = Lifecycle::Open;
            if matches!(self.mode, BridgeMode::Piped) {
                self.parent_ends = Lifecycle::Open;
            }
        }
    }

    /// Records that the child runs, and says which ends to close now.
    pub fn spawned(&mut self) -> (commands: Vec<Command>)
        ensures
            *final(self) == old(self).spawned_spec().0,
            views(commands@) == old(self).spawned_spec().1,
            commands@.len() == old(self).spawned_spec().1.len(),
            old(self).wf() ==> final(self).wf(),
    {
        let mut commands: Vec<Command> = Vec::new();
        if matches!(self.child, ChildState::Absent) && matches!(self.child_ends, Lifecycle::Open) {
            self.child = ChildState::Running;
            self.child_ends = Lifecycle::Closed;
            push_close_side(&mut commands, Side::Child);
        }
        assert(views(commands@) =~= old(self).spawned_spec().1);
        commands
    }

    /// Records that the child was seen to have ended by itself.
    pub fn exited(&mut self)
        ensures
            *final(self) == old(self).exited_spec(),
            old(self).wf() ==> final(self).wf(),
    {
        if matches!(self.child, ChildState::Running) {
            self.child = ChildState::Exited;
        }
    }

    /// Records that the wait for a child that was asked to end is over.
    pub fn reaped(&mut self)
        ensures
            *final(self) == old(self).reaped_spec(),
            old(self).wf() ==> final(self).wf(),
    {
        if matches!(self.child, ChildState::Terminating) {
            self.child = ChildState::Reaped;
        }
    }

    /// Lets go of the child and of every end that is still open, and says
    /// how. After it no end is open and no child runs, so a second call has
    /// nothing left to say.
    pub fn release(&mut self) -> (commands: Vec<Command>)
        ensures
            *final(self) == old(self).release_spec().0,
            views(commands@) == old(self).release_spec().1,
            commands@.len() == old(self).release_spec().1.len(),
            old(self).wf() ==> final(self).wf(),
    {
        let mut commands: Vec<Command> = Vec::new();
        if matches!(self.child, ChildState::Running) {
            self.child = ChildState::Terminating;
            commands.push(Command::Terminate);
        }
        if matches!(self.child_ends, Lifecycle::Open) {
            self.child_ends = Lifecycle::Closed;
            push_close_side(&mut commands, Side::Child);
        }
        if matches!(self.parent_ends, Lifecycle::Open) {
            self.parent_ends = Lifecycle::Closed;
            push_close_side(&mut commands, Side::Parent);
        }
        assert(views(commands@) =~= old(self).release_spec().1);
        commands
    }
}

/// Appends the commands that close the three ends of one side.
fn push_close_side(commands: &mut Vec<Command>, side: Side)
    ensures
        views(final(commands)@) == views(old(commands)@) + close_side(side),
{
    commands.push(Command::Close(Endpoint { channel: Channel::Input, side }));
    commands.push(Command::Close(Endpoint { channel: Channel::Output, side }));
    commands.push(Command::Close(Endpoint { channel: Channel::Error, side }));
    assert(views(commands@) =~= views(old(commands)@) + close_side(side));
}

} // verus!
