//! What holds of whole runs of a handler.
//!
//! A driver does two things to a handler: it steps it through an event, or
//! it tears it down. A run is any sequence of such calls, with the commands
//! that they gave, one list after the other. The lemmas here speak of every
//! run, whatever the driver reports and in whatever order it calls.

use vstd::prelude::*;

use crate::bridge::{BridgeMode, Channel, Endpoint, Lifecycle, Side, close_if_open, close_side};
use crate::codec::decode_spec;
use crate::command::{CommandView, Event, Notice};
use crate::handler::{ConnectionHandler, State, feed_if_any, refusal, send_if_any};
use crate::identity::Identity;
use crate::relay::Observation;

verus! {

/// One call that a driver makes on a handler.
pub enum Call {
    /// `step` with this event.
    Step(Event),
    /// `teardown`.
    Teardown,
}

/// The handler after one call, and the commands that the call gives.
pub open spec fn apply(handler: ConnectionHandler, call: Call) -> (
    ConnectionHandler,
    Seq<CommandView>,
) {
    match call {
        Call::Step(event) => handler.step_spec(event),
        Call::Teardown => handler.teardown_spec(),
    }
}

/// The handler after a sequence of calls, and all the commands that the
/// calls gave, in order.
pub open spec fn run(handler: ConnectionHandler, calls: Seq<Call>) -> (
    ConnectionHandler,
    Seq<CommandView>,
)
    decreases calls.len(),
{
    if calls.len() == 0 {
        (handler, Seq::empty())
    } else {
        let (before, earlier) = run(handler, calls.drop_last());
        let (after, commands) = apply(before, calls.last());
        (after, earlier + commands)
    }
}

/// How often a command stands in a list.
pub open spec fn occurrences(commands: Seq<CommandView>, command: CommandView) -> nat
    decreases commands.len(),
{
    if commands.len() == 0 {
        0
    } else {
        occurrences(commands.drop_last(), command) + if commands.last() == command {
            1nat
        } else {
            0nat
        }
    }
}

/// A command stands in two lists joined as often as in both together.
pub proof fn lemma_occurrences_concat(
    first: Seq<CommandView>,
    second: Seq<CommandView>,
    command: CommandView,
)
    ensures
        occurrences(first + second, command) == occurrences(first, command) + occurrences(
            second,
            command,
        ),
    decreases second.len(),
{
    if second.len() == 0 {
        assert(first + second =~= first);
    } else {
        assert((first + second).drop_last() =~= first + second.drop_last());
        lemma_occurrences_concat(first, second.drop_last(), command);
    }
}

/// A command that is nowhere in a list stands in it zero times.
pub proof fn lemma_occurs_never(commands: Seq<CommandView>, command: CommandView)
    requires
        forall|i: int| 0 <= i < commands.len() ==> commands[i] != command,
    ensures
        occurrences(commands, command) == 0,
    decreases commands.len(),
{
    if commands.len() > 0 {
        lemma_occurs_never(commands.drop_last(), command);
    }
}

/// A command that is at one place in a list and nowhere else stands in it
/// once.
pub proof fn lemma_occurs_once(commands: Seq<CommandView>, command: CommandView, at: int)
    requires
        0 <= at < commands.len(),
        commands[at] == command,
        forall|i: int| 0 <= i < commands.len() && i != at ==> commands[i] != command,
    ensures
        occurrences(commands, command) == 1,
    decreases commands.len(),
{
    if at == commands.len() - 1 {
        lemma_occurs_never(commands.drop_last(), command);
    } else {
        lemma_occurs_once(commands.drop_last(), command, at);
    }
}

/// 1 once the child's ends were created, 0 before.
pub open spec fn launched(handler: ConnectionHandler) -> int {
    if handler.bridge.child_ends is Unopened {
        0
    } else {
        1
    }
}

/// 1 once the endpoint is closed, 0 before.
pub open spec fn closed(handler: ConnectionHandler, endpoint: Endpoint) -> int {
    if handler.bridge.status_of(endpoint) is Closed {
        1
    } else {
        0
    }
}

/// 1 once the child was asked to end, 0 before.
pub open spec fn asked_to_end(handler: ConnectionHandler) -> int {
    if handler.bridge.child is Terminating || handler.bridge.child is Reaped {
        1
    } else {
        0
    }
}

/// 1 once the handler was torn down, 0 before.
pub open spec fn let_go(handler: ConnectionHandler) -> int {
    if handler.released {
        1
    } else {
        0
    }
}

/// Whether the command closes an end of the given side.
pub open spec fn closes_end_of(command: CommandView, side: Side) -> bool {
    match command {
        CommandView::Close(endpoint) => endpoint.side == side,
        _ => false,
    }
}

/// Closing one side closes each of its three ends once, and nothing else.
pub proof fn lemma_close_side(side: Side, command: CommandView)
    ensures
        occurrences(close_side(side), command) == (if closes_end_of(command, side) {
            1nat
        } else {
            0nat
        }),
{
    let commands = close_side(side);
    match command {
        CommandView::Close(endpoint) => {
            if endpoint.side == side {
                let at: int = match endpoint.channel {
                    Channel::Input => 0,
                    Channel::Output => 1,
                    Channel::Error => 2,
                };
                lemma_occurs_once(commands, command, at);
            } else {
                lemma_occurs_never(commands, command);
            }
        },
        _ => {
            lemma_occurs_never(commands, command);
        },
    }
}

/// Closing one side where it is open closes each of its three ends once.
pub proof fn lemma_close_if_open(ends: Lifecycle, side: Side, command: CommandView)
    ensures
        occurrences(close_if_open(ends, side), command) == (if ends is Open
            && closes_end_of(command, side) {
            1nat
        } else {
            0nat
        }),
{
    if ends is Open {
        lemma_close_side(side, command);
    }
}

/// A consistent handler stays consistent, whatever is called on it.
pub proof fn lemma_call_keeps_wf(handler: ConnectionHandler, call: Call)
    requires
        handler.wf(),
    ensures
        apply(handler, call).0.wf(),
{
}

/// A step starts the child only as it creates the child's ends.
pub proof fn lemma_call_launches(handler: ConnectionHandler, call: Call)
    requires
        handler.wf(),
    ensures
        occurrences(apply(handler, call).1, CommandView::Launch) == launched(
            apply(handler, call).0,
        ) - launched(handler),
{
    let (after, commands) = apply(handler, call);
    let command = CommandView::Launch;
    match call {
        Call::Step(event) => {
            if handler.phase is Opening && event is Opened {
                lemma_occurs_once(commands, command, 0);
            } else {
                lemma_occurs_never(commands, command);
            }
        },
        Call::Teardown => {
            if !handler.released {
                let (_, release) = handler.bridge.release_spec();
                lemma_release_holds(handler, command);
                lemma_occurrences_concat(release, seq![CommandView::Disconnect], command);
                lemma_occurs_never(seq![CommandView::Disconnect], command);
            }
        },
    }
}

/// What the bridge's release holds: one `Terminate` where a child runs, and
/// one `Close` for each end that is open.
pub proof fn lemma_release_holds(handler: ConnectionHandler, command: CommandView)
    ensures
        occurrences(handler.bridge.release_spec().1, command) == (match command {
            CommandView::Terminate => if handler.bridge.child is Running {
                1nat
            } else {
                0nat
            },
            CommandView::Close(endpoint) => if handler.bridge.status_of(endpoint) is Open {
                1nat
            } else {
                0nat
            },
            _ => 0nat,
        }),
{
    let bridge = handler.bridge;
    let ending: Seq<CommandView> = if bridge.child is Running {
        seq![CommandView::Terminate]
    } else {
        Seq::empty()
    };
    let child_side = close_if_open(bridge.child_ends, Side::Child);
    let parent_side = close_if_open(bridge.parent_ends, Side::Parent);
    assert(bridge.release_spec().1 == ending + child_side + parent_side);
    lemma_occurrences_concat(ending + child_side, parent_side, command);
    lemma_occurrences_concat(ending, child_side, command);
    lemma_close_if_open(bridge.child_ends, Side::Child, command);
    lemma_close_if_open(bridge.parent_ends, Side::Parent, command);
    if bridge.child is Running && command is Terminate {
        lemma_occurs_once(ending, command, 0);
    } else {
        lemma_occurs_never(ending, command);
    }
}

/// A call closes an endpoint only as it marks the endpoint closed.
pub proof fn lemma_call_closes(handler: ConnectionHandler, call: Call, endpoint: Endpoint)
    requires
        handler.wf(),
    ensures
        occurrences(apply(handler, call).1, CommandView::Close(endpoint)) == closed(
            apply(handler, call).0,
            endpoint,
        ) - closed(handler, endpoint),
{
    let (after, commands) = apply(handler, call);
    let command = CommandView::Close(endpoint);
    match call {
        Call::Step(event) => {
            if handler.phase is Spawning && event is Spawned {
                let watch = seq![CommandView::Poll(handler.relay.watch)];
                assert(commands == close_side(Side::Child) + watch);
                lemma_occurrences_concat(close_side(Side::Child), watch, command);
                lemma_close_side(Side::Child, command);
                lemma_occurs_never(watch, command);
            } else {
                lemma_occurs_never(commands, command);
            }
        },
        Call::Teardown => {
            if !handler.released {
                let (_, release) = handler.bridge.release_spec();
                lemma_release_holds(handler, command);
                lemma_occurrences_concat(release, seq![CommandView::Disconnect], command);
                lemma_occurs_never(seq![CommandView::Disconnect], command);
            }
        },
    }
}

/// A call asks the child to end only as it marks the child as asked.
pub proof fn lemma_call_terminates(handler: ConnectionHandler, call: Call)
    requires
        handler.wf(),
    ensures
        occurrences(apply(handler, call).1, CommandView::Terminate) == asked_to_end(
            apply(handler, call).0,
        ) - asked_to_end(handler),
{
    let (after, commands) = apply(handler, call);
    let command = CommandView::Terminate;
    match call {
        Call::Step(event) => {
            lemma_occurs_never(commands, command);
        },
        Call::Teardown => {
            if !handler.released {
                let (_, release) = handler.bridge.release_spec();
                lemma_release_holds(handler, command);
                lemma_occurrences_concat(release, seq![CommandView::Disconnect], command);
                lemma_occurs_never(seq![CommandView::Disconnect], command);
            }
        },
    }
}

/// A call closes the connection only as it marks the handler torn down.
pub proof fn lemma_call_disconnects(handler: ConnectionHandler, call: Call)
    requires
        handler.wf(),
    ensures
        occurrences(apply(handler, call).1, CommandView::Disconnect) == let_go(
            apply(handler, call).0,
        ) - let_go(handler),
{
    let (after, commands) = apply(handler, call);
    let command = CommandView::Disconnect;
    match call {
        Call::Step(event) => {
            lemma_occurs_never(commands, command);
        },
        Call::Teardown => {
            if !handler.released {
                let (_, release) = handler.bridge.release_spec();
                lemma_release_holds(handler, command);
                lemma_occurrences_concat(release, seq![CommandView::Disconnect], command);
                lemma_occurs_once(seq![CommandView::Disconnect], command, 0);
            }
        },
    }
}

/// A run keeps a consistent handler consistent.
pub proof fn lemma_run_keeps_wf(handler: ConnectionHandler, calls: Seq<Call>)
    requires
        handler.wf(),
    ensures
        run(handler, calls).0.wf(),
    decreases calls.len(),
{
    if calls.len() > 0 {
        lemma_run_keeps_wf(handler, calls.drop_last());
        lemma_call_keeps_wf(run(handler, calls.drop_last()).0, calls.last());
    }
}

/// The books agree with what was commanded. Over any run of a consistent
/// handler, the child is started as often as its ends came to exist, each
/// endpoint is closed as often as it came to be closed, the child is asked
/// to end as often as it came to be marked so, and the connection is closed
/// as often as the handler came to be torn down. Each of these happens once
/// or not at all, so no command of these kinds is ever given twice.
pub proof fn lemma_run_accounts(handler: ConnectionHandler, calls: Seq<Call>, endpoint: Endpoint)
    requires
        handler.wf(),
    ensures
        ({
            let (after, commands) = run(handler, calls);
            &&& occurrences(commands, CommandView::Launch) == launched(after) - launched(handler)
            &&& occurrences(commands, CommandView::Close(endpoint)) == closed(after, endpoint)
                - closed(handler, endpoint)
            &&& occurrences(commands, CommandView::Terminate) == asked_to_end(after)
                - asked_to_end(handler)
            &&& occurrences(commands, CommandView::Disconnect) == let_go(after) - let_go(handler)
        }),
    decreases calls.len(),
{
    if calls.len() > 0 {
        let (before, earlier) = run(handler, calls.drop_last());
        let (after, commands) = apply(before, calls.last());
        lemma_run_accounts(handler, calls.drop_last(), endpoint);
        lemma_run_keeps_wf(handler, calls.drop_last());
        lemma_call_launches(before, calls.last());
        lemma_call_closes(before, calls.last(), endpoint);
        lemma_call_terminates(before, calls.last());
        lemma_call_disconnects(before, calls.last());
        lemma_occurrences_concat(earlier, commands, CommandView::Launch);
        lemma_occurrences_concat(earlier, commands, CommandView::Close(endpoint));
        lemma_occurrences_concat(earlier, commands, CommandView::Terminate);
        lemma_occurrences_concat(earlier, commands, CommandView::Disconnect);
    }
}

/// Over the whole life of a connection nothing is done twice and nothing is
/// left behind. Take a fresh handler through any calls and then tear it
/// down. The child was started at most once, and asked to end at most once
/// and only if it was started. Each endpoint was closed once if it ever
/// existed and never otherwise, and none is open at the end. The connection
/// was closed exactly once, and no child is left running.
pub proof fn lemma_session_releases_everything(
    identity: Identity,
    mode: BridgeMode,
    calls: Seq<Call>,
    endpoint: Endpoint,
)
    ensures
        ({
            let fresh = ConnectionHandler::initial(identity, mode);
            let (after, commands) = run(fresh, calls.push(Call::Teardown));
            &&& after.state_of() is Closing
            &&& occurrences(commands, CommandView::Launch) <= 1
            &&& occurrences(commands, CommandView::Terminate) <= occurrences(
                commands,
                CommandView::Launch,
            )
            &&& occurrences(commands, CommandView::Close(endpoint))
                == (if after.bridge.status_of(endpoint) is Unopened {
                0nat
            } else {
                1nat
            })
            &&& after.bridge.status_of(endpoint) !is Open
            &&& after.bridge.child !is Running
            &&& occurrences(commands, CommandView::Disconnect) == 1
        }),
{
    let fresh = ConnectionHandler::initial(identity, mode);
    let all = calls.push(Call::Teardown);
    assert(all.drop_last() =~= calls);
    lemma_run_accounts(fresh, all, endpoint);
    lemma_run_keeps_wf(fresh, all);
    lemma_run_keeps_wf(fresh, calls);
}

/// Tearing down twice is tearing down once: the second call changes
/// nothing and gives no command.
pub proof fn lemma_teardown_is_idempotent(handler: ConnectionHandler)
    ensures
        handler.teardown_spec().0.teardown_spec() == (
            handler.teardown_spec().0,
            Seq::<CommandView>::empty(),
        ),
{
}

/// Whether a command leaves the connection and the child alone: it is a
/// notice for the log.
pub open spec fn is_notice(command: CommandView) -> bool {
    command is Report
}

/// `Closing` is the end. Whatever events reach a handler that is `Closing`,
/// it stays so, its books on the endpoints stay as they are, and it gives
/// nothing but notices: no read, no write, no child.
pub proof fn lemma_closing_is_final(handler: ConnectionHandler, events: Seq<Event>)
    requires
        handler.phase is Closing,
    ensures
        ({
            let (after, commands) = run(handler, events.map_values(|e: Event| Call::Step(e)));
            &&& after.phase is Closing
            &&& after.released == handler.released
            &&& after.bridge.child_ends == handler.bridge.child_ends
            &&& after.bridge.parent_ends == handler.bridge.parent_ends
            &&& forall|i: int| 0 <= i < commands.len() ==> is_notice(#[trigger] commands[i])
        }),
    decreases events.len(),
{
    let calls = events.map_values(|e: Event| Call::Step(e));
    if events.len() > 0 {
        assert(calls.drop_last() =~= events.drop_last().map_values(|e: Event| Call::Step(e)));
        lemma_closing_is_final(handler, events.drop_last());
    }
}

/// After a refusal there is no child and the connection is closed. Take a
/// consistent handler that refuses a handshake, through any further events,
/// and tear it down. No child was started on the way, and the teardown has
/// one thing to do: to close the connection.
pub proof fn lemma_refusal_starts_no_child(
    handler: ConnectionHandler,
    buffer: Vec<u8>,
    later: Seq<Event>,
)
    requires
        handler.wf(),
        handler.phase is AwaitingHandshake,
        buffer@.len() > 0,
        !handler.identity.accepts(decode_spec(buffer@).server_user_claim),
    ensures
        ({
            let (refused, answer) = handler.step_spec(Event::Received(buffer));
            let (after, commands) = run(refused, later.map_values(|e: Event| Call::Step(e)));
            &&& answer == refusal()
            &&& after.state_of() is Closing
            &&& forall|i: int| 0 <= i < commands.len() ==> is_notice(#[trigger] commands[i])
            &&& after.teardown_spec().1 == seq![CommandView::Disconnect]
        }),
{
    let (refused, answer) = handler.step_spec(Event::Received(buffer));
    lemma_closing_is_final(refused, later);
    let (after, commands) = run(refused, later.map_values(|e: Event| Call::Step(e)));
    lemma_run_keeps_wf(refused, later.map_values(|e: Event| Call::Step(e)));
    assert(after.teardown_spec().1 =~= seq![CommandView::Disconnect]);
}

/// 1 while a claim was let in and the child not yet started, 0 otherwise.
pub open spec fn awaiting_launch(handler: ConnectionHandler) -> int {
    if handler.phase is Greeting || handler.phase is Opening {
        1
    } else {
        0
    }
}

/// 1 while a handshake may still be let in, 0 once it was decided.
pub open spec fn undecided(handler: ConnectionHandler) -> int {
    if handler.phase is Initial || handler.phase is AwaitingHandshake {
        1
    } else {
        0
    }
}

/// A call notes that a claim was let in only as the handshake is decided,
/// and in favour of the claim.
pub proof fn lemma_call_notes_welcome(handler: ConnectionHandler, call: Call)
    ensures
        occurrences(apply(handler, call).1, CommandView::Report(Notice::Authenticated))
            == (if undecided(handler) == 1 && awaiting_launch(apply(handler, call).0) == 1 {
            1nat
        } else {
            0nat
        }),
{
    let (after, commands) = apply(handler, call);
    let noted = CommandView::Report(Notice::Authenticated);
    match call {
        Call::Step(event) => {
            if handler.phase is AwaitingHandshake && after.phase is Greeting {
                lemma_occurs_once(commands, noted, 0);
            } else {
                lemma_occurs_never(commands, noted);
            }
        },
        Call::Teardown => {
            if !handler.released {
                let (_, release) = handler.bridge.release_spec();
                let last = seq![CommandView::Disconnect];
                lemma_release_holds(handler, noted);
                lemma_occurrences_concat(release, last, noted);
                lemma_occurs_never(last, noted);
            }
        },
    }
}

/// A call starts the child only from a handler that waits to start it, and
/// a handler waits to start it only once a claim was let in.
pub proof fn lemma_call_launches_after_welcome(handler: ConnectionHandler, call: Call)
    ensures
        occurrences(apply(handler, call).1, CommandView::Launch)
            + awaiting_launch(apply(handler, call).0)
            <= awaiting_launch(handler)
            + (if undecided(handler) == 1 && awaiting_launch(apply(handler, call).0) == 1 {
            1nat
        } else {
            0nat
        }),
        undecided(apply(handler, call).0) <= undecided(handler),
{
    let (after, commands) = apply(handler, call);
    let command = CommandView::Launch;
    match call {
        Call::Step(event) => {
            if handler.phase is Opening && event is Opened {
                lemma_occurs_once(commands, command, 0);
            } else {
                lemma_occurs_never(commands, command);
            }
        },
        Call::Teardown => {
            if !handler.released {
                let (_, release) = handler.bridge.release_spec();
                let last = seq![CommandView::Disconnect];
                lemma_release_holds(handler, command);
                lemma_occurrences_concat(release, last, command);
                lemma_occurs_never(last, command);
            }
        },
    }
}

/// No child without a claim that was let in. Over any run of a handler
/// whose handshake is still undecided, a claim is let in at most once, and
/// the child is started at most as often as a claim was let in.
pub proof fn lemma_launch_needs_authentication(handler: ConnectionHandler, calls: Seq<Call>)
    requires
        undecided(handler) == 1,
    ensures
        ({
            let (after, commands) = run(handler, calls);
            let let_in = occurrences(commands, CommandView::Report(Notice::Authenticated));
            &&& let_in + undecided(after) <= 1
            &&& occurrences(commands, CommandView::Launch) + awaiting_launch(after) <= let_in
        }),
    decreases calls.len(),
{
    if calls.len() > 0 {
        let (before, earlier) = run(handler, calls.drop_last());
        let (after, commands) = apply(before, calls.last());
        lemma_launch_needs_authentication(handler, calls.drop_last());
        lemma_occurrences_concat(earlier, commands, CommandView::Report(Notice::Authenticated));
        lemma_occurrences_concat(earlier, commands, CommandView::Launch);
        lemma_call_notes_welcome(before, calls.last());
        lemma_call_launches_after_welcome(before, calls.last());
    }
}

/// An established session has exactly one child. Where a fresh handler has
/// come to be `Established`, the child was started once, it runs, its own
/// three ends, which are three different endpoints, are closed on the
/// handler's side, and with pipes the handler's three ends are open.
pub proof fn lemma_established_has_one_child(
    identity: Identity,
    mode: BridgeMode,
    calls: Seq<Call>,
)
    requires
        run(ConnectionHandler::initial(identity, mode), calls).0.state_of() is Established,
    ensures
        ({
            let (after, commands) = run(ConnectionHandler::initial(identity, mode), calls);
            &&& occurrences(commands, CommandView::Launch) == 1
            &&& occurrences(commands, CommandView::Report(Notice::Authenticated)) == 1
            &&& after.bridge.child is Running
            &&& after.bridge.child_ends is Closed
            &&& mode is Piped ==> after.bridge.parent_ends is Open
            &&& mode is Duplicated ==> after.bridge.parent_ends is Unopened
            &&& close_side(Side::Child).no_duplicates()
        }),
{
    let fresh = ConnectionHandler::initial(identity, mode);
    let any = Endpoint { channel: Channel::Input, side: Side::Child };
    lemma_run_accounts(fresh, calls, any);
    lemma_run_keeps_wf(fresh, calls);
    lemma_launch_needs_authentication(fresh, calls);
    lemma_run_keeps_mode(fresh, calls);
}

/// A run changes neither who may log in nor how the child is connected.
pub proof fn lemma_run_keeps_mode(handler: ConnectionHandler, calls: Seq<Call>)
    ensures
        run(handler, calls).0.bridge.mode == handler.bridge.mode,
        run(handler, calls).0.identity == handler.identity,
    decreases calls.len(),
{
    if calls.len() > 0 {
        lemma_run_keeps_mode(handler, calls.drop_last());
    }
}

/// Each stream is passed on as it is, whatever the others hold. In an
/// established session over pipes, while nothing is broken and the child
/// lives, the step's commands are: the peer's bytes for the child's input if
/// there are any, then the child's output followed by its error output for
/// the peer if a watched stream brought any, then what comes next.
pub proof fn lemma_relay_passes_bytes_on(handler: ConnectionHandler, seen: Observation)
    requires
        handler.wf(),
        handler.phase is Relaying,
        handler.bridge.mode is Piped,
        !handler.relay.broken(seen),
        !seen.child_exited,
    ensures
        ({
            let (after, commands) = handler.step_spec(Event::Polled(seen));
            let from_child = seen.output.regarded(handler.relay.watch.output).bytes()
                + seen.error.regarded(handler.relay.watch.error).bytes();
            let next = if seen.peer is End {
                CommandView::Report(Notice::PeerDisconnected)
            } else {
                CommandView::Poll(after.relay.watch)
            };
            &&& commands == feed_if_any(seen.peer.bytes())
                + send_if_any(from_child) + seq![next]
            &&& after.state_of() == (if seen.peer is End {
                State::Closing
            } else {
                State::Established
            })
        }),
{
}

/// When the peer leaves, the child is asked to end, once. Where the peer's
/// stream has reached its end in an established session over pipes, the step
/// asks for no further step and the handler is `Closing`. The teardown that
/// follows asks the child to end, closes the handler's three ends and the
/// connection, and leaves nothing open; a second teardown gives no command.
pub proof fn lemma_peer_leaving_ends_session(handler: ConnectionHandler, seen: Observation)
    requires
        handler.wf(),
        handler.phase is Relaying,
        handler.bridge.mode is Piped,
        seen.peer is End,
    ensures
        ({
            let (after, commands) = handler.step_spec(Event::Polled(seen));
            let (end, release) = after.teardown_spec();
            &&& after.state_of() is Closing
            &&& forall|i: int| 0 <= i < commands.len() ==> !(#[trigger] commands[i] is Poll)
            &&& release == seq![CommandView::Terminate] + close_side(Side::Parent)
                + seq![CommandView::Disconnect]
            &&& occurrences(release, CommandView::Terminate) == 1
            &&& end.bridge.child_ends is Closed && end.bridge.parent_ends is Closed
            &&& end.teardown_spec().1 == Seq::<CommandView>::empty()
        }),
{
    let (after, commands) = handler.step_spec(Event::Polled(seen));
    let (end, release) = after.teardown_spec();
    assert(release =~= seq![CommandView::Terminate] + close_side(Side::Parent)
        + seq![CommandView::Disconnect]);
    lemma_occurs_once(release, CommandView::Terminate, 0);
}

/// When the child ends by itself, the session ends in that very step. Where
/// the child was seen to have ended in an established session, the step asks
/// for no further step and the handler is `Closing`. Unless the step found
/// the peer gone or a source broken, the teardown that follows has no child
/// to end: it closes what the handler holds and the connection.
pub proof fn lemma_child_ending_ends_session(handler: ConnectionHandler, seen: Observation)
    requires
        handler.wf(),
        handler.phase is Relaying,
        seen.child_exited,
    ensures
        ({
            let (after, commands) = handler.step_spec(Event::Polled(seen));
            let (end, release) = after.teardown_spec();
            let quiet = !handler.relay.broken(seen)
                && !(seen.peer.regarded(handler.relay.watch.peer) is End);
            &&& after.state_of() is Closing
            &&& forall|i: int| 0 <= i < commands.len() ==> !(#[trigger] commands[i] is Poll)
            &&& occurrences(release, CommandView::Disconnect) == 1
            &&& end.bridge.parent_ends !is Open
            &&& quiet ==> release == close_if_open(handler.bridge.parent_ends, Side::Parent)
                + seq![CommandView::Disconnect]
        }),
{
    let (after, commands) = handler.step_spec(Event::Polled(seen));
    let (end, release) = after.teardown_spec();
    lemma_call_disconnects(after, Call::Teardown);
    lemma_call_keeps_wf(handler, Call::Step(Event::Polled(seen)));
    let quiet = !handler.relay.broken(seen)
        && !(seen.peer.regarded(handler.relay.watch.peer) is End);
    if quiet {
        assert(release =~= close_if_open(handler.bridge.parent_ends, Side::Parent)
            + seq![CommandView::Disconnect]);
    }
}

/// How far a handler has come: its states in their order.
pub open spec fn progress(state: State) -> int {
    match state {
        State::Initial => 0,
        State::Authenticating => 1,
        State::Established => 2,
        State::Closing => 3,
    }
}

/// A handler never goes back: no call takes it to an earlier state, and
/// none takes it out of `Closing`.
pub proof fn lemma_states_only_advance(handler: ConnectionHandler, calls: Seq<Call>)
    ensures
        progress(handler.state_of()) <= progress(run(handler, calls).0.state_of()),
    decreases calls.len(),
{
    if calls.len() > 0 {
        lemma_states_only_advance(handler, calls.drop_last());
    }
}

} // verus!
