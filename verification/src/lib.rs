//! Server side of a legacy remote-login handshake, as a verified core.
//!
//! A connection is served by a [`handler::ConnectionHandler`]: a state machine
//! that is fed what happened on the wire and answers with the commands to
//! carry out next. The machine never touches a socket or a process itself;
//! whoever drives it owns those and reports back with [`command::Event`]s.
//!
//! * [`command`] names the events and the commands.
//! * [`codec`] reads the null-delimited handshake frame and builds the two
//!   fixed replies.
//! * [`identity`] decides whether a claimed user name may log in.
//! * [`bridge`] keeps the books on the child process and on the stream
//!   endpoints that connect it to the handler.
//! * [`relay`] plans one step of copying bytes between peer and child.
//! * [`handler`] sequences all of the above for one connection.
//! * [`session`] states what holds of whole runs of a handler.

pub mod bridge;
pub mod codec;
pub mod command;
pub mod handler;
pub mod identity;
pub mod relay;
pub mod session;
