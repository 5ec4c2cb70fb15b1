//! A line-oriented text relay core: clients pick a nickname, create or join
//! short-lived rooms identified by random short codes, and exchange messages
//! that are fanned out to every member of the same room.
//!
//! The crate holds the verified session/room engine: the command parser, the
//! room-code generator, the broadcast channel with bounded backlog and lag
//! notification, the room registry, and the per-connection command dispatch.
//! Listening, accepting and byte-level I/O live outside the library.

pub mod broadcast;
pub mod codegen;
pub mod protocol;
pub mod room;
pub mod session;
pub mod state;
