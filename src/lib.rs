//! Remote-display protocol engine: the pixel buffer, dirty-rectangle extraction and
//! coalescing, input batching and encoding, the session's connection phases and
//! protocol steps, frame pacing, and the registry of open sessions.
//!
//! Everything that waits on the network (sockets, TLS, reading and writing PDUs) is
//! left to the caller, who hands each outcome to this library and acts on its answer.

mod encoding;
pub mod coalesce;
pub mod connect;
pub mod frame;
pub mod framebuffer;
pub mod input;
pub mod manager;
pub mod pacing;
pub mod session;
pub mod ssh;
pub mod stage;
pub mod terminal;
pub mod vnc;

