//! A readiness-driven sleep service, without the I/O.
//!
//! A client sends a duration as four big-endian bytes; the service waits
//! that long and answers `done-{N}ms`. One thread serves every connection:
//! a wait is one more readiness source, a one-shot timer registered beside
//! the sockets. This crate holds what such a server decides: the wire
//! format, the tokens, the timer's expiration and the per-connection state
//! machine. The caller owns the sockets, the timers and the poll, performs
//! each [`reactor::Action`] and reports what happened as a
//! [`reactor::Event`].

pub mod lifecycle;
pub mod reactor;
pub mod timer;
pub mod token;
pub mod wire;
