//! Stream concurrency control for a QUIC connection.
//!
//! QUIC multiplexes many independent streams over one connection and limits,
//! per stream class, how many of them may be open at once.  This crate holds
//! the accounting that decides whether a stream may be opened: identifier
//! arithmetic that maps raw stream ids to (class, ordinal) pairs, a
//! sub-controller that gates locally-initiated opens against a peer-granted
//! limit, a sub-controller that admits peer-initiated streams against a
//! self-advertised limit, and an aggregate that composes one instance of each
//! per direction.

pub mod controller;
pub mod local_open;
pub mod ordering;
pub mod remote_admit;
pub mod stream_id;
pub mod types;
