//! Streaming core of a small server-sent-event service: a per-connection
//! counter stream ended by a sentinel, a pacing gate that spaces emissions,
//! a per-connection session that combines the two, and a shutdown
//! coordinator that drains open connections before the process stops.
pub mod decimal;
pub mod event_stream;
pub mod pacing;
pub mod session;
pub mod shutdown;
