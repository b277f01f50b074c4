//! A ping-pong latency harness over interchangeable point-to-point transports.
//!
//! A communicator offers five operations: rank, size, send, receive and barrier. The session in
//! `test_execution` plays one of the two roles of the ping-pong protocol over any communicator
//! and is specified over the list of calls that it makes; `protocol` holds what that list looks
//! like for each role, and the proof that a responder returns what the initiator sent.
//!
//! `communicator` holds the contract and the transport that simulates ranks inside one
//! process. `transport` puts transports that live outside this crate behind the contract;
//! `datagram` is the transport over one datagram socket per participant, with the endpoints of
//! `topology`, and `collective` the transport over the ranks of a process group. `report`
//! writes the latencies of a run as comma-separated values, `payload` draws the message,
//! `clock` reads the time, and `channel` holds the queues and the rendezvous of the simulation.
//!
//! `events` is independent of the rest: subscriptions of handlers to kinds of events.

pub mod channel;
pub mod clock;
pub mod collective;
pub mod communicator;
pub mod datagram;
pub mod events;
pub mod payload;
pub mod protocol;
pub mod report;
pub mod test_execution;
pub mod topology;
pub mod transport;
