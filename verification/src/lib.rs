//! SPDM over MCTP over I2C.
//!
//! The library decides, the firmware acts. Each operation that talks to the bus,
//! to the MCTP router or to the SPDM context is a state machine: the library
//! names the next action, the firmware performs it and hands the outcome back
//! as an event.

pub mod capabilities;
pub mod cert_chain;
pub mod outside;
pub mod requester;
pub mod requester_laws;
pub mod responder;
pub mod sender;
pub mod sender_laws;
pub mod server;
pub mod transport;
pub mod transport_laws;
