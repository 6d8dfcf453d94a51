//! NAT-traversal coordination library.
//!
//! The crate models and verifies the decision logic of a NAT-traversal
//! coordinator: the STUN binding-message wire codec, the multiplexed
//! classification of inbound datagrams, the simultaneous-open punching
//! state machine, the keep-alive probing cycle, and the parsing of
//! candidate-endpoint lists.  All socket work (binding, connecting,
//! sending, receiving, sleeping) is left to a thin unverified driver
//! that feeds plain values into these functions and acts on the
//! decisions they return.

pub mod candidates;
pub mod codec;
pub mod demux;
pub mod discovery;
pub mod endpoint;
pub mod keepalive;
pub mod punch;
