//! Encoder for the control packets of the MQTT 3.1 / 3.1.1 wire protocol.
//!
//! Every encoder here is verified against a byte-level specification of the
//! frame it produces.

pub mod error;
pub mod packet;
pub mod encode;
pub mod wire;
pub mod write;
