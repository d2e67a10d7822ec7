use vstd::prelude::*;

verus! {

/// Why a packet could not be encoded.
#[derive(Clone, Copy, Debug, PartialEq, Eq, Structural)]
pub enum Error {
    /// The remaining length of the frame is above `MAX_PAYLOAD_SIZE`.
    PayloadTooLong,
    /// The packet kind is known but this encoder does not write it.
    UnsupportedPacketType,
    /// A string does not fit behind a 16-bit length prefix.
    StringTooLong,
}

} // verus!
