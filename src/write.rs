//! Writing packets into a byte sink.
use vstd::prelude::*;
use crate::encode::{encode_packet, packet_encoding};
use crate::error::Error;
use crate::packet::Packet;
use crate::wire::{
    encode_remaining_length, encode_string, mqtt_string_bytes, push_bytes,
    remaining_length_bytes, str_bytes, MAX_PAYLOAD_SIZE, MAX_STRING_LEN,
};

verus! {

/// A sink that control packets are written into.
///
/// Every write is all or nothing: on failure the sink holds what it held
/// before the call.
pub trait MqttWrite {
    /// Every byte that the sink holds, in order.
    spec fn written(&self) -> Seq<u8>;

    /// Appends the frame of `packet`, or fails, appending nothing, with the
    /// reason why it cannot be encoded.
    fn write_packet(&mut self, packet: &Packet) -> (r: Result<(), Error>)
        ensures
            packet_encoding(*packet) is Ok ==> r is Ok && final(self).written() == old(self).written() + packet_encoding(*packet)->Ok_0,
            packet_encoding(*packet) is Err ==> r == Err::<(), Error>(
                packet_encoding(*packet)->Err_0,
            ) && final(self).written() == old(self).written(),
    ;

    /// Appends `s` as a string field, or fails with `StringTooLong`.
    fn write_mqtt_string(&mut self, s: &str) -> (r: Result<(), Error>)
        ensures
            str_bytes(s@).len() <= MAX_STRING_LEN ==> r is Ok && final(self).written() == old(self).written() + mqtt_string_bytes(str_bytes(s@)),
            str_bytes(s@).len() > MAX_STRING_LEN ==> r == Err::<(), Error>(Error::StringTooLong)
                && final(self).written() == old(self).written(),
    ;

    /// Appends the remaining-length field for `len`, or fails with
    /// `PayloadTooLong`.
    fn write_remaining_length(&mut self, len: usize) -> (r: Result<(), Error>)
        ensures
            len <= MAX_PAYLOAD_SIZE ==> r is Ok && final(self).written() == old(self).written()
                + remaining_length_bytes(len as nat),
            len > MAX_PAYLOAD_SIZE ==> r == Err::<(), Error>(Error::PayloadTooLong) && final(self).written() == old(self).written(),
    ;
}

/// An in-memory buffer: frames are built here and handed to the transport
/// once complete.
impl MqttWrite for Vec<u8> {
    open spec fn written(&self) -> Seq<u8> {
        self@
    }

    fn write_packet(&mut self, packet: &Packet) -> (r: Result<(), Error>) {
        match encode_packet(packet) {
            Ok(bytes) => {
                push_bytes(self, bytes.as_slice());
                Ok(())
            },
            Err(e) => Err(e),
        }
    }

    fn write_mqtt_string(&mut self, s: &str) -> (r: Result<(), Error>) {
        encode_string(self, s)
    }

    fn write_remaining_length(&mut self, len: usize) -> (r: Result<(), Error>) {
        encode_remaining_length(self, len)
    }
}

} // verus!
