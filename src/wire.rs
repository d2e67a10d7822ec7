//! The two primitive fields of the wire format: the variable-length
//! "remaining length" and the length-prefixed UTF-8 string.
use byteorder::{BigEndian, ByteOrder};
use vstd::prelude::*;
use crate::error::Error;

verus! {

/// Largest remaining length this encoder accepts: 100 MiB, a policy below the
/// 2^28 - 1 that four length bytes could carry.
pub const MAX_PAYLOAD_SIZE: usize = 104857600;

/// Longest string (in bytes) that a 16-bit length prefix can describe.
pub const MAX_STRING_LEN: usize = 65535;

/// The two big-endian bytes of `n`.
pub open spec fn be16(n: u16) -> Seq<u8> {
    seq![(n / 256) as u8, (n % 256) as u8]
}

/// The UTF-8 bytes of a string.
pub open spec fn str_bytes(s: Seq<char>) -> Seq<u8> {
    vstd::utf8::encode_utf8(s)
}

/// Base-128 encoding of a remaining length: seven value bits per byte, least
/// significant group first, the high bit set on every byte but the last.
pub open spec fn remaining_length_bytes(n: nat) -> Seq<u8>
    decreases n,
{
    if n < 128 {
        seq![n as u8]
    } else {
        seq![(n % 128 + 128) as u8] + remaining_length_bytes(n / 128)
    }
}

/// Reads a remaining length from the front of `b`: the value and the number
/// of bytes it took, or `None` when `b` ends before the last length byte.
pub open spec fn decode_remaining_length(b: Seq<u8>) -> Option<(nat, nat)>
    decreases b.len(),
{
    if b.len() == 0 {
        None
    } else if b[0] < 128 {
        Some((b[0] as nat, 1))
    } else {
        match decode_remaining_length(b.drop_first()) {
            Some((v, k)) => Some(((b[0] - 128) as nat + 128 * v, k + 1)),
            None => None,
        }
    }
}

proof fn lemma_decode_encoded(n: nat, rest: Seq<u8>)
    ensures
        decode_remaining_length(remaining_length_bytes(n) + rest) == Some(
            (n, remaining_length_bytes(n).len()),
        ),
    decreases n,
{
    let b = remaining_length_bytes(n) + rest;
    if n >= 128 {
        lemma_decode_encoded(n / 128, rest);
        assert(b.drop_first() =~= remaining_length_bytes(n / 128) + rest);
    }
}

/// Decoding the remaining-length field of any `n` up to the cap, from the
/// front of any byte sequence, gives back `n` and the number of bytes the
/// field took; that number is the least possible: one byte below 128, two
/// below 16384, three below 2097152, four above.
pub proof fn lemma_remaining_length_round_trip(n: nat, rest: Seq<u8>)
    requires
        n <= MAX_PAYLOAD_SIZE,
    ensures
        decode_remaining_length(remaining_length_bytes(n) + rest) == Some(
            (n, remaining_length_bytes(n).len()),
        ),
        remaining_length_bytes(n).len() == (if n < 128 {
            1nat
        } else if n < 16384 {
            2nat
        } else if n < 2097152 {
            3nat
        } else {
            4nat
        }),
{
    lemma_decode_encoded(n, rest);
    let n1 = n / 128;
    let n2 = n1 / 128;
    let n3 = n2 / 128;
    assert(n < 16384 <==> n1 < 128);
    assert(n < 2097152 <==> n2 < 128);
    assert(n3 < 128);
    assert(remaining_length_bytes(n3).len() == 1);
    if n >= 128 {
        assert(remaining_length_bytes(n).len() == 1 + remaining_length_bytes(n1).len());
        if n1 >= 128 {
            assert(remaining_length_bytes(n1).len() == 1 + remaining_length_bytes(n2).len());
            if n2 >= 128 {
                assert(remaining_length_bytes(n2).len() == 1 + remaining_length_bytes(n3).len());
            }
        }
    }
}

/// A string field: its byte length as two big-endian bytes, then the bytes.
pub open spec fn mqtt_string_bytes(b: Seq<u8>) -> Seq<u8> {
    be16(b.len() as u16) + b
}

/// A string whose UTF-8 form fits a 16-bit length becomes a field of exactly
/// two more bytes, the first two being that length in big-endian order.
pub proof fn lemma_string_field(b: Seq<u8>)
    requires
        b.len() <= MAX_STRING_LEN,
    ensures
        mqtt_string_bytes(b).len() == b.len() + 2,
        mqtt_string_bytes(b)[0] * 256 + mqtt_string_bytes(b)[1] == b.len(),
        mqtt_string_bytes(b).subrange(2, b.len() + 2int) == b,
{
    assert(mqtt_string_bytes(b).subrange(2, b.len() + 2int) =~= b);
}

/// Relies on byteorder's `BigEndian::write_u16`: it stores `n` into the first
/// two bytes of the buffer, high byte first.
#[verifier::external_body]
fn u16_be_bytes(n: u16) -> (r: [u8; 2])
    ensures
        r@ == be16(n),
{
    let mut buf = [0u8; 2];
    BigEndian::write_u16(&mut buf, n);
    buf
}

/// Appends `n` in big-endian order.
pub fn push_u16(out: &mut Vec<u8>, n: u16)
    ensures
        final(out)@ == old(out)@ + be16(n),
{
    let b = u16_be_bytes(n);
    out.push(b[0]);
    out.push(b[1]);
    assert(final(out)@ =~= old(out)@ + be16(n));
}

/// Appends every byte of `b`, in order.
pub fn push_bytes(out: &mut Vec<u8>, b: &[u8])
    ensures
        final(out)@ == old(out)@ + b@,
{
    let mut i: usize = 0;
    while i < b.len()
        invariant
            i <= b@.len(),
            out@ == old(out)@ + b@.take(i as int),
        decreases b@.len() - i,
    {
        out.push(b[i]);
        i = i + 1;
        assert(b@.take(i as int) =~= b@.take(i - 1).push(b@[i - 1]));
    }
    assert(b@.take(i as int) =~= b@);
}

/// Appends the remaining-length field for `len`, or fails with
/// `PayloadTooLong`, having appended nothing, when `len` is above the cap.
pub fn encode_remaining_length(out: &mut Vec<u8>, len: usize) -> (r: Result<(), Error>)
    ensures
        len > MAX_PAYLOAD_SIZE ==> r == Err::<(), Error>(Error::PayloadTooLong) && final(out)@
            == old(out)@,
        len <= MAX_PAYLOAD_SIZE ==> r is Ok && final(out)@ == old(out)@
            + remaining_length_bytes(len as nat),
{
    if len > MAX_PAYLOAD_SIZE {
        return Err(Error::PayloadTooLong);
    }
    let mut x: usize = len;
    loop
        invariant_except_break
            out@ + remaining_length_bytes(x as nat) == old(out)@ + remaining_length_bytes(
                len as nat,
            ),
        ensures
            out@ == old(out)@ + remaining_length_bytes(len as nat),
        decreases x,
    {
        let digit: u8 = (x % 128) as u8;
        let rest: usize = x / 128;
        if rest == 0 {
            assert(remaining_length_bytes(x as nat) == seq![digit]);
            out.push(digit);
            assert(out@ =~= old(out)@ + remaining_length_bytes(len as nat));
            break;
        }
        out.push(digit + 128);
        proof {
            let pre = out@.drop_last();
            assert(remaining_length_bytes(x as nat) == seq![(digit + 128) as u8]
                + remaining_length_bytes(rest as nat));
            assert(out@ + remaining_length_bytes(rest as nat) =~= pre + (seq![(digit + 128) as u8]
                + remaining_length_bytes(rest as nat)));
        }
        x = rest;
    }
    Ok(())
}

/// Length in bytes of the UTF-8 form of `s`.
pub fn byte_len(s: &str) -> (r: usize)
    ensures
        r == str_bytes(s@).len(),
{
    s.as_bytes().len()
}

/// Appends `s` as a string field, or fails with `StringTooLong`, having
/// appended nothing, when its UTF-8 form is longer than 65535 bytes.
pub fn encode_string(out: &mut Vec<u8>, s: &str) -> (r: Result<(), Error>)
    ensures
        str_bytes(s@).len() > MAX_STRING_LEN ==> r == Err::<(), Error>(Error::StringTooLong)
            && final(out)@ == old(out)@,
        str_bytes(s@).len() <= MAX_STRING_LEN ==> r is Ok && final(out)@ == old(out)@
            + mqtt_string_bytes(str_bytes(s@)),
{
    let bytes = s.as_bytes();
    if bytes.len() > MAX_STRING_LEN {
        return Err(Error::StringTooLong);
    }
    push_u16(out, bytes.len() as u16);
    push_bytes(out, bytes);
    assert(final(out)@ =~= old(out)@ + mqtt_string_bytes(str_bytes(s@)));
    Ok(())
}

} // verus!
