//! Whole control packets: the byte recipe of each kind, and the encoder that
//! follows it into a fresh buffer.
use vstd::prelude::*;
use crate::error::Error;
use crate::packet::{
    protocol_level, protocol_name, qos_value, return_code_value, Connect, LastWill, Packet,
    Publish, QoS, Suback, Subscribe,
};
use crate::wire::{
    be16, byte_len, encode_remaining_length, encode_string, mqtt_string_bytes, push_bytes, push_u16,
    remaining_length_bytes, str_bytes, MAX_PAYLOAD_SIZE, MAX_STRING_LEN,
};

verus! {

/// One above the largest remaining length that is accepted: length sums stop
/// growing here, so they can never overflow.
pub const LEN_LIMIT: usize = MAX_PAYLOAD_SIZE + 1;

/// A length sum cut off at `LEN_LIMIT`.
pub open spec fn capped(x: int) -> int {
    if x > LEN_LIMIT {
        LEN_LIMIT as int
    } else {
        x
    }
}

/// Whether a string fits behind a 16-bit length prefix.
pub open spec fn fits(s: Seq<char>) -> bool {
    str_bytes(s).len() <= MAX_STRING_LEN
}

/// A complete frame: fixed header byte, remaining length, then the rest.
pub open spec fn frame(header: u8, body: Seq<u8>) -> Seq<u8> {
    seq![header] + remaining_length_bytes(body.len()) + body
}

/// Result of an encoder, with the buffer seen as bytes.
pub open spec fn encoded(r: Result<Vec<u8>, Error>) -> Result<Seq<u8>, Error> {
    match r {
        Ok(v) => Ok(v@),
        Err(e) => Err(e),
    }
}

// ---- Connect ----

pub open spec fn string_field(s: Seq<char>) -> Seq<u8> {
    mqtt_string_bytes(str_bytes(s))
}

pub open spec fn optional_field(o: Option<String>) -> Seq<u8> {
    match o {
        Some(s) => string_field(s@),
        None => seq![],
    }
}

pub open spec fn optional_field_len(o: Option<String>) -> int {
    match o {
        Some(s) => 2int + str_bytes(s@).len(),
        None => 0,
    }
}

pub open spec fn optional_fits(o: Option<String>) -> bool {
    match o {
        Some(s) => fits(s@),
        None => true,
    }
}

pub open spec fn will_fields(w: Option<LastWill>) -> Seq<u8> {
    match w {
        Some(w) => string_field(w.topic@) + string_field(w.message@),
        None => seq![],
    }
}

pub open spec fn will_len(w: Option<LastWill>) -> int {
    match w {
        Some(w) => 4int + str_bytes(w.topic@).len() + str_bytes(w.message@).len(),
        None => 0,
    }
}

pub open spec fn will_fits(w: Option<LastWill>) -> bool {
    match w {
        Some(w) => fits(w.topic@) && fits(w.message@),
        None => true,
    }
}

/// Remaining length of a Connect frame.
pub open spec fn connect_remaining_length(c: Connect) -> int {
    8 + str_bytes(protocol_name(c.protocol)).len() + str_bytes(c.client_id@).len() + will_len(
        c.last_will,
    ) + optional_field_len(c.username) + optional_field_len(c.password)
}

/// Connect flags: bit 1 clean session, bit 2 will present, bits 3-4 will
/// QoS, bit 5 will retain, bit 6 password present, bit 7 username present.
pub open spec fn connect_flags(c: Connect) -> u8 {
    ((if c.clean_session {
        2int
    } else {
        0
    }) + (match c.last_will {
        Some(w) => 4 + 8 * qos_value(w.qos) + if w.retain {
            32int
        } else {
            0
        },
        None => 0,
    }) + (if c.password is Some {
        64int
    } else {
        0
    }) + (if c.username is Some {
        128int
    } else {
        0
    })) as u8
}

/// Variable header of a Connect frame: protocol name, level, flags, keep-alive.
pub open spec fn connect_variable_header(c: Connect) -> Seq<u8> {
    string_field(protocol_name(c.protocol)) + seq![protocol_level(c.protocol), connect_flags(c)]
        + be16(c.keep_alive)
}

/// Payload of a Connect frame: client identifier, will topic and message,
/// username, password, each only where present.
pub open spec fn connect_payload(c: Connect) -> Seq<u8> {
    string_field(c.client_id@) + will_fields(c.last_will) + optional_field(c.username)
        + optional_field(c.password)
}

/// Variable header and payload of a Connect frame, in wire order.
pub open spec fn connect_body(c: Connect) -> Seq<u8> {
    connect_variable_header(c) + connect_payload(c)
}

/// Every string of a Connect packet fits its length prefix.
pub open spec fn connect_strings_fit(c: Connect) -> bool {
    fits(c.client_id@) && will_fits(c.last_will) && optional_fits(c.username) && optional_fits(
        c.password,
    )
}

pub open spec fn connect_encoding(c: Connect) -> Result<Seq<u8>, Error> {
    if connect_remaining_length(c) > MAX_PAYLOAD_SIZE {
        Err(Error::PayloadTooLong)
    } else if !connect_strings_fit(c) {
        Err(Error::StringTooLong)
    } else {
        Ok(frame(0x10, connect_body(c)))
    }
}

// ---- Publish ----

/// A Publish carries its identifier only above QoS 0, and only if it has one.
pub open spec fn publish_writes_pid(p: Publish) -> bool {
    p.qos != QoS::AtMostOnce && p.pid is Some
}

pub open spec fn publish_header(p: Publish) -> u8 {
    (0x30 + (if p.retain {
        1int
    } else {
        0
    }) + 2 * qos_value(p.qos) + (if p.dup {
        8int
    } else {
        0
    })) as u8
}

pub open spec fn publish_remaining_length(p: Publish) -> int {
    2 + str_bytes(p.topic_name@).len() + (if publish_writes_pid(p) {
        2int
    } else {
        0
    }) + p.payload@.len()
}

pub open spec fn publish_body(p: Publish) -> Seq<u8> {
    string_field(p.topic_name@) + (match p.pid {
        Some(id) if p.qos != QoS::AtMostOnce => be16(id.0),
        _ => seq![],
    }) + p.payload@
}

pub open spec fn publish_encoding(p: Publish) -> Result<Seq<u8>, Error> {
    if publish_remaining_length(p) > MAX_PAYLOAD_SIZE {
        Err(Error::PayloadTooLong)
    } else if !fits(p.topic_name@) {
        Err(Error::StringTooLong)
    } else {
        Ok(frame(publish_header(p), publish_body(p)))
    }
}

// ---- Subscribe ----

/// Bytes that the topic filters of a Subscribe take: each a string field
/// and a QoS byte.
pub open spec fn topics_length(ts: Seq<(String, QoS)>) -> int
    decreases ts.len(),
{
    if ts.len() == 0 {
        0
    } else {
        topics_length(ts.drop_last()) + 3 + str_bytes(ts.last().0@).len()
    }
}

/// The topic filters of a Subscribe, in the order given.
pub open spec fn topics_bytes(ts: Seq<(String, QoS)>) -> Seq<u8>
    decreases ts.len(),
{
    if ts.len() == 0 {
        seq![]
    } else {
        topics_bytes(ts.drop_last()) + string_field(ts.last().0@) + seq![qos_value(ts.last().1)]
    }
}

pub open spec fn topics_fit(ts: Seq<(String, QoS)>) -> bool {
    forall|i: int| 0 <= i < ts.len() ==> #[trigger] fits(ts[i].0@)
}

pub open spec fn subscribe_encoding(s: Subscribe) -> Result<Seq<u8>, Error> {
    if 2 + topics_length(s.topics@) > MAX_PAYLOAD_SIZE {
        Err(Error::PayloadTooLong)
    } else if !topics_fit(s.topics@) {
        Err(Error::StringTooLong)
    } else {
        Ok(frame(0x82, be16(s.pid.0) + topics_bytes(s.topics@)))
    }
}

// ---- Suback ----

/// One subscription result: the failure flag in bit 7, or'ed with the QoS.
pub open spec fn suback_code(c: (bool, QoS)) -> u8 {
    ((if c.0 {
        128int
    } else {
        0
    }) + qos_value(c.1)) as u8
}

pub open spec fn suback_codes(rc: Seq<(bool, QoS)>) -> Seq<u8> {
    rc.map_values(|c: (bool, QoS)| suback_code(c))
}

pub open spec fn suback_encoding(s: Suback) -> Result<Seq<u8>, Error> {
    if 2 + s.return_codes@.len() > MAX_PAYLOAD_SIZE {
        Err(Error::PayloadTooLong)
    } else {
        Ok(frame(0x90, be16(s.pid.0) + suback_codes(s.return_codes@)))
    }
}

// ---- Every kind ----

/// The bytes of a packet on the wire, or why it cannot be encoded.
pub open spec fn packet_encoding(p: Packet) -> Result<Seq<u8>, Error> {
    match p {
        Packet::Connect(c) => connect_encoding(c),
        Packet::Connack(c) => Ok(
            seq![
                0x20,
                0x02,
                if c.session_present {
                    1u8
                } else {
                    0u8
                },
                return_code_value(c.code),
            ],
        ),
        Packet::Publish(p) => publish_encoding(p),
        Packet::Puback(id) => Ok(seq![0x40u8, 0x02u8] + be16(id.0)),
        Packet::Pubrec(_) => Err(Error::UnsupportedPacketType),
        Packet::Pubrel(id) => Ok(seq![0x62u8, 0x02u8] + be16(id.0)),
        Packet::Pubcomp(_) => Err(Error::UnsupportedPacketType),
        Packet::Subscribe(s) => subscribe_encoding(s),
        Packet::Suback(s) => suback_encoding(s),
        Packet::Unsubscribe(_) => Err(Error::UnsupportedPacketType),
        Packet::Unsuback(id) => Ok(seq![0xB0u8, 0x02u8] + be16(id.0)),
        Packet::Pingreq => Ok(seq![0xC0u8, 0x00u8]),
        Packet::Pingresp => Ok(seq![0xD0u8, 0x00u8]),
        Packet::Disconnect => Ok(seq![0xE0u8, 0x00u8]),
    }
}

// ---- Encoders ----

/// `a + b`, cut off at `LEN_LIMIT`.
fn add_capped(a: usize, b: usize) -> (r: usize)
    requires
        a <= LEN_LIMIT,
    ensures
        r == capped(a + b),
{
    if b > LEN_LIMIT - a {
        LEN_LIMIT
    } else {
        a + b
    }
}

/// A UTF-8 form takes at most four bytes per character.
proof fn lemma_utf8_len(s: Seq<char>)
    ensures
        str_bytes(s).len() <= 4 * s.len(),
    decreases s.len(),
{
    if s.len() > 0 {
        lemma_utf8_len(s.drop_first());
    }
}

/// Appends a string field that is known to fit.
fn push_string(out: &mut Vec<u8>, s: &str)
    requires
        fits(s@),
    ensures
        final(out)@ == old(out)@ + string_field(s@),
{
    let _ = encode_string(out, s);
}

/// Remaining length of a Connect frame, cut off at `LEN_LIMIT`.
fn connect_length(c: &Connect, name: &str) -> (r: usize)
    requires
        name@ == protocol_name(c.protocol),
    ensures
        r == capped(connect_remaining_length(*c)),
{
    proof {
        lemma_utf8_len(name@);
    }
    let mut len: usize = add_capped(8, byte_len(name));
    len = add_capped(len, byte_len(c.client_id.as_str()));
    let ghost base: int = 8int + str_bytes(name@).len() + str_bytes(c.client_id@).len();
    assert(len == capped(base));
    if let Some(w) = &c.last_will {
        len = add_capped(len, 4);
        len = add_capped(len, byte_len(w.topic.as_str()));
        len = add_capped(len, byte_len(w.message.as_str()));
    }
    let ghost with_will = base + will_len(c.last_will);
    assert(len == capped(with_will));
    if let Some(u) = &c.username {
        len = add_capped(len, 2);
        len = add_capped(len, byte_len(u.as_str()));
    }
    let ghost with_user = with_will + optional_field_len(c.username);
    assert(len == capped(with_user));
    if let Some(p) = &c.password {
        len = add_capped(len, 2);
        len = add_capped(len, byte_len(p.as_str()));
    }
    len
}

/// The connect-flags byte.
fn connect_flags_byte(c: &Connect) -> (r: u8)
    ensures
        r == connect_flags(*c),
{
    let mut flags: u8 = 0;
    if c.clean_session {
        flags = flags + 0x02;
    }
    if let Some(w) = &c.last_will {
        flags = flags + 0x04 + w.qos.to_u8() * 8;
        if w.retain {
            flags = flags + 0x20;
        }
    }
    if c.password.is_some() {
        flags = flags + 0x40;
    }
    if c.username.is_some() {
        flags = flags + 0x80;
    }
    flags
}

/// Appends an optional string field.
fn encode_optional(out: &mut Vec<u8>, o: &Option<String>) -> (r: Result<(), Error>)
    ensures
        optional_fits(*o) ==> r is Ok && final(out)@ == old(out)@ + optional_field(*o),
        !optional_fits(*o) ==> r == Err::<(), Error>(Error::StringTooLong),
{
    if let Some(s) = o {
        encode_string(out, s.as_str())
    } else {
        assert(final(out)@ =~= old(out)@ + optional_field(*o));
        Ok(())
    }
}

/// Appends the strings of a Connect payload: client identifier, will topic
/// and message, username, password.
fn encode_connect_payload(out: &mut Vec<u8>, c: &Connect) -> (r: Result<(), Error>)
    ensures
        connect_strings_fit(*c) ==> r is Ok && final(out)@ == old(out)@ + connect_payload(*c),
        !connect_strings_fit(*c) ==> r == Err::<(), Error>(Error::StringTooLong),
{
    if let Err(e) = encode_string(out, c.client_id.as_str()) {
        return Err(e);
    }
    let ghost after_id = out@;
    if let Some(w) = &c.last_will {
        if let Err(e) = encode_string(out, w.topic.as_str()) {
            return Err(e);
        }
        if let Err(e) = encode_string(out, w.message.as_str()) {
            return Err(e);
        }
        assert(out@ =~= after_id + (string_field(w.topic@) + string_field(w.message@)));
    }
    assert(out@ =~= after_id + will_fields(c.last_will));
    let ghost after_will = out@;
    if let Err(e) = encode_optional(out, &c.username) {
        return Err(e);
    }
    if let Err(e) = encode_optional(out, &c.password) {
        return Err(e);
    }
    assert(out@ =~= after_will + optional_field(c.username) + optional_field(c.password));
    assert(out@ =~= old(out)@ + connect_payload(*c));
    Ok(())
}

proof fn lemma_connect_body_len(c: Connect)
    ensures
        connect_body(c).len() == connect_remaining_length(c),
{
}

/// Appends the variable header of a Connect frame.
fn push_connect_variable_header(out: &mut Vec<u8>, c: &Connect)
    ensures
        final(out)@ == old(out)@ + connect_variable_header(*c),
{
    let name = c.protocol.name();
    proof {
        lemma_utf8_len(name@);
    }
    push_string(out, name);
    out.push(c.protocol.level());
    out.push(connect_flags_byte(c));
    push_u16(out, c.keep_alive);
    assert(final(out)@ =~= old(out)@ + connect_variable_header(*c));
}

/// Encodes a Connect packet.
pub fn encode_connect(c: &Connect) -> (r: Result<Vec<u8>, Error>)
    ensures
        encoded(r) == connect_encoding(*c),
{
    let len = connect_length(c, c.protocol.name());
    let mut out: Vec<u8> = Vec::new();
    out.push(0x10);
    if let Err(e) = encode_remaining_length(&mut out, len) {
        return Err(e);
    }
    let ghost head = out@;
    push_connect_variable_header(&mut out, c);
    if let Err(e) = encode_connect_payload(&mut out, c) {
        return Err(e);
    }
    proof {
        lemma_connect_body_len(*c);
        assert(out@ =~= head + connect_body(*c));
        assert(out@ =~= frame(0x10, connect_body(*c)));
    }
    Ok(out)
}

fn publish_header_byte(p: &Publish) -> (r: u8)
    ensures
        r == publish_header(*p),
{
    let mut h: u8 = 0x30;
    if p.retain {
        h = h + 1;
    }
    h = h + p.qos.to_u8() * 2;
    if p.dup {
        h = h + 8;
    }
    h
}

/// Encodes a Publish packet. The identifier is written, and counted in the
/// remaining length, only above QoS 0 and only when the packet has one.
pub fn encode_publish(p: &Publish) -> (r: Result<Vec<u8>, Error>)
    ensures
        encoded(r) == publish_encoding(*p),
{
    let topic = p.topic_name.as_str();
    let pid: Option<u16> = match p.qos {
        QoS::AtMostOnce => None,
        _ => match p.pid {
            Some(id) => Some(id.0),
            None => None,
        },
    };
    let mut len: usize = add_capped(2, byte_len(topic));
    if pid.is_some() {
        len = add_capped(len, 2);
    }
    len = add_capped(len, p.payload.len());
    let mut out: Vec<u8> = Vec::new();
    out.push(publish_header_byte(p));
    if let Err(e) = encode_remaining_length(&mut out, len) {
        return Err(e);
    }
    let ghost head = out@;
    if let Err(e) = encode_string(&mut out, topic) {
        return Err(e);
    }
    if let Some(id) = pid {
        push_u16(&mut out, id);
    }
    push_bytes(&mut out, p.payload.as_slice());
    assert(out@ =~= head + publish_body(*p));
    assert(out@ =~= frame(publish_header(*p), publish_body(*p)));
    Ok(out)
}

/// Remaining length of a Subscribe frame, cut off at `LEN_LIMIT`.
fn subscribe_length(ts: &Vec<(String, QoS)>) -> (r: usize)
    ensures
        r == capped(2 + topics_length(ts@)),
{
    let mut len: usize = 2;
    let mut i: usize = 0;
    while i < ts.len()
        invariant
            i <= ts@.len(),
            len == capped(2 + topics_length(ts@.take(i as int))),
        decreases ts@.len() - i,
    {
        len = add_capped(len, 3);
        len = add_capped(len, byte_len(ts[i].0.as_str()));
        assert(ts@.take(i + 1).drop_last() =~= ts@.take(i as int));
        i = i + 1;
    }
    assert(ts@.take(i as int) =~= ts@);
    len
}

/// Appends the topic filters of a Subscribe, each with its QoS byte.
fn encode_topics(out: &mut Vec<u8>, ts: &Vec<(String, QoS)>) -> (r: Result<(), Error>)
    ensures
        topics_fit(ts@) ==> r is Ok && final(out)@ == old(out)@ + topics_bytes(ts@),
        !topics_fit(ts@) ==> r == Err::<(), Error>(Error::StringTooLong),
{
    let mut i: usize = 0;
    while i < ts.len()
        invariant
            i <= ts@.len(),
            out@ == old(out)@ + topics_bytes(ts@.take(i as int)),
            forall|j: int| 0 <= j < i ==> #[trigger] fits(ts@[j].0@),
        decreases ts@.len() - i,
    {
        if let Err(e) = encode_string(out, ts[i].0.as_str()) {
            assert(!fits(ts@[i as int].0@));
            return Err(e);
        }
        out.push(ts[i].1.to_u8());
        proof {
            let t = ts@.take(i + 1);
            assert(t.drop_last() =~= ts@.take(i as int));
            assert(t.last() == ts@[i as int]);
        }
        i = i + 1;
    }
    assert(ts@.take(i as int) =~= ts@);
    Ok(())
}

proof fn lemma_topics_length(ts: Seq<(String, QoS)>)
    ensures
        topics_bytes(ts).len() == topics_length(ts),
    decreases ts.len(),
{
    if ts.len() > 0 {
        lemma_topics_length(ts.drop_last());
    }
}

/// Encodes a Subscribe packet, its topic filters in the order given.
pub fn encode_subscribe(s: &Subscribe) -> (r: Result<Vec<u8>, Error>)
    ensures
        encoded(r) == subscribe_encoding(*s),
{
    let len = subscribe_length(&s.topics);
    let mut out: Vec<u8> = Vec::new();
    out.push(0x82);
    if let Err(e) = encode_remaining_length(&mut out, len) {
        return Err(e);
    }
    let ghost head = out@;
    push_u16(&mut out, s.pid.0);
    if let Err(e) = encode_topics(&mut out, &s.topics) {
        return Err(e);
    }
    proof {
        lemma_topics_length(s.topics@);
        assert(out@ =~= head + (be16(s.pid.0) + topics_bytes(s.topics@)));
    }
    assert(out@ =~= frame(0x82, be16(s.pid.0) + topics_bytes(s.topics@)));
    Ok(out)
}

/// Encodes a Suback packet: one byte per result, the failure flag or'ed
/// with the granted QoS.
pub fn encode_suback(s: &Suback) -> (r: Result<Vec<u8>, Error>)
    ensures
        encoded(r) == suback_encoding(*s),
{
    let len = add_capped(2, s.return_codes.len());
    let mut out: Vec<u8> = Vec::new();
    out.push(0x90);
    if let Err(e) = encode_remaining_length(&mut out, len) {
        return Err(e);
    }
    push_u16(&mut out, s.pid.0);
    let ghost head = out@;
    let rc = &s.return_codes;
    let mut i: usize = 0;
    while i < rc.len()
        invariant
            i <= rc@.len(),
            out@ == head + suback_codes(rc@.take(i as int)),
        decreases rc@.len() - i,
    {
        let c = rc[i];
        let mut code: u8 = c.1.to_u8();
        if c.0 {
            code = code + 0x80;
        }
        out.push(code);
        assert(suback_codes(rc@.take(i + 1)) =~= suback_codes(rc@.take(i as int)).push(code));
        i = i + 1;
    }
    assert(rc@.take(i as int) =~= rc@);
    assert(out@ =~= frame(0x90, be16(s.pid.0) + suback_codes(rc@)));
    Ok(out)
}

/// A frame of a header byte, a remaining length of two, and an identifier.
fn encode_ack(header: u8, id: u16) -> (r: Vec<u8>)
    ensures
        r@ == seq![header, 0x02u8] + be16(id),
{
    let mut out: Vec<u8> = Vec::new();
    out.push(header);
    out.push(0x02);
    push_u16(&mut out, id);
    assert(out@ =~= seq![header, 0x02u8] + be16(id));
    out
}

/// A frame of a header byte and a remaining length of zero.
fn encode_empty(header: u8) -> (r: Vec<u8>)
    ensures
        r@ == seq![header, 0x00u8],
{
    let mut out: Vec<u8> = Vec::new();
    out.push(header);
    out.push(0x00);
    assert(out@ =~= seq![header, 0x00u8]);
    out
}

/// Encodes any packet into a fresh buffer: nothing is produced unless the
/// whole frame is.
pub fn encode_packet(p: &Packet) -> (r: Result<Vec<u8>, Error>)
    ensures
        encoded(r) == packet_encoding(*p),
{
    match p {
        Packet::Connect(c) => encode_connect(c),
        Packet::Connack(c) => {
            let mut out: Vec<u8> = Vec::new();
            out.push(0x20);
            out.push(0x02);
            out.push(if c.session_present {
                1
            } else {
                0
            });
            out.push(c.code.to_u8());
            assert(out@ =~= seq![
                0x20,
                0x02,
                if c.session_present {
                    1u8
                } else {
                    0u8
                },
                return_code_value(c.code),
            ]);
            Ok(out)
        },
        Packet::Publish(publish) => encode_publish(publish),
        Packet::Puback(id) => Ok(encode_ack(0x40, id.0)),
        Packet::Pubrec(_) => Err(Error::UnsupportedPacketType),
        Packet::Pubrel(id) => Ok(encode_ack(0x62, id.0)),
        Packet::Pubcomp(_) => Err(Error::UnsupportedPacketType),
        Packet::Subscribe(s) => encode_subscribe(s),
        Packet::Suback(s) => encode_suback(s),
        Packet::Unsubscribe(_) => Err(Error::UnsupportedPacketType),
        Packet::Unsuback(id) => Ok(encode_ack(0xB0, id.0)),
        Packet::Pingreq => Ok(encode_empty(0xC0)),
        Packet::Pingresp => Ok(encode_empty(0xD0)),
        Packet::Disconnect => Ok(encode_empty(0xE0)),
    }
}

/// Pubrec, Pubcomp and Unsubscribe are never encoded: whatever they carry,
/// the result is `UnsupportedPacketType`, and so a sink takes no byte of them.
pub proof fn lemma_unsupported_kinds(p: Packet)
    requires
        p is Pubrec || p is Pubcomp || p is Unsubscribe,
    ensures
        packet_encoding(p) == Err::<Seq<u8>, Error>(Error::UnsupportedPacketType),
{
}

} // verus!
