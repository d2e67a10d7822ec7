//! The in-memory form of the control packets.
use vstd::prelude::*;

verus! {

/// Delivery guarantee of a publish or a subscription.
#[derive(Clone, Copy, Debug, PartialEq, Eq, Structural)]
pub enum QoS {
    AtMostOnce,
    AtLeastOnce,
    ExactlyOnce,
}

/// The wire value of a QoS level.
pub open spec fn qos_value(q: QoS) -> u8 {
    match q {
        QoS::AtMostOnce => 0,
        QoS::AtLeastOnce => 1,
        QoS::ExactlyOnce => 2,
    }
}

impl QoS {
    pub fn to_u8(&self) -> (r: u8)
        ensures
            r == qos_value(*self),
    {
        match self {
            QoS::AtMostOnce => 0,
            QoS::AtLeastOnce => 1,
            QoS::ExactlyOnce => 2,
        }
    }
}

/// Protocol family and level: `MQIsdp` for 3.1, `MQTT` for 3.1.1.
#[derive(Clone, Copy, Debug, PartialEq, Eq, Structural)]
pub enum Protocol {
    MQIsdp(u8),
    MQTT(u8),
}

/// The protocol name that a Connect packet carries.
pub open spec fn protocol_name(p: Protocol) -> Seq<char> {
    match p {
        Protocol::MQIsdp(_) => seq!['M', 'Q', 'I', 's', 'd', 'p'],
        Protocol::MQTT(_) => seq!['M', 'Q', 'T', 'T'],
    }
}

/// The protocol level that a Connect packet carries.
pub open spec fn protocol_level(p: Protocol) -> u8 {
    match p {
        Protocol::MQIsdp(l) => l,
        Protocol::MQTT(l) => l,
    }
}

impl Protocol {
    pub fn name(&self) -> (r: &'static str)
        ensures
            r@ == protocol_name(*self),
    {
        match self {
            Protocol::MQIsdp(_) => {
                proof {
                    reveal_strlit("MQIsdp");
                }
                "MQIsdp"
            },
            Protocol::MQTT(_) => {
                proof {
                    reveal_strlit("MQTT");
                }
                "MQTT"
            },
        }
    }

    pub fn level(&self) -> (r: u8)
        ensures
            r == protocol_level(*self),
    {
        match self {
            Protocol::MQIsdp(l) => *l,
            Protocol::MQTT(l) => *l,
        }
    }
}

/// Correlates a request with its acknowledgment.
#[derive(Clone, Copy, Debug, PartialEq, Eq, Structural)]
pub struct PacketIdentifier(pub u16);

/// Message that the server publishes when the client goes away uncleanly.
#[derive(Clone, Debug)]
pub struct LastWill {
    pub topic: String,
    pub message: String,
    pub retain: bool,
    pub qos: QoS,
}

#[derive(Clone, Debug)]
pub struct Connect {
    pub protocol: Protocol,
    pub keep_alive: u16,
    pub client_id: String,
    pub clean_session: bool,
    pub last_will: Option<LastWill>,
    pub username: Option<String>,
    pub password: Option<String>,
}

#[derive(Clone, Copy, Debug, PartialEq, Eq, Structural)]
pub enum ConnectReturnCode {
    Accepted,
    RefusedProtocolVersion,
    RefusedIdentifierRejected,
    ServerUnavailable,
    BadUsernamePassword,
    NotAuthorized,
}

/// The wire value of a Connack return code.
pub open spec fn return_code_value(c: ConnectReturnCode) -> u8 {
    match c {
        ConnectReturnCode::Accepted => 0,
        ConnectReturnCode::RefusedProtocolVersion => 1,
        ConnectReturnCode::RefusedIdentifierRejected => 2,
        ConnectReturnCode::ServerUnavailable => 3,
        ConnectReturnCode::BadUsernamePassword => 4,
        ConnectReturnCode::NotAuthorized => 5,
    }
}

impl ConnectReturnCode {
    pub fn to_u8(&self) -> (r: u8)
        ensures
            r == return_code_value(*self),
    {
        match self {
            ConnectReturnCode::Accepted => 0,
            ConnectReturnCode::RefusedProtocolVersion => 1,
            ConnectReturnCode::RefusedIdentifierRejected => 2,
            ConnectReturnCode::ServerUnavailable => 3,
            ConnectReturnCode::BadUsernamePassword => 4,
            ConnectReturnCode::NotAuthorized => 5,
        }
    }
}

#[derive(Clone, Copy, Debug, PartialEq, Eq, Structural)]
pub struct Connack {
    pub session_present: bool,
    pub code: ConnectReturnCode,
}

#[derive(Clone, Debug)]
pub struct Publish {
    pub dup: bool,
    pub qos: QoS,
    pub retain: bool,
    pub topic_name: String,
    pub pid: Option<PacketIdentifier>,
    pub payload: Vec<u8>,
}

#[derive(Clone, Debug)]
pub struct Subscribe {
    pub pid: PacketIdentifier,
    pub topics: Vec<(String, QoS)>,
}

/// One result per requested topic: whether it failed, and the granted QoS.
#[derive(Clone, Debug)]
pub struct Suback {
    pub pid: PacketIdentifier,
    pub return_codes: Vec<(bool, QoS)>,
}

#[derive(Clone, Debug)]
pub struct Unsubscribe {
    pub pid: PacketIdentifier,
    pub topics: Vec<String>,
}

/// One control packet of each kind.
#[derive(Clone, Debug)]
pub enum Packet {
    Connect(Connect),
    Connack(Connack),
    Publish(Publish),
    Puback(PacketIdentifier),
    Pubrec(PacketIdentifier),
    Pubrel(PacketIdentifier),
    Pubcomp(PacketIdentifier),
    Subscribe(Subscribe),
    Suback(Suback),
    Unsubscribe(Unsubscribe),
    Unsuback(PacketIdentifier),
    Pingreq,
    Pingresp,
    Disconnect,
}

} // verus!
