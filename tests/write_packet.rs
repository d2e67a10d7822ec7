use mqtt3::error::Error;
use mqtt3::packet::{
    Connack, Connect, ConnectReturnCode, LastWill, Packet, PacketIdentifier, Protocol, Publish,
    QoS, Suback, Subscribe, Unsubscribe,
};
use mqtt3::write::MqttWrite;

fn written(p: &Packet) -> Vec<u8> {
    let mut stream: Vec<u8> = Vec::new();
    stream.write_packet(p).unwrap();
    stream
}

#[test]
fn write_packet_connect_mqtt_protocol_test() {
    let connect = Packet::Connect(Connect {
        protocol: Protocol::MQTT(4),
        keep_alive: 10,
        client_id: "test".to_owned(),
        clean_session: true,
        last_will: Some(LastWill {
            topic: "/a".to_owned(),
            message: "offline".to_owned(),
            retain: false,
            qos: QoS::AtLeastOnce,
        }),
        username: Some("rust".to_owned()),
        password: Some("mq".to_owned()),
    });

    assert_eq!(
        written(&connect),
        vec![
            0x10, 39, 0x00, 0x04, 'M' as u8, 'Q' as u8, 'T' as u8, 'T' as u8, 0x04,
            0b11001110, // +username, +password, -will retain, will qos=1, +last_will, +clean_session
            0x00, 0x0a, // 10 sec
            0x00, 0x04, 't' as u8, 'e' as u8, 's' as u8, 't' as u8, // client_id
            0x00, 0x02, '/' as u8, 'a' as u8, // will topic = '/a'
            0x00, 0x07, 'o' as u8, 'f' as u8, 'f' as u8, 'l' as u8, 'i' as u8, 'n' as u8,
            'e' as u8, // will msg = 'offline'
            0x00, 0x04, 'r' as u8, 'u' as u8, 's' as u8, 't' as u8, // username = 'rust'
            0x00, 0x02, 'm' as u8, 'q' as u8 // password = 'mq'
        ]
    );
}

#[test]
fn write_packet_connect_mqisdp_protocol_test() {
    let connect = Packet::Connect(Connect {
        protocol: Protocol::MQIsdp(3),
        keep_alive: 60,
        client_id: "test".to_owned(),
        clean_session: false,
        last_will: None,
        username: None,
        password: None,
    });

    assert_eq!(
        written(&connect),
        vec![
            0x10, 18, 0x00, 0x06, 'M' as u8, 'Q' as u8, 'I' as u8, 's' as u8, 'd' as u8,
            'p' as u8, 0x03,
            0b00000000, // -username, -password, -will retain, will qos=0, -last_will, -clean_session
            0x00, 0x3c, // 60 sec
            0x00, 0x04, 't' as u8, 'e' as u8, 's' as u8, 't' as u8 // client_id
        ]
    );
}

#[test]
fn write_packet_connack_test() {
    let connack = Packet::Connack(Connack {
        session_present: true,
        code: ConnectReturnCode::Accepted,
    });

    assert_eq!(written(&connack), vec![0b00100000, 0x02, 0x01, 0x00]);
}

#[test]
fn write_packet_publish_test() {
    let publish = Packet::Publish(Publish {
        dup: false,
        qos: QoS::AtLeastOnce,
        retain: false,
        topic_name: "a/b".to_owned(),
        pid: Some(PacketIdentifier(10)),
        payload: vec![0xF1, 0xF2, 0xF3, 0xF4],
    });

    assert_eq!(
        written(&publish),
        vec![0b00110010, 11, 0x00, 0x03, 'a' as u8, '/' as u8, 'b' as u8, 0x00, 0x0a, 0xF1, 0xF2, 0xF3, 0xF4]
    );
}

#[test]
fn write_packet_subscribe_test() {
    let subscribe = Packet::Subscribe(Subscribe {
        pid: PacketIdentifier(260),
        topics: vec![
            ("a/+".to_owned(), QoS::AtMostOnce),
            ("#".to_owned(), QoS::AtLeastOnce),
            ("a/b/c".to_owned(), QoS::ExactlyOnce),
        ],
    });

    assert_eq!(
        written(&subscribe),
        vec![
            0b10000010, 20, 0x01, 0x04, // pid = 260
            0x00, 0x03, 'a' as u8, '/' as u8, '+' as u8, // topic filter = 'a/+'
            0x00, // qos = 0
            0x00, 0x01, '#' as u8, // topic filter = '#'
            0x01, // qos = 1
            0x00, 0x05, 'a' as u8, '/' as u8, 'b' as u8, '/' as u8, 'c' as u8, // topic filter = 'a/b/c'
            0x02 // qos = 2
        ]
    );
}

#[test]
fn connect_scenario_with_user_name() {
    let connect = Packet::Connect(Connect {
        protocol: Protocol::MQTT(4),
        keep_alive: 10,
        client_id: "test".to_owned(),
        clean_session: true,
        last_will: Some(LastWill {
            topic: "/a".to_owned(),
            message: "offline".to_owned(),
            retain: false,
            qos: QoS::AtLeastOnce,
        }),
        username: Some("user".to_owned()),
        password: Some("mq".to_owned()),
    });
    let mut expected: Vec<u8> = vec![0x10, 0x27, 0x00, 0x04];
    expected.extend_from_slice(b"MQTT");
    expected.extend_from_slice(&[0x04, 0xCE, 0x00, 0x0A, 0x00, 0x04]);
    expected.extend_from_slice(b"test");
    expected.extend_from_slice(&[0x00, 0x02]);
    expected.extend_from_slice(b"/a");
    expected.extend_from_slice(&[0x00, 0x07]);
    expected.extend_from_slice(b"offline");
    expected.extend_from_slice(&[0x00, 0x04]);
    expected.extend_from_slice(b"user");
    expected.extend_from_slice(&[0x00, 0x02]);
    expected.extend_from_slice(b"mq");
    assert_eq!(written(&connect), expected);
}

#[test]
fn connect_will_retain_and_qos_two_flags() {
    let connect = Packet::Connect(Connect {
        protocol: Protocol::MQTT(4),
        keep_alive: 0,
        client_id: "c".to_owned(),
        clean_session: false,
        last_will: Some(LastWill {
            topic: "t".to_owned(),
            message: "m".to_owned(),
            retain: true,
            qos: QoS::ExactlyOnce,
        }),
        username: None,
        password: None,
    });
    let out = written(&connect);
    // flags: will present (0x04), will QoS 2 (0x10), will retain (0x20)
    assert_eq!(out[9], 0x34);
    assert_eq!(out[1] as usize, out.len() - 2);
}

#[test]
fn connect_client_id_too_long_is_refused() {
    let connect = Packet::Connect(Connect {
        protocol: Protocol::MQTT(4),
        keep_alive: 10,
        client_id: "x".repeat(65536),
        clean_session: true,
        last_will: None,
        username: None,
        password: None,
    });
    let mut stream: Vec<u8> = vec![7];
    assert_eq!(stream.write_packet(&connect), Err(Error::StringTooLong));
    assert_eq!(stream, vec![7]);
}

#[test]
fn publish_at_most_once_has_no_identifier() {
    let publish = Packet::Publish(Publish {
        dup: true,
        qos: QoS::AtMostOnce,
        retain: true,
        topic_name: "a/b".to_owned(),
        pid: Some(PacketIdentifier(10)),
        payload: vec![0xF1, 0xF2],
    });
    assert_eq!(
        written(&publish),
        vec![0x39, 7, 0x00, 0x03, b'a', b'/', b'b', 0xF1, 0xF2]
    );
}

#[test]
fn publish_exactly_once_without_identifier() {
    let publish = Packet::Publish(Publish {
        dup: false,
        qos: QoS::ExactlyOnce,
        retain: false,
        topic_name: "t".to_owned(),
        pid: None,
        payload: vec![],
    });
    assert_eq!(written(&publish), vec![0x34, 3, 0x00, 0x01, b't']);
}

#[test]
fn publish_payload_too_long_is_refused() {
    let publish = Packet::Publish(Publish {
        dup: false,
        qos: QoS::AtMostOnce,
        retain: false,
        topic_name: "a/b".to_owned(),
        pid: None,
        payload: vec![0u8; mqtt3::wire::MAX_PAYLOAD_SIZE - 4],
    });
    let mut stream: Vec<u8> = Vec::new();
    assert_eq!(stream.write_packet(&publish), Err(Error::PayloadTooLong));
    assert!(stream.is_empty());
}

#[test]
fn publish_large_payload_uses_three_length_bytes() {
    let publish = Packet::Publish(Publish {
        dup: false,
        qos: QoS::AtMostOnce,
        retain: false,
        topic_name: "t".to_owned(),
        pid: None,
        payload: vec![0xAB; 20000],
    });
    let out = written(&publish);
    // remaining length 20003 = 0x4E23: 0xA3, 0x9C, 0x01
    assert_eq!(&out[..4], &[0x30, 0xA3, 0x9C, 0x01]);
    assert_eq!(out.len(), 4 + 20003);
}

#[test]
fn suback_combines_failure_flag_and_qos() {
    let suback = Packet::Suback(Suback {
        pid: PacketIdentifier(0x0102),
        return_codes: vec![
            (false, QoS::AtMostOnce),
            (false, QoS::AtLeastOnce),
            (false, QoS::ExactlyOnce),
            (true, QoS::AtMostOnce),
        ],
    });
    assert_eq!(
        written(&suback),
        vec![0x90, 6, 0x01, 0x02, 0x00, 0x01, 0x02, 0x80]
    );
}

#[test]
fn acks_and_empty_packets() {
    assert_eq!(written(&Packet::Puback(PacketIdentifier(0x1234))), vec![0x40, 0x02, 0x12, 0x34]);
    assert_eq!(written(&Packet::Pubrel(PacketIdentifier(10))), vec![0x62, 0x02, 0x00, 0x0A]);
    assert_eq!(written(&Packet::Unsuback(PacketIdentifier(260))), vec![0xB0, 0x02, 0x01, 0x04]);
    assert_eq!(written(&Packet::Pingreq), vec![0xC0, 0x00]);
    assert_eq!(written(&Packet::Pingresp), vec![0xD0, 0x00]);
    assert_eq!(written(&Packet::Disconnect), vec![0xE0, 0x00]);
}

#[test]
fn unsupported_kinds_write_nothing() {
    let packets = vec![
        Packet::Pubrec(PacketIdentifier(1)),
        Packet::Pubcomp(PacketIdentifier(2)),
        Packet::Unsubscribe(Unsubscribe {
            pid: PacketIdentifier(3),
            topics: vec!["a".to_owned()],
        }),
    ];
    for p in packets.iter() {
        let mut stream: Vec<u8> = vec![1, 2];
        assert_eq!(stream.write_packet(p), Err(Error::UnsupportedPacketType));
        assert_eq!(stream, vec![1, 2]);
    }
}
