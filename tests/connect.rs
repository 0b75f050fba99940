use byteorder::{BigEndian, WriteBytesExt};
use mqtt_decode::{Connect, Error, QoS, Status, PROTOCOL_REVISION_3_1_1};
use std::io::{Cursor, Write};

fn encode_str(s: &str) -> Cursor<Vec<u8>> {
    let mut buf = Cursor::new(Vec::new());
    buf.write_u16::<BigEndian>(s.len() as u16).unwrap();
    buf.write(s.as_bytes()).unwrap();

    buf
}

fn field(b: &[u8]) -> Vec<u8> {
    let mut v = vec![(b.len() >> 8) as u8, (b.len() & 0xff) as u8];
    v.extend_from_slice(b);
    v
}

/// "MQTT", revision 4, the given flags, keep-alive 60 and client id "abc".
fn packet(flags: u8) -> Vec<u8> {
    let mut v = field(b"MQTT");
    v.extend_from_slice(&[4, flags, 0x00, 0x3c]);
    v.extend_from_slice(&field(b"abc"));
    v
}

/// A packet with every optional field.
fn full_packet() -> Vec<u8> {
    let mut v = field(b"MQTT");
    v.extend_from_slice(&[4, 0b1110_1110, 0x01, 0x02]);
    v.extend_from_slice(&field(b"client"));
    v.extend_from_slice(&field(b"will/topic"));
    v.extend_from_slice(&field(&[0, 1, 2, 0xff]));
    v.extend_from_slice(&field("us\u{e9}r".as_bytes()));
    v.extend_from_slice(&field(b"secret"));
    v
}

#[test]
fn insufficient_buf() {
    assert_eq!(Status::Partial, Connect::from_bytes(&[]).unwrap());
    assert_eq!(Status::Partial, Connect::from_bytes(&[1]).unwrap());
    assert_eq!(
        Status::Partial,
        Connect::from_bytes(encode_str("MQTT").get_ref().as_ref()).unwrap()
    );

    let mut buf = encode_str("MQTT");
    buf.write(&[0]).unwrap();
    assert_eq!(
        Status::Partial,
        Connect::from_bytes(buf.get_ref().as_ref()).unwrap()
    );
}

#[test]
fn parse_connect() {
    let mut buf = encode_str("MQTT");
    buf.write(&[1, 2]).unwrap(); // protocol revision + protocol flags
    // the keep-alive and the client identifier are still missing
    assert_eq!(
        Status::Partial,
        Connect::from_bytes(buf.get_ref().as_ref()).unwrap()
    );
    buf.write(&[0, 0, 0, 0]).unwrap(); // keep alive + empty client identifier
    let conn = Connect::from_bytes(buf.get_ref().as_ref())
        .unwrap()
        .unwrap();
    assert_eq!(conn.name(), "MQTT");
    assert_eq!(*conn.revision(), 1);
    assert_eq!(*conn.flags(), 2);
    assert_eq!(conn.client_id(), "");
}

#[test]
fn end_to_end_clean_session() {
    let buf = packet(0x02);
    let conn = Connect::from_bytes(&buf).unwrap().unwrap();
    assert_eq!(conn.name(), "MQTT");
    assert_eq!(*conn.revision(), 4);
    assert_eq!(*conn.flags(), 0x02);
    assert!(*conn.clean_session());
    assert!(!*conn.will_flag());
    assert!(!*conn.will_retain());
    assert_eq!(*conn.will_qos(), QoS::AtMostOnce);
    assert_eq!(*conn.keep_alive(), 60);
    assert_eq!(conn.client_id(), "abc");
    assert_eq!(*conn.will_topic(), None);
    assert_eq!(*conn.will_msg(), None);
    assert!(!*conn.username_present());
    assert_eq!(*conn.username(), None);
    assert!(!*conn.password_present());
    assert_eq!(*conn.password(), None);
}

#[test]
fn end_to_end_truncated_client_id() {
    let buf = packet(0x02);
    assert_eq!(
        Status::Partial,
        Connect::from_bytes(&buf[..buf.len() - 1]).unwrap()
    );
}

#[test]
fn short_buffers_are_partial() {
    for n in 0..2 {
        let buf = vec![0u8; n];
        assert_eq!(Status::Partial, Connect::from_bytes(&buf).unwrap());
        assert_eq!(
            Status::Partial,
            mqtt_decode::decode_len_prefixed_bytes(&buf).unwrap()
        );
        assert_eq!(Status::Partial, mqtt_decode::decode_string(&buf).unwrap());
    }
    assert_eq!(Status::Partial, Connect::from_bytes(&[0xff]).unwrap());
}

#[test]
fn declared_length_beyond_buffer_is_partial() {
    // declares 5 bytes, holds 4; the content is not valid UTF-8 either
    let buf = [0, 5, 0xff, 0xfe, 0xfd, 0xfc];
    assert_eq!(
        Status::Partial,
        mqtt_decode::decode_len_prefixed_bytes(&buf).unwrap()
    );
    assert_eq!(Status::Partial, mqtt_decode::decode_string(&buf).unwrap());
    assert_eq!(Status::Partial, Connect::from_bytes(&buf).unwrap());
    let big = [0xff, 0xff, 1, 2, 3];
    assert_eq!(
        Status::Partial,
        mqtt_decode::decode_len_prefixed_bytes(&big).unwrap()
    );
}

#[test]
fn decode_twice_gives_same_packet() {
    let buf = full_packet();
    let a = Connect::from_bytes(&buf).unwrap();
    let b = Connect::from_bytes(&buf).unwrap();
    assert!(a.is_complete());
    assert_eq!(a, b);
}

#[test]
fn prefixes_are_partial_or_same() {
    let buf = full_packet();
    let whole = Connect::from_bytes(&buf).unwrap().unwrap();
    for n in 0..buf.len() {
        assert_eq!(
            Status::Partial,
            Connect::from_bytes(&buf[..n]).unwrap(),
            "prefix of {} bytes",
            n
        );
    }
    let mut longer = buf.clone();
    longer.extend_from_slice(&[9, 9, 9]);
    let again = Connect::from_bytes(&longer).unwrap().unwrap();
    assert_eq!(whole, again);
}

#[test]
fn round_trip_all_fields() {
    let buf = full_packet();
    let conn = Connect::from_bytes(&buf).unwrap().unwrap();
    assert_eq!(conn.name(), "MQTT");
    assert_eq!(*conn.revision(), 4);
    assert_eq!(*conn.flags(), 0b1110_1110);
    assert!(*conn.clean_session());
    assert!(*conn.will_flag());
    assert_eq!(*conn.will_qos(), QoS::AtLeastOnce);
    assert!(*conn.will_retain());
    assert_eq!(*conn.keep_alive(), 258);
    assert_eq!(conn.client_id(), "client");
    assert_eq!(*conn.will_topic(), Some("will/topic"));
    assert_eq!(*conn.will_msg(), Some(&[0u8, 1, 2, 0xff][..]));
    assert!(*conn.username_present());
    assert_eq!(*conn.username(), Some("us\u{e9}r"));
    assert!(*conn.password_present());
    assert_eq!(*conn.password(), Some(&b"secret"[..]));
}

#[test]
fn will_with_exactly_once() {
    let mut v = field(b"MQTT");
    v.extend_from_slice(&[4, 0b0001_0100, 0, 0]);
    v.extend_from_slice(&field(b"c"));
    v.extend_from_slice(&field(b"t"));
    v.extend_from_slice(&field(b""));
    let conn = Connect::from_bytes(&v).unwrap().unwrap();
    assert!(*conn.will_flag());
    assert!(!*conn.clean_session());
    assert_eq!(*conn.will_qos(), QoS::ExactlyOnce);
    assert_eq!(*conn.will_topic(), Some("t"));
    assert_eq!(*conn.will_msg(), Some(&[][..]));
    // without the will message the packet is not complete
    assert_eq!(
        Status::Partial,
        Connect::from_bytes(&v[..v.len() - 2]).unwrap()
    );
}

#[test]
fn reserved_flag_is_rejected() {
    assert_eq!(
        Err(Error::InvalidConnectFlag),
        Connect::from_bytes(&packet(0b0000_0001))
    );
}

#[test]
fn will_qos_without_will_is_rejected() {
    assert_eq!(
        Err(Error::InvalidQoS),
        Connect::from_bytes(&packet(0b0000_1000))
    );
}

#[test]
fn will_retain_without_will_is_rejected() {
    assert_eq!(
        Err(Error::InvalidWillRetain),
        Connect::from_bytes(&packet(0b0010_0000))
    );
}

#[test]
fn password_without_username_is_rejected() {
    assert_eq!(
        Err(Error::PasswordWithoutUsername),
        Connect::from_bytes(&packet(0b0100_0000))
    );
}

#[test]
fn reserved_will_qos_is_rejected() {
    assert_eq!(
        Err(Error::InvalidQoS),
        Connect::from_bytes(&packet(0b0001_1000))
    );
    assert_eq!(
        Err(Error::InvalidQoS),
        Connect::from_bytes(&packet(0b0001_1100))
    );
}

#[test]
fn flags_are_checked_before_the_rest_arrives() {
    let mut buf = field(b"MQTT");
    buf.extend_from_slice(&[4, 0b0000_0001]);
    assert_eq!(Err(Error::InvalidConnectFlag), Connect::from_bytes(&buf));
    // only the revision: the flags are not there yet
    assert_eq!(
        Status::Partial,
        Connect::from_bytes(&buf[..buf.len() - 1]).unwrap()
    );
}

#[test]
fn invalid_utf8_name_is_rejected() {
    let buf = [0, 2, 0xc3, 0x28, 4, 2, 0, 0, 0, 0];
    assert_eq!(Err(Error::Utf8), Connect::from_bytes(&buf));
}

#[test]
fn invalid_utf8_client_id_is_rejected() {
    let mut buf = field(b"MQTT");
    buf.extend_from_slice(&[4, 0, 0, 0]);
    buf.extend_from_slice(&field(&[0xed, 0xa0, 0x80]));
    assert_eq!(Err(Error::Utf8), Connect::from_bytes(&buf));
}

#[test]
fn password_is_the_last_field() {
    let mut v = field(b"MQTT");
    v.extend_from_slice(&[4, 0b1100_0000, 0, 10]);
    v.extend_from_slice(&field(b"id"));
    v.extend_from_slice(&field(b"user"));
    v.extend_from_slice(&field(b"pw"));
    v.extend_from_slice(b"trailing");
    let conn = Connect::from_bytes(&v).unwrap().unwrap();
    assert_eq!(*conn.username(), Some("user"));
    assert_eq!(*conn.password(), Some(&b"pw"[..]));
    assert_eq!(*conn.keep_alive(), 10);
}
