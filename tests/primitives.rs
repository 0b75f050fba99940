use mqtt_decode::{decode_len_prefixed_bytes, decode_string, Error, QoS, Status};

#[test]
fn len_prefixed_bytes_borrows_exactly_the_declared_span() {
    let buf = [0, 3, 7, 8, 9, 10];
    assert_eq!(
        Status::Complete(&[7u8, 8, 9][..]),
        decode_len_prefixed_bytes(&buf).unwrap()
    );
    assert_eq!(
        Status::Complete(&[][..]),
        decode_len_prefixed_bytes(&[0, 0]).unwrap()
    );
    assert_eq!(
        Status::Partial,
        decode_len_prefixed_bytes(&[0, 3, 7, 8]).unwrap()
    );
}

#[test]
fn len_prefix_is_big_endian() {
    let mut buf = vec![0x01, 0x02];
    buf.extend(std::iter::repeat(5u8).take(0x0102));
    match decode_len_prefixed_bytes(&buf).unwrap() {
        Status::Complete(s) => assert_eq!(s.len(), 258),
        Status::Partial => panic!("expected a complete field"),
    }
    assert_eq!(
        Status::Partial,
        decode_len_prefixed_bytes(&buf[..buf.len() - 1]).unwrap()
    );
}

#[test]
fn largest_field() {
    let mut buf = vec![0xff, 0xff];
    buf.extend(std::iter::repeat(b'a').take(0xffff));
    match decode_string(&buf).unwrap() {
        Status::Complete(s) => assert_eq!(s.len(), 0xffff),
        Status::Partial => panic!("expected a complete field"),
    }
}

#[test]
fn string_is_decoded() {
    assert_eq!(
        Status::Complete("h\u{e9}"),
        decode_string(&[0, 3, b'h', 0xc3, 0xa9, 0]).unwrap()
    );
    assert_eq!(Status::Complete(""), decode_string(&[0, 0]).unwrap());
}

#[test]
fn string_with_invalid_utf8_is_rejected() {
    assert_eq!(Err(Error::Utf8), decode_string(&[0, 1, 0xff]));
    assert_eq!(Err(Error::Utf8), decode_string(&[0, 2, 0xc0, 0x80]));
    // the content is checked only once all of it is there
    assert_eq!(Status::Partial, decode_string(&[0, 2, 0xff]).unwrap());
}

#[test]
fn qos_from_u8() {
    assert_eq!(Ok(QoS::AtMostOnce), QoS::from_u8(0));
    assert_eq!(Ok(QoS::AtLeastOnce), QoS::from_u8(1));
    assert_eq!(Ok(QoS::ExactlyOnce), QoS::from_u8(2));
    assert_eq!(Err(Error::InvalidQoS), QoS::from_u8(3));
    assert_eq!(Err(Error::InvalidQoS), QoS::from_u8(200));
}

#[test]
fn status_helpers() {
    let c: Status<u8> = Status::Complete(7);
    let p: Status<u8> = Status::Partial;
    assert!(c.is_complete());
    assert!(!c.is_partial());
    assert!(p.is_partial());
    assert!(!p.is_complete());
    assert_eq!(7, c.unwrap());
}

#[test]
fn error_descriptions() {
    assert_eq!(Error::PacketType.desc(), "invalid packet type in header");
    assert_eq!(Error::PacketFlag.desc(), "invalid packet type flag in header");
    assert_eq!(
        Error::RemainingLength.desc(),
        "malformed remaining length in header"
    );
    assert_eq!(Error::InvalidLength.desc(), "invalid buffer length");
    assert_eq!(Error::Utf8.desc(), "invalid utf-8 encoding");
    assert_eq!(Error::InvalidConnectFlag.desc(), "invalid connect flag value");
    assert_eq!(Error::InvalidQoS.desc(), "invalid qos value");
    assert_eq!(Error::InvalidWillRetain.desc(), "invalid Will Retain value");
    assert_eq!(
        Error::PasswordWithoutUsername.desc(),
        "cannot provide password without username"
    );
}
