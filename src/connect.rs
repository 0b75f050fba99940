use vstd::prelude::*;
use vstd::slice::slice_subrange;

use crate::decode::{
    be_u16, bytes_field, decode_len_prefixed_bytes, decode_string, prefixed_len, read_u16_be,
    string_field,
};
use crate::error::Error;
use crate::qos::{qos_of, QoS};
use crate::status::Status;

verus! {

/// Protocol revision of MQTT 3.1.1.
pub const PROTOCOL_REVISION_3_1_1: u8 = 0x04;

/// Connect flag: the session starts clean.
pub const CLEAN_SESSION: u8 = 0b0000_0010;

/// Connect flag: a will message is present.
pub const WILL_FLAG: u8 = 0b0000_0100;

/// Connect flag: the will message is retained.
pub const WILL_RETAIN: u8 = 0b0010_0000;

/// Connect flag: a password is present.
pub const PASSWORD_PRESENT: u8 = 0b0100_0000;

/// Connect flag: a user name is present.
pub const USERNAME_PRESENT: u8 = 0b1000_0000;

/// Connect flag: reserved, always zero.
pub const RESERVED: u8 = 0b0000_0001;

/// The two-bit will QoS field of a connect-flags byte.
pub open spec fn will_qos_bits(flags: u8) -> u8 {
    (flags >> 3u8) & 3u8
}

/// Whether any bit of `mask` is set in `flags`.
pub open spec fn has_flag(flags: u8, mask: u8) -> bool {
    flags & mask != 0
}

/// The validation of a connect-flags byte: the will QoS it carries, or the
/// first rule that it breaks.
pub open spec fn flags_check(flags: u8) -> Result<QoS, Error> {
    if has_flag(flags, RESERVED) {
        Err(Error::InvalidConnectFlag)
    } else {
        match qos_of(will_qos_bits(flags)) {
            Err(e) => Err(e),
            Ok(q) => {
                if !has_flag(flags, WILL_FLAG) && q != QoS::AtMostOnce {
                    Err(Error::InvalidQoS)
                } else if !has_flag(flags, WILL_FLAG) && has_flag(flags, WILL_RETAIN) {
                    Err(Error::InvalidWillRetain)
                } else if !has_flag(flags, USERNAME_PRESENT) && has_flag(flags, PASSWORD_PRESENT) {
                    Err(Error::PasswordWithoutUsername)
                } else {
                    Ok(q)
                }
            },
        }
    }
}

/// The logical content of a CONNECT packet; text fields as characters.
pub struct ConnectView {
    pub name: Seq<char>,
    pub revision: u8,
    pub flags: u8,
    pub clean_session: bool,
    pub will_flag: bool,
    pub will_topic: Option<Seq<char>>,
    pub will_msg: Option<Seq<u8>>,
    pub will_qos: QoS,
    pub will_retain: bool,
    pub username_present: bool,
    pub username: Option<Seq<char>>,
    pub password_present: bool,
    pub password: Option<Seq<u8>>,
    /// Keep-alive interval in whole seconds.
    pub keep_alive: u16,
    pub client_id: Seq<char>,
}

/// The consistency that every decoded packet has: the reserved bit is clear;
/// without a will there is no will QoS, retain, topic or message, and with
/// one both topic and message are there; the user name and password are there
/// exactly when flagged, and no password comes without a user name.
pub open spec fn is_consistent(v: ConnectView) -> bool {
    &&& !has_flag(v.flags, RESERVED)
    &&& !v.will_flag ==> v.will_qos == QoS::AtMostOnce && !v.will_retain
    &&& v.will_topic is Some == v.will_flag
    &&& v.will_msg is Some == v.will_flag
    &&& v.username is Some == v.username_present
    &&& v.password is Some == v.password_present
    &&& v.password_present ==> v.username_present
}

/// Reading a string field at position `p` of `b`: its characters and the
/// position just after it.
pub open spec fn string_at(b: Seq<u8>, p: int) -> Result<Status<(Seq<char>, int)>, Error> {
    match string_field(b.skip(p)) {
        Ok(Status::Complete(s)) => Ok(Status::Complete((s, p + 2 + prefixed_len(b.skip(p))))),
        Ok(Status::Partial) => Ok(Status::Partial),
        Err(e) => Err(e),
    }
}

/// A string field at `p` when `present`; nothing, and the same position, otherwise.
pub open spec fn opt_string_at(b: Seq<u8>, p: int, present: bool) -> Result<
    Status<(Option<Seq<char>>, int)>,
    Error,
> {
    if !present {
        Ok(Status::Complete((None, p)))
    } else {
        match string_at(b, p) {
            Ok(Status::Complete((s, q))) => Ok(Status::Complete((Some(s), q))),
            Ok(Status::Partial) => Ok(Status::Partial),
            Err(e) => Err(e),
        }
    }
}

/// A byte-string field at `p` when `present`; nothing, and the same position, otherwise.
pub open spec fn opt_bytes_at(b: Seq<u8>, p: int, present: bool) -> Status<(Option<Seq<u8>>, int)> {
    if !present {
        Status::Complete((None, p))
    } else {
        match bytes_field(b.skip(p)) {
            Status::Complete(s) => Status::Complete((Some(s), p + 2 + s.len())),
            Status::Partial => Status::Partial,
        }
    }
}

/// The fixed part of a packet whose name, revision, flags and keep-alive are
/// given, before any field of the payload is read.
pub open spec fn header_view(name: Seq<char>, revision: u8, flags: u8, will_qos: QoS, keep_alive: u16) -> ConnectView {
    ConnectView {
        name,
        revision,
        flags,
        clean_session: has_flag(flags, CLEAN_SESSION),
        will_flag: has_flag(flags, WILL_FLAG),
        will_topic: None,
        will_msg: None,
        will_qos,
        will_retain: has_flag(flags, WILL_RETAIN),
        username_present: has_flag(flags, USERNAME_PRESENT),
        username: None,
        password_present: has_flag(flags, PASSWORD_PRESENT),
        password: None,
        keep_alive,
        client_id: Seq::empty(),
    }
}

/// Decoding the payload that starts at `p`, after the fixed part `hdr`.
pub open spec fn payload_spec(b: Seq<u8>, p: int, hdr: ConnectView) -> Result<Status<ConnectView>, Error> {
    match string_at(b, p) {
        Err(e) => Err(e),
        Ok(Status::Partial) => Ok(Status::Partial),
        Ok(Status::Complete((client_id, pos1))) => match opt_string_at(b, pos1, hdr.will_flag) {
            Err(e) => Err(e),
            Ok(Status::Partial) => Ok(Status::Partial),
            Ok(Status::Complete((will_topic, pos2))) => match opt_bytes_at(b, pos2, hdr.will_flag) {
                Status::Partial => Ok(Status::Partial),
                Status::Complete((will_msg, pos3)) => match opt_string_at(b, pos3, hdr.username_present) {
                    Err(e) => Err(e),
                    Ok(Status::Partial) => Ok(Status::Partial),
                    Ok(Status::Complete((username, pos4))) => match opt_bytes_at(b, pos4, hdr.password_present) {
                        Status::Partial => Ok(Status::Partial),
                        Status::Complete((password, _)) => Ok(Status::Complete(
                            ConnectView { client_id, will_topic, will_msg, username, password, ..hdr },
                        )),
                    },
                },
            },
        },
    }
}

/// What decoding the buffer `b` as a CONNECT packet gives.
pub open spec fn connect_spec(b: Seq<u8>) -> Result<Status<ConnectView>, Error> {
    match string_at(b, 0) {
        Err(e) => Err(e),
        Ok(Status::Partial) => Ok(Status::Partial),
        Ok(Status::Complete((name, p))) => {
            if b.len() < p + 2 {
                Ok(Status::Partial)
            } else {
                match flags_check(b[p + 1]) {
                    Err(e) => Err(e),
                    Ok(will_qos) => {
                        if b.len() < p + 4 {
                            Ok(Status::Partial)
                        } else {
                            let keep_alive = be_u16(b[p + 2], b[p + 3]) as u16;
                            payload_spec(b, p + 4, header_view(name, b[p], b[p + 1], will_qos, keep_alive))
                        }
                    },
                }
            }
        },
    }
}

/// The characters of an optional string slice.
pub open spec fn opt_chars(o: Option<&str>) -> Option<Seq<char>> {
    match o {
        Some(s) => Some(s@),
        None => None,
    }
}

/// The bytes of an optional byte slice.
pub open spec fn opt_bytes(o: Option<&[u8]>) -> Option<Seq<u8>> {
    match o {
        Some(s) => Some(s@),
        None => None,
    }
}

/// A CONNECT packet whose variable-length fields borrow from the buffer it
/// was decoded from.
#[derive(Debug, PartialEq)]
pub struct Connect<'buf> {
    name: &'buf str,
    revision: u8,
    flags: u8,
    clean_session: bool,
    will_flag: bool,
    will_topic: Option<&'buf str>,
    will_msg: Option<&'buf [u8]>,
    will_qos: QoS,
    will_retain: bool,
    username_present: bool,
    username: Option<&'buf str>,
    password_present: bool,
    password: Option<&'buf [u8]>,
    keep_alive: u16,
    client_id: &'buf str,
}

impl<'buf> View for Connect<'buf> {
    type V = ConnectView;

    closed spec fn view(&self) -> ConnectView {
        ConnectView {
            name: self.name@,
            revision: self.revision,
            flags: self.flags,
            clean_session: self.clean_session,
            will_flag: self.will_flag,
            will_topic: opt_chars(self.will_topic),
            will_msg: opt_bytes(self.will_msg),
            will_qos: self.will_qos,
            will_retain: self.will_retain,
            username_present: self.username_present,
            username: opt_chars(self.username),
            password_present: self.password_present,
            password: opt_bytes(self.password),
            keep_alive: self.keep_alive,
            client_id: self.client_id@,
        }
    }
}

/// The logical content of a decoding outcome.
pub open spec fn outcome_view(r: Result<Status<Connect>, Error>) -> Result<Status<ConnectView>, Error> {
    match r {
        Ok(s) => Ok(s@),
        Err(e) => Err(e),
    }
}

/// Checks a connect-flags byte and returns the will QoS that it carries.
fn validate_flags(flags: u8) -> (r: Result<QoS, Error>)
    ensures
        r == flags_check(flags),
{
    // the reserved bit must be zero
    if flags & RESERVED != 0 {
        return Err(Error::InvalidConnectFlag);
    }
    let will_qos = match QoS::from_u8((flags >> 3u8) & 3u8) {
        Ok(q) => q,
        Err(e) => return Err(e),
    };
    let will_flag = flags & WILL_FLAG != 0;
    // without a will, its QoS and retain bits must be zero
    if !will_flag {
        if will_qos != QoS::AtMostOnce {
            return Err(Error::InvalidQoS);
        }
        if flags & WILL_RETAIN != 0 {
            return Err(Error::InvalidWillRetain);
        }
    }
    // without a user name, there is no password
    if flags & USERNAME_PRESENT == 0 && flags & PASSWORD_PRESENT != 0 {
        return Err(Error::PasswordWithoutUsername);
    }
    Ok(will_qos)
}

impl<'buf> Connect<'buf> {
    /// A packet of the current protocol revision with the given name, client
    /// identifier and keep-alive (in seconds), no flag set and no optional field.
    pub fn new(name: &'buf str, client_id: &'buf str, keep_alive: u16) -> (r: Connect<'buf>)
        ensures
            r@ == (ConnectView {
                name: name@,
                revision: PROTOCOL_REVISION_3_1_1,
                flags: 0,
                clean_session: false,
                will_flag: false,
                will_topic: None,
                will_msg: None,
                will_qos: QoS::AtMostOnce,
                will_retain: false,
                username_present: false,
                username: None,
                password_present: false,
                password: None,
                keep_alive,
                client_id: client_id@,
            }),
    {
        Connect {
            name,
            revision: PROTOCOL_REVISION_3_1_1,
            flags: 0,
            clean_session: false,
            will_flag: false,
            will_topic: None,
            will_msg: None,
            will_qos: QoS::AtMostOnce,
            will_retain: false,
            username_present: false,
            username: None,
            password_present: false,
            password: None,
            keep_alive,
            client_id,
        }
    }

    /// Sets the protocol revision.
    pub fn with_revision(self, revision: u8) -> (r: Connect<'buf>)
        ensures
            r@ == (ConnectView { revision, ..self@ }),
    {
        Connect { revision, ..self }
    }

    /// Sets the raw connect-flags byte; the derived fields are left as they are.
    pub fn with_flags(self, flags: u8) -> (r: Connect<'buf>)
        ensures
            r@ == (ConnectView { flags, ..self@ }),
    {
        Connect { flags, ..self }
    }

    /// Sets whether the session starts clean.
    pub fn with_clean_session(self, clean_session: bool) -> (r: Connect<'buf>)
        ensures
            r@ == (ConnectView { clean_session, ..self@ }),
    {
        Connect { clean_session, ..self }
    }

    /// Sets whether a will message is present.
    pub fn with_will_flag(self, will_flag: bool) -> (r: Connect<'buf>)
        ensures
            r@ == (ConnectView { will_flag, ..self@ }),
    {
        Connect { will_flag, ..self }
    }

    /// Sets the will topic.
    pub fn with_will_topic(self, will_topic: &'buf str) -> (r: Connect<'buf>)
        ensures
            r@ == (ConnectView { will_topic: Some(will_topic@), ..self@ }),
    {
        Connect { will_topic: Some(will_topic), ..self }
    }

    /// Sets the will message.
    pub fn with_will_msg(self, will_msg: &'buf [u8]) -> (r: Connect<'buf>)
        ensures
            r@ == (ConnectView { will_msg: Some(will_msg@), ..self@ }),
    {
        Connect { will_msg: Some(will_msg), ..self }
    }

    /// Sets the QoS of the will message.
    pub fn with_will_qos(self, will_qos: QoS) -> (r: Connect<'buf>)
        ensures
            r@ == (ConnectView { will_qos, ..self@ }),
    {
        Connect { will_qos, ..self }
    }

    /// Sets whether the will message is retained.
    pub fn with_will_retain(self, will_retain: bool) -> (r: Connect<'buf>)
        ensures
            r@ == (ConnectView { will_retain, ..self@ }),
    {
        Connect { will_retain, ..self }
    }

    /// Sets the user name, and marks it present.
    pub fn with_username(self, username: &'buf str) -> (r: Connect<'buf>)
        ensures
            r@ == (ConnectView { username_present: true, username: Some(username@), ..self@ }),
    {
        Connect { username_present: true, username: Some(username), ..self }
    }

    /// Sets the password, and marks it present.
    pub fn with_password(self, password: &'buf [u8]) -> (r: Connect<'buf>)
        ensures
            r@ == (ConnectView { password_present: true, password: Some(password@), ..self@ }),
    {
        Connect { password_present: true, password: Some(password), ..self }
    }

    /// The protocol name.
    pub fn name(&self) -> (r: &str)
        ensures
            r@ == self@.name,
    {
        self.name
    }

    /// The protocol revision.
    pub fn revision(&self) -> (r: &u8)
        ensures
            *r == self@.revision,
    {
        &self.revision
    }

    /// The raw connect-flags byte.
    pub fn flags(&self) -> (r: &u8)
        ensures
            *r == self@.flags,
    {
        &self.flags
    }

    /// Whether the session starts clean.
    pub fn clean_session(&self) -> (r: &bool)
        ensures
            *r == self@.clean_session,
    {
        &self.clean_session
    }

    /// Whether a will message is present.
    pub fn will_flag(&self) -> (r: &bool)
        ensures
            *r == self@.will_flag,
    {
        &self.will_flag
    }

    /// The QoS of the will message.
    pub fn will_qos(&self) -> (r: &QoS)
        ensures
            *r == self@.will_qos,
    {
        &self.will_qos
    }

    /// Whether the will message is retained.
    pub fn will_retain(&self) -> (r: &bool)
        ensures
            *r == self@.will_retain,
    {
        &self.will_retain
    }

    /// Whether a user name is present.
    pub fn username_present(&self) -> (r: &bool)
        ensures
            *r == self@.username_present,
    {
        &self.username_present
    }

    /// The user name, if any.
    pub fn username(&self) -> (r: &Option<&'buf str>)
        ensures
            opt_chars(*r) == self@.username,
    {
        &self.username
    }

    /// Whether a password is present.
    pub fn password_present(&self) -> (r: &bool)
        ensures
            *r == self@.password_present,
    {
        &self.password_present
    }

    /// The password, if any.
    pub fn password(&self) -> (r: &Option<&'buf [u8]>)
        ensures
            opt_bytes(*r) == self@.password,
    {
        &self.password
    }

    /// The keep-alive interval, in whole seconds.
    pub fn keep_alive(&self) -> (r: &u16)
        ensures
            *r == self@.keep_alive,
    {
        &self.keep_alive
    }

    /// The client identifier.
    pub fn client_id(&self) -> (r: &'buf str)
        ensures
            r@ == self@.client_id,
    {
        self.client_id
    }

    /// The will topic, if any.
    pub fn will_topic(&self) -> (r: &Option<&'buf str>)
        ensures
            opt_chars(*r) == self@.will_topic,
    {
        &self.will_topic
    }

    /// The will message, if any.
    pub fn will_msg(&self) -> (r: &Option<&'buf [u8]>)
        ensures
            opt_bytes(*r) == self@.will_msg,
    {
        &self.will_msg
    }

    /// Decodes a CONNECT packet from the front of `bytes`, which starts at the
    /// packet's variable header. `Ok(Partial)` when more bytes are needed; an
    /// error when the bytes present already break a rule of the protocol.
    #[verifier::rlimit(60)]
    pub fn from_bytes(bytes: &[u8]) -> (r: Result<Status<Connect<'_>>, Error>)
        ensures
            outcome_view(r) == connect_spec(bytes@),
            bytes@.len() < 2 ==> r matches Ok(Status::Partial),
    {
        let ghost b = bytes@;
        assert(b.skip(0) =~= b);
        // protocol name
        let name = match decode_string(bytes) {
            Ok(Status::Complete(s)) => s,
            Ok(Status::Partial) => return Ok(Status::Partial),
            Err(e) => return Err(e),
        };
        let mut read: usize = 2 + name.len();

        // protocol revision and connect flags
        if bytes.len() - read < 2 {
            return Ok(Status::Partial);
        }
        let revision = bytes[read];
        let flags = bytes[read + 1];
        read = read + 2;
        let will_qos = match validate_flags(flags) {
            Ok(q) => q,
            Err(e) => return Err(e),
        };
        let clean_session = flags & CLEAN_SESSION != 0;
        let will_flag = flags & WILL_FLAG != 0;
        let will_retain = flags & WILL_RETAIN != 0;
        let password_present = flags & PASSWORD_PRESENT != 0;
        let username_present = flags & USERNAME_PRESENT != 0;

        // keep alive, in seconds
        if bytes.len() - read < 2 {
            return Ok(Status::Partial);
        }
        let keep_alive = read_u16_be(slice_subrange(bytes, read, bytes.len()));
        read = read + 2;

        // client identifier
        let client_id = match decode_string(slice_subrange(bytes, read, bytes.len())) {
            Ok(Status::Complete(s)) => s,
            Ok(Status::Partial) => return Ok(Status::Partial),
            Err(e) => return Err(e),
        };
        read = read + 2 + client_id.len();

        // will topic and message
        let mut will_topic = None;
        let mut will_msg = None;
        if will_flag {
            let topic = match decode_string(slice_subrange(bytes, read, bytes.len())) {
                Ok(Status::Complete(s)) => s,
                Ok(Status::Partial) => return Ok(Status::Partial),
                Err(e) => return Err(e),
            };
            read = read + 2 + topic.len();
            let msg = match decode_len_prefixed_bytes(slice_subrange(bytes, read, bytes.len())) {
                Ok(Status::Complete(m)) => m,
                _ => return Ok(Status::Partial),
            };
            read = read + 2 + msg.len();
            will_topic = Some(topic);
            will_msg = Some(msg);
        }

        // user name
        let mut username = None;
        if username_present {
            let user = match decode_string(slice_subrange(bytes, read, bytes.len())) {
                Ok(Status::Complete(s)) => s,
                Ok(Status::Partial) => return Ok(Status::Partial),
                Err(e) => return Err(e),
            };
            read = read + 2 + user.len();
            username = Some(user);
        }

        // password, the last field: nothing is read after it
        let mut password = None;
        if password_present {
            let pass = match decode_len_prefixed_bytes(slice_subrange(bytes, read, bytes.len())) {
                Ok(Status::Complete(m)) => m,
                _ => return Ok(Status::Partial),
            };
            password = Some(pass);
        }

        Ok(
            Status::Complete(
                Connect {
                    name,
                    revision,
                    flags,
                    clean_session,
                    will_flag,
                    will_topic,
                    will_msg,
                    will_qos,
                    will_retain,
                    username_present,
                    username,
                    password_present,
                    password,
                    keep_alive,
                    client_id,
                },
            ),
        )
    }
}

} // verus!
