use vstd::prelude::*;

verus! {

/// The kinds of failure that decoding can report. Each carries its kind only.
#[derive(Copy, Clone, PartialEq, Eq, Debug, Structural)]
pub enum Error {
    /// Invalid packet type in header
    PacketType,
    /// Invalid packet type flag in header
    PacketFlag,
    /// Malformed remaining length in header
    RemainingLength,
    /// Invalid buffer length
    InvalidLength,
    /// Invalid UTF-8 encoding
    Utf8,
    /// Invalid connect flag value
    InvalidConnectFlag,
    /// Invalid QoS value
    InvalidQoS,
    /// Invalid Will Retain value
    InvalidWillRetain,
    /// Cannot provide password without username
    PasswordWithoutUsername,
}

impl Error {
    /// A short human-readable description of the error kind.
    pub fn desc(&self) -> (r: &'static str)
        ensures
            match *self {
                Error::PacketType => r@ == "invalid packet type in header"@,
                Error::PacketFlag => r@ == "invalid packet type flag in header"@,
                Error::RemainingLength => r@ == "malformed remaining length in header"@,
                Error::InvalidLength => r@ == "invalid buffer length"@,
                Error::Utf8 => r@ == "invalid utf-8 encoding"@,
                Error::InvalidConnectFlag => r@ == "invalid connect flag value"@,
                Error::InvalidQoS => r@ == "invalid qos value"@,
                Error::InvalidWillRetain => r@ == "invalid Will Retain value"@,
                Error::PasswordWithoutUsername => r@ == "cannot provide password without username"@,
            },
    {
        match *self {
            Error::PacketType => "invalid packet type in header",
            Error::PacketFlag => "invalid packet type flag in header",
            Error::RemainingLength => "malformed remaining length in header",
            Error::InvalidLength => "invalid buffer length",
            Error::Utf8 => "invalid utf-8 encoding",
            Error::InvalidConnectFlag => "invalid connect flag value",
            Error::InvalidQoS => "invalid qos value",
            Error::InvalidWillRetain => "invalid Will Retain value",
            Error::PasswordWithoutUsername => "cannot provide password without username",
        }
    }
}

} // verus!
