use vstd::prelude::*;

use crate::error::Error;

verus! {

/// Quality of service level of a message.
#[derive(Copy, Clone, PartialEq, Eq, Debug, Structural)]
pub enum QoS {
    /// At most once delivery.
    AtMostOnce,
    /// At least once delivery.
    AtLeastOnce,
    /// Exactly once delivery.
    ExactlyOnce,
}

/// The level that a raw two-bit QoS value stands for; the pattern `0b11` is reserved.
pub open spec fn qos_of(v: u8) -> Result<QoS, Error> {
    if v == 0 {
        Ok(QoS::AtMostOnce)
    } else if v == 1 {
        Ok(QoS::AtLeastOnce)
    } else if v == 2 {
        Ok(QoS::ExactlyOnce)
    } else {
        Err(Error::InvalidQoS)
    }
}

/// The raw two-bit value of a QoS level.
pub open spec fn qos_bits(q: QoS) -> u8 {
    match q {
        QoS::AtMostOnce => 0,
        QoS::AtLeastOnce => 1,
        QoS::ExactlyOnce => 2,
    }
}

impl QoS {
    /// Converts a raw QoS value into a level, failing with `InvalidQoS` for
    /// any value but 0, 1 and 2.
    pub fn from_u8(v: u8) -> (r: Result<QoS, Error>)
        ensures
            r == qos_of(v),
    {
        match v {
            0 => Ok(QoS::AtMostOnce),
            1 => Ok(QoS::AtLeastOnce),
            2 => Ok(QoS::ExactlyOnce),
            _ => Err(Error::InvalidQoS),
        }
    }
}

} // verus!
