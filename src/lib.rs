//! Incremental, zero-copy decoding of the MQTT 3.1.1 CONNECT packet.
//!
//! Decoding is a pure function from a byte buffer, which may hold only a
//! prefix of the packet, to one of three outcomes: an error, `Partial` (more
//! bytes are needed), or a complete packet whose variable-length fields borrow
//! from the buffer.
pub mod connect;
pub mod decode;
pub mod error;
pub mod properties;
pub mod qos;
pub mod status;

pub use connect::{Connect, ConnectView, PROTOCOL_REVISION_3_1_1};
pub use decode::{decode_len_prefixed_bytes, decode_string};
pub use error::Error;
pub use qos::QoS;
pub use status::Status;
