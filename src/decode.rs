use vstd::prelude::*;
use vstd::slice::slice_subrange;
use vstd::string::StringSliceAdditionalSpecFns;
use vstd::utf8::{decode_utf8, valid_utf8};

use byteorder::ByteOrder;

use crate::error::Error;
use crate::status::Status;

verus! {

broadcast use vstd::utf8::encode_utf8_decode_utf8;

/// The big-endian unsigned integer held by two bytes.
pub open spec fn be_u16(hi: u8, lo: u8) -> int {
    hi as int * 256 + lo as int
}

/// The length that the two-byte prefix at the front of `b` declares.
pub open spec fn prefixed_len(b: Seq<u8>) -> int
    recommends
        b.len() >= 2,
{
    be_u16(b[0], b[1])
}

/// Whether `b` holds a length prefix and all the bytes that it declares.
pub open spec fn prefixed_complete(b: Seq<u8>) -> bool {
    b.len() >= 2 && 2 + prefixed_len(b) <= b.len()
}

/// The bytes that follow the length prefix, as many as it declares.
pub open spec fn prefixed_body(b: Seq<u8>) -> Seq<u8>
    recommends
        prefixed_complete(b),
{
    b.subrange(2, 2 + prefixed_len(b))
}

/// What reading a length-prefixed byte string from the front of `b` gives.
pub open spec fn bytes_field(b: Seq<u8>) -> Status<Seq<u8>> {
    if prefixed_complete(b) {
        Status::Complete(prefixed_body(b))
    } else {
        Status::Partial
    }
}

/// What reading a length-prefixed UTF-8 string from the front of `b` gives:
/// the content is checked only once all of it is there.
pub open spec fn string_field(b: Seq<u8>) -> Result<Status<Seq<char>>, Error> {
    if !prefixed_complete(b) {
        Ok(Status::Partial)
    } else if valid_utf8(prefixed_body(b)) {
        Ok(Status::Complete(decode_utf8(prefixed_body(b))))
    } else {
        Err(Error::Utf8)
    }
}

/// Relies on byteorder's `BigEndian::read_u16`: the first two bytes, most
/// significant first (it panics on fewer than two).
#[verifier::external_body]
pub(crate) fn read_u16_be(buf: &[u8]) -> (r: u16)
    requires
        buf@.len() >= 2,
    ensures
        r as int == be_u16(buf@[0], buf@[1]),
{
    byteorder::BigEndian::read_u16(buf)
}

/// Relies on `core::str::from_utf8`: a string slice over the same bytes when
/// they are valid UTF-8, and an error otherwise.
#[verifier::external_body]
fn str_from_utf8<'a>(b: &'a [u8]) -> (r: Option<&'a str>)
    ensures
        match r {
            Some(s) => valid_utf8(b@) && s.spec_bytes() == b@,
            None => !valid_utf8(b@),
        },
{
    core::str::from_utf8(b).ok()
}

/// Reads a two-byte big-endian length `n` from the front of `buf`, then
/// borrows the `n` bytes that follow it. `Partial` when either is not all
/// there yet; never an error.
pub fn decode_len_prefixed_bytes(buf: &[u8]) -> (r: Result<Status<&[u8]>, Error>)
    ensures
        r matches Ok(s) && s@ == bytes_field(buf@),
        buf@.len() < 2 ==> r matches Ok(Status::Partial),
{
    if buf.len() < 2 {
        return Ok(Status::Partial);
    }
    let n = read_u16_be(buf) as usize;
    if buf.len() - 2 < n {
        return Ok(Status::Partial);
    }
    Ok(Status::Complete(slice_subrange(buf, 2, 2 + n)))
}

/// Reads a length-prefixed string from the front of `buf`, borrowing its
/// bytes. `Partial` when the prefix or the content is not all there yet;
/// `Utf8` when the whole content is there and is not valid UTF-8.
pub fn decode_string(buf: &[u8]) -> (r: Result<Status<&str>, Error>)
    ensures
        match r {
            Ok(s) => string_field(buf@) == Ok::<Status<Seq<char>>, Error>(s@),
            Err(e) => string_field(buf@) == Err::<Status<Seq<char>>, Error>(e),
        },
        r matches Ok(Status::Complete(s)) ==> s.spec_bytes() == prefixed_body(buf@),
        buf@.len() < 2 ==> r matches Ok(Status::Partial),
{
    let bytes = match decode_len_prefixed_bytes(buf) {
        Ok(Status::Complete(b)) => b,
        _ => return Ok(Status::Partial),
    };
    match str_from_utf8(bytes) {
        Some(s) => Ok(Status::Complete(s)),
        None => Err(Error::Utf8),
    }
}

} // verus!
