use vstd::prelude::*;

use vstd::utf8::{encode_utf8, encode_utf8_decode_utf8, encode_utf8_valid_utf8};

use crate::connect::{
    connect_spec, flags_check, has_flag, is_consistent, header_view, opt_bytes_at, opt_string_at, outcome_view,
    payload_spec, string_at, Connect, ConnectView, CLEAN_SESSION, PASSWORD_PRESENT,
    USERNAME_PRESENT, WILL_FLAG, WILL_RETAIN,
};
use crate::decode::{be_u16, bytes_field, prefixed_body, prefixed_complete, prefixed_len, string_field};
use crate::error::Error;
use crate::qos::QoS;
use crate::status::Status;

verus! {

/// A buffer of fewer than two bytes holds no length prefix yet: every decoder
/// reports that more bytes are needed.
pub proof fn lemma_short_buffer_is_partial(b: Seq<u8>)
    requires
        b.len() < 2,
    ensures
        bytes_field(b) == Status::<Seq<u8>>::Partial,
        string_field(b) == Ok::<Status<Seq<char>>, Error>(Status::Partial),
        connect_spec(b) == Ok::<Status<ConnectView>, Error>(Status::Partial),
{
    assert(b.skip(0) =~= b);
}

/// When the declared length of a field runs past the end of the buffer,
/// decoding it reports that more bytes are needed, never an error; so does
/// decoding a packet whose protocol name is such a field.
pub proof fn lemma_declared_length_beyond_buffer_is_partial(b: Seq<u8>)
    requires
        b.len() >= 2,
        2 + prefixed_len(b) > b.len(),
    ensures
        bytes_field(b) == Status::<Seq<u8>>::Partial,
        string_field(b) == Ok::<Status<Seq<char>>, Error>(Status::Partial),
        connect_spec(b) == Ok::<Status<ConnectView>, Error>(Status::Partial),
{
    assert(b.skip(0) =~= b);
}

/// Decoding keeps no state between calls: two decodings of the same bytes
/// give the same outcome, field for field.
pub proof fn lemma_decode_is_deterministic(
    b: Seq<u8>,
    r1: Result<Status<Connect>, Error>,
    r2: Result<Status<Connect>, Error>,
)
    requires
        outcome_view(r1) == connect_spec(b),
        outcome_view(r2) == connect_spec(b),
    ensures
        outcome_view(r1) == outcome_view(r2),
{
}

/// Every packet that decoding produces is consistent: its flags passed
/// validation and its optional fields are there exactly as flagged.
pub proof fn lemma_decoded_packet_is_consistent(b: Seq<u8>)
    requires
        connect_spec(b) matches Ok(Status::Complete(_)),
    ensures
        is_consistent(connect_spec(b)->Ok_0->Complete_0),
{
    assert(b.skip(0) =~= b);
}

/// Cutting a buffer whose front holds a complete field keeps the field when
/// the cut falls after it, and leaves it incomplete otherwise.
proof fn lemma_field_take(c: Seq<u8>, m: int)
    requires
        0 <= m <= c.len(),
        prefixed_complete(c),
    ensures
        m >= 2 + prefixed_len(c) ==> prefixed_complete(c.take(m)) && prefixed_len(c.take(m))
            == prefixed_len(c) && prefixed_body(c.take(m)) == prefixed_body(c),
        m < 2 + prefixed_len(c) ==> !prefixed_complete(c.take(m)),
{
    if m >= 2 {
        assert(c.take(m)[0] == c[0]);
        assert(c.take(m)[1] == c[1]);
    }
    if m >= 2 + prefixed_len(c) {
        assert(prefixed_body(c.take(m)) =~= prefixed_body(c));
    }
}

proof fn lemma_opt_string_at_take(b: Seq<u8>, n: int, p: int, present: bool)
    requires
        0 <= p <= n <= b.len(),
        opt_string_at(b, p, present) is Ok,
        opt_string_at(b, p, present)->Ok_0 is Complete,
    ensures
        ({
            let q = opt_string_at(b, p, present)->Ok_0->Complete_0.1;
            &&& p <= q <= b.len()
            &&& n >= q ==> opt_string_at(b.take(n), p, present) == opt_string_at(b, p, present)
            &&& n < q ==> opt_string_at(b.take(n), p, present) == Ok::<
                Status<(Option<Seq<char>>, int)>,
                Error,
            >(Status::Partial)
        }),
{
    if present {
        assert(b.take(n).skip(p) =~= b.skip(p).take(n - p));
        lemma_field_take(b.skip(p), n - p);
    }
}

proof fn lemma_opt_bytes_at_take(b: Seq<u8>, n: int, p: int, present: bool)
    requires
        0 <= p <= n <= b.len(),
        opt_bytes_at(b, p, present) is Complete,
    ensures
        ({
            let q = opt_bytes_at(b, p, present)->Complete_0.1;
            &&& p <= q <= b.len()
            &&& n >= q ==> opt_bytes_at(b.take(n), p, present) == opt_bytes_at(b, p, present)
            &&& n < q ==> opt_bytes_at(b.take(n), p, present) == Status::<
                (Option<Seq<u8>>, int),
            >::Partial
        }),
{
    if present {
        assert(b.take(n).skip(p) =~= b.skip(p).take(n - p));
        lemma_field_take(b.skip(p), n - p);
    }
}

proof fn lemma_payload_take(b: Seq<u8>, n: int, p: int, hdr: ConnectView)
    requires
        0 <= p <= n <= b.len(),
        payload_spec(b, p, hdr) matches Ok(Status::Complete(_)),
    ensures
        payload_spec(b.take(n), p, hdr) == Ok::<Status<ConnectView>, Error>(Status::Partial)
            || payload_spec(b.take(n), p, hdr) == payload_spec(b, p, hdr),
{
    let t = b.take(n);
    lemma_opt_string_at_take(b, n, p, true);
    let pos1 = opt_string_at(b, p, true)->Ok_0->Complete_0.1;
    assert(opt_string_at(b, p, true) == match string_at(b, p) {
        Ok(Status::Complete((s, q))) => Ok(Status::Complete((Some(s), q))),
        Ok(Status::Partial) => Ok(Status::Partial),
        Err(e) => Err(e),
    });
    assert(opt_string_at(t, p, true) == match string_at(t, p) {
        Ok(Status::Complete((s, q))) => Ok(Status::Complete((Some(s), q))),
        Ok(Status::Partial) => Ok(Status::Partial),
        Err(e) => Err(e),
    });
    if n < pos1 {
        return;
    }
    lemma_opt_string_at_take(b, n, pos1, hdr.will_flag);
    let pos2 = opt_string_at(b, pos1, hdr.will_flag)->Ok_0->Complete_0.1;
    if n < pos2 {
        return;
    }
    lemma_opt_bytes_at_take(b, n, pos2, hdr.will_flag);
    let pos3 = opt_bytes_at(b, pos2, hdr.will_flag)->Complete_0.1;
    if n < pos3 {
        return;
    }
    lemma_opt_string_at_take(b, n, pos3, hdr.username_present);
    let pos4 = opt_string_at(b, pos3, hdr.username_present)->Ok_0->Complete_0.1;
    if n < pos4 {
        return;
    }
    lemma_opt_bytes_at_take(b, n, pos4, hdr.password_present);
}

/// Every prefix of a buffer that decodes to a complete packet decodes either
/// to `Partial` or to that very packet: never to an error, and never to other
/// field values.
pub proof fn lemma_prefix_is_partial_or_same(b: Seq<u8>, n: int)
    requires
        0 <= n <= b.len(),
        connect_spec(b) matches Ok(Status::Complete(_)),
    ensures
        connect_spec(b.take(n)) == Ok::<Status<ConnectView>, Error>(Status::Partial)
            || connect_spec(b.take(n)) == connect_spec(b),
{
    let t = b.take(n);
    lemma_opt_string_at_take(b, n, 0, true);
    assert(opt_string_at(b, 0, true) == match string_at(b, 0) {
        Ok(Status::Complete((s, q))) => Ok(Status::Complete((Some(s), q))),
        Ok(Status::Partial) => Ok(Status::Partial),
        Err(e) => Err(e),
    });
    assert(opt_string_at(t, 0, true) == match string_at(t, 0) {
        Ok(Status::Complete((s, q))) => Ok(Status::Complete((Some(s), q))),
        Ok(Status::Partial) => Ok(Status::Partial),
        Err(e) => Err(e),
    });
    let p = string_at(b, 0)->Ok_0->Complete_0.1;
    let name = string_at(b, 0)->Ok_0->Complete_0.0;
    if n < p + 4 {
        return;
    }
    assert(t[p] == b[p] && t[p + 1] == b[p + 1] && t[p + 2] == b[p + 2] && t[p + 3] == b[p + 3]);
    let hdr = header_view(name, b[p], b[p + 1], flags_check(b[p + 1])->Ok_0, be_u16(b[p + 2], b[p + 3]) as u16);
    lemma_payload_take(b, n, p + 4, hdr);
}

/// A length-prefixed field holding `x`.
pub open spec fn field_bytes(x: Seq<u8>) -> Seq<u8> {
    seq![(x.len() / 256) as u8, (x.len() % 256) as u8] + x
}

/// A length-prefixed field holding `x` when there is one; no bytes otherwise.
pub open spec fn opt_field_bytes(o: Option<Seq<u8>>) -> Seq<u8> {
    match o {
        Some(x) => field_bytes(x),
        None => Seq::empty(),
    }
}

/// The UTF-8 encoding of an optional text.
pub open spec fn opt_encode(o: Option<Seq<char>>) -> Option<Seq<u8>> {
    match o {
        Some(s) => Some(encode_utf8(s)),
        None => None,
    }
}

/// Whether an optional field's content fits under a two-byte length prefix.
pub open spec fn opt_fits(o: Option<Seq<u8>>) -> bool {
    match o {
        Some(x) => x.len() <= 0xffff,
        None => true,
    }
}

/// The variable header and payload of a CONNECT packet carrying the fields
/// of `v`, laid out in protocol order.
pub open spec fn connect_bytes(v: ConnectView) -> Seq<u8> {
    field_bytes(encode_utf8(v.name)) + seq![
        v.revision,
        v.flags,
        (v.keep_alive / 256) as u8,
        (v.keep_alive % 256) as u8,
    ] + field_bytes(encode_utf8(v.client_id)) + opt_field_bytes(opt_encode(v.will_topic))
        + opt_field_bytes(v.will_msg) + opt_field_bytes(opt_encode(v.username))
        + opt_field_bytes(v.password)
}

/// A set of CONNECT fields that a packet can carry: valid flags that agree
/// with the derived booleans, the will QoS and the optional fields present,
/// and every variable-length field short enough for its length prefix.
pub open spec fn well_formed_fields(v: ConnectView) -> bool {
    &&& flags_check(v.flags) == Ok::<QoS, Error>(v.will_qos)
    &&& v.clean_session == has_flag(v.flags, CLEAN_SESSION)
    &&& v.will_flag == has_flag(v.flags, WILL_FLAG)
    &&& v.will_retain == has_flag(v.flags, WILL_RETAIN)
    &&& v.username_present == has_flag(v.flags, USERNAME_PRESENT)
    &&& v.password_present == has_flag(v.flags, PASSWORD_PRESENT)
    &&& v.will_topic is Some == v.will_flag
    &&& v.will_msg is Some == v.will_flag
    &&& v.username is Some == v.username_present
    &&& v.password is Some == v.password_present
    &&& encode_utf8(v.name).len() <= 0xffff
    &&& encode_utf8(v.client_id).len() <= 0xffff
    &&& opt_fits(opt_encode(v.will_topic))
    &&& opt_fits(v.will_msg)
    &&& opt_fits(opt_encode(v.username))
    &&& opt_fits(v.password)
}

proof fn lemma_u16_split(n: int)
    requires
        0 <= n <= 0xffff,
    ensures
        be_u16((n / 256) as u8, (n % 256) as u8) == n,
{
    assert(0 <= n / 256 < 256 && 0 <= n % 256 < 256 && n == (n / 256) * 256 + n % 256)
        by (nonlinear_arith)
        requires
            0 <= n <= 0xffff,
    ;
}

/// A field written at position `p` of `b` reads back as its content.
proof fn lemma_field_bytes_at(b: Seq<u8>, p: int, x: Seq<u8>)
    requires
        0 <= p,
        p + 2 + x.len() <= b.len(),
        x.len() <= 0xffff,
        b.subrange(p, p + 2 + x.len()) == field_bytes(x),
    ensures
        prefixed_complete(b.skip(p)),
        prefixed_len(b.skip(p)) == x.len(),
        prefixed_body(b.skip(p)) == x,
{
    let c = b.skip(p);
    let f = field_bytes(x);
    assert(c[0] == b.subrange(p, p + 2 + x.len())[0]);
    assert(c[1] == b.subrange(p, p + 2 + x.len())[1]);
    lemma_u16_split(x.len() as int);
    assert(prefixed_body(c) =~= x) by {
        assert forall|i: int| 0 <= i < x.len() implies prefixed_body(c)[i] == x[i] by {
            assert(b.subrange(p, p + 2 + x.len())[i + 2] == f[i + 2]);
        }
    }
}

proof fn lemma_subrange_of_concat(y: Seq<u8>, x: Seq<u8>)
    ensures
        (y + x).subrange(y.len() as int, (y.len() + x.len()) as int) == x,
{
    assert((y + x).subrange(y.len() as int, (y.len() + x.len()) as int) =~= x);
}

proof fn lemma_subrange_extend(y: Seq<u8>, z: Seq<u8>, i: int, j: int)
    requires
        0 <= i <= j <= y.len(),
    ensures
        (y + z).subrange(i, j) == y.subrange(i, j),
{
    assert((y + z).subrange(i, j) =~= y.subrange(i, j));
}

/// The reads of the protocol name, the fixed bytes and the client
/// identifier in the layout of `v`.
proof fn lemma_layout_reads_fixed(v: ConnectView)
    requires
        well_formed_fields(v),
    ensures
        ({
            let b = connect_bytes(v);
            let pos1 = 2 + encode_utf8(v.name).len() as int;
            let pos2 = pos1 + 4;
            let pos3 = pos2 + 2 + encode_utf8(v.client_id).len();
            let pos4 = pos3 + opt_field_bytes(opt_encode(v.will_topic)).len();
            let pos5 = pos4 + opt_field_bytes(v.will_msg).len();
            let pos6 = pos5 + opt_field_bytes(opt_encode(v.username)).len();
            &&& b.len() >= pos2
            &&& string_at(b, 0) == Ok::<Status<(Seq<char>, int)>, Error>(Status::Complete((v.name, pos1)))
            &&& b[pos1] == v.revision
            &&& b[pos1 + 1] == v.flags
            &&& be_u16(b[pos1 + 2], b[pos1 + 3]) as u16 == v.keep_alive
            &&& string_at(b, pos2) == Ok::<Status<(Seq<char>, int)>, Error>(Status::Complete((v.client_id, pos3)))
        }),
{
    let s0 = field_bytes(encode_utf8(v.name));
    let s1 = seq![v.revision, v.flags, (v.keep_alive / 256) as u8, (v.keep_alive % 256) as u8];
    let s2 = field_bytes(encode_utf8(v.client_id));
    let s3 = opt_field_bytes(opt_encode(v.will_topic));
    let s4 = opt_field_bytes(v.will_msg);
    let s5 = opt_field_bytes(opt_encode(v.username));
    let s6 = opt_field_bytes(v.password);
    let y1 = s0 + s1;
    let y2 = y1 + s2;
    let y3 = y2 + s3;
    let y4 = y3 + s4;
    let y5 = y4 + s5;
    let b = connect_bytes(v);
    assert(b == y5 + s6);
    let pos1 = s0.len() as int;
    let pos2 = pos1 + 4;
    let pos3 = pos2 + s2.len();
    let pos4 = pos3 + s3.len();
    let pos5 = pos4 + s4.len();
    let pos6 = pos5 + s5.len();

    assert(string_at(b, 0) == Ok::<Status<(Seq<char>, int)>, Error>(Status::Complete((v.name, pos1)))) by {
        assert(s0.subrange(0, pos1) =~= s0);
        lemma_subrange_extend(s0, s1, 0, pos1);
        lemma_subrange_extend(y1, s2, 0, pos1);
        lemma_subrange_extend(y2, s3, 0, pos1);
        lemma_subrange_extend(y3, s4, 0, pos1);
        lemma_subrange_extend(y4, s5, 0, pos1);
        lemma_subrange_extend(y5, s6, 0, pos1);
        lemma_field_bytes_at(b, 0, encode_utf8(v.name));
        encode_utf8_valid_utf8(v.name);
        encode_utf8_decode_utf8(v.name);
    }
    assert(b[pos1] == v.revision && b[pos1 + 1] == v.flags && be_u16(b[pos1 + 2], b[pos1 + 3]) as u16 == v.keep_alive) by {
        assert(y1[pos1] == v.revision && y1[pos1 + 1] == v.flags);
        assert(y1[pos1 + 2] == (v.keep_alive / 256) as u8 && y1[pos1 + 3] == (v.keep_alive % 256) as u8);
        lemma_subrange_extend(y1, s2, pos1, pos2);
        lemma_subrange_extend(y2, s3, pos1, pos2);
        lemma_subrange_extend(y3, s4, pos1, pos2);
        lemma_subrange_extend(y4, s5, pos1, pos2);
        lemma_subrange_extend(y5, s6, pos1, pos2);
        assert(b.subrange(pos1, pos2)[0] == b[pos1] && b.subrange(pos1, pos2)[1] == b[pos1 + 1]);
        assert(b.subrange(pos1, pos2)[2] == b[pos1 + 2] && b.subrange(pos1, pos2)[3] == b[pos1 + 3]);
        assert(y1.subrange(pos1, pos2)[0] == y1[pos1] && y1.subrange(pos1, pos2)[1] == y1[pos1 + 1]);
        assert(y1.subrange(pos1, pos2)[2] == y1[pos1 + 2] && y1.subrange(pos1, pos2)[3] == y1[pos1 + 3]);
        lemma_u16_split(v.keep_alive as int);
    }
    assert(string_at(b, pos2) == Ok::<Status<(Seq<char>, int)>, Error>(Status::Complete((v.client_id, pos3)))) by {
        lemma_subrange_of_concat(y1, s2);
        lemma_subrange_extend(y2, s3, pos2, pos3);
        lemma_subrange_extend(y3, s4, pos2, pos3);
        lemma_subrange_extend(y4, s5, pos2, pos3);
        lemma_subrange_extend(y5, s6, pos2, pos3);
        lemma_field_bytes_at(b, pos2, encode_utf8(v.client_id));
        encode_utf8_valid_utf8(v.client_id);
        encode_utf8_decode_utf8(v.client_id);
    }
}

/// An optional string field laid out at `p` reads back as what it holds.
proof fn lemma_opt_string_field_at(b: Seq<u8>, p: int, o: Option<Seq<char>>)
    requires
        0 <= p,
        p + opt_field_bytes(opt_encode(o)).len() <= b.len(),
        opt_fits(opt_encode(o)),
        b.subrange(p, p + opt_field_bytes(opt_encode(o)).len()) == opt_field_bytes(opt_encode(o)),
    ensures
        opt_string_at(b, p, o is Some) == Ok::<Status<(Option<Seq<char>>, int)>, Error>(
            Status::Complete((o, p + opt_field_bytes(opt_encode(o)).len())),
        ),
{
    if let Some(t) = o {
        lemma_field_bytes_at(b, p, encode_utf8(t));
        encode_utf8_valid_utf8(t);
        encode_utf8_decode_utf8(t);
    }
}

/// An optional byte-string field laid out at `p` reads back as what it holds.
proof fn lemma_opt_bytes_field_at(b: Seq<u8>, p: int, o: Option<Seq<u8>>)
    requires
        0 <= p,
        p + opt_field_bytes(o).len() <= b.len(),
        opt_fits(o),
        b.subrange(p, p + opt_field_bytes(o).len()) == opt_field_bytes(o),
    ensures
        opt_bytes_at(b, p, o is Some) == Status::Complete((o, p + opt_field_bytes(o).len())),
{
    if let Some(m) = o {
        lemma_field_bytes_at(b, p, m);
    }
}

/// The reads of the will topic and message in the layout of `v`.
proof fn lemma_layout_reads_will(v: ConnectView)
    requires
        well_formed_fields(v),
    ensures
        ({
            let b = connect_bytes(v);
            let pos1 = 2 + encode_utf8(v.name).len() as int;
            let pos2 = pos1 + 4;
            let pos3 = pos2 + 2 + encode_utf8(v.client_id).len();
            let pos4 = pos3 + opt_field_bytes(opt_encode(v.will_topic)).len();
            let pos5 = pos4 + opt_field_bytes(v.will_msg).len();
            let pos6 = pos5 + opt_field_bytes(opt_encode(v.username)).len();
            &&& opt_string_at(b, pos3, v.will_flag) == Ok::<Status<(Option<Seq<char>>, int)>, Error>(
                Status::Complete((v.will_topic, pos4)),
            )
            &&& opt_bytes_at(b, pos4, v.will_flag) == Status::Complete((v.will_msg, pos5))
        }),
{
    let s0 = field_bytes(encode_utf8(v.name));
    let s1 = seq![v.revision, v.flags, (v.keep_alive / 256) as u8, (v.keep_alive % 256) as u8];
    let s2 = field_bytes(encode_utf8(v.client_id));
    let s3 = opt_field_bytes(opt_encode(v.will_topic));
    let s4 = opt_field_bytes(v.will_msg);
    let s5 = opt_field_bytes(opt_encode(v.username));
    let s6 = opt_field_bytes(v.password);
    let y1 = s0 + s1;
    let y2 = y1 + s2;
    let y3 = y2 + s3;
    let y4 = y3 + s4;
    let y5 = y4 + s5;
    let b = connect_bytes(v);
    assert(b == y5 + s6);
    let pos3 = y2.len() as int;
    let pos4 = y3.len() as int;
    let pos5 = y4.len() as int;
    let pos6 = y5.len() as int;
    lemma_subrange_of_concat(y2, s3);
    lemma_subrange_extend(y3, s4, pos3, pos4);
    lemma_subrange_extend(y4, s5, pos3, pos4);
    lemma_subrange_extend(y5, s6, pos3, pos4);
    lemma_opt_string_field_at(b, pos3, v.will_topic);
    lemma_subrange_of_concat(y3, s4);
    lemma_subrange_extend(y4, s5, pos4, pos5);
    lemma_subrange_extend(y5, s6, pos4, pos5);
    lemma_opt_bytes_field_at(b, pos4, v.will_msg);
}

/// The reads of the user name and password in the layout of `v`.
proof fn lemma_layout_reads_credentials(v: ConnectView)
    requires
        well_formed_fields(v),
    ensures
        ({
            let b = connect_bytes(v);
            let pos1 = 2 + encode_utf8(v.name).len() as int;
            let pos2 = pos1 + 4;
            let pos3 = pos2 + 2 + encode_utf8(v.client_id).len();
            let pos4 = pos3 + opt_field_bytes(opt_encode(v.will_topic)).len();
            let pos5 = pos4 + opt_field_bytes(v.will_msg).len();
            let pos6 = pos5 + opt_field_bytes(opt_encode(v.username)).len();
            &&& opt_string_at(b, pos5, v.username_present) == Ok::<Status<(Option<Seq<char>>, int)>, Error>(
                Status::Complete((v.username, pos6)),
            )
            &&& opt_bytes_at(b, pos6, v.password_present) matches Status::Complete((pw, _)) && pw == v.password
        }),
{
    let s0 = field_bytes(encode_utf8(v.name));
    let s1 = seq![v.revision, v.flags, (v.keep_alive / 256) as u8, (v.keep_alive % 256) as u8];
    let s2 = field_bytes(encode_utf8(v.client_id));
    let s3 = opt_field_bytes(opt_encode(v.will_topic));
    let s4 = opt_field_bytes(v.will_msg);
    let s5 = opt_field_bytes(opt_encode(v.username));
    let s6 = opt_field_bytes(v.password);
    let y1 = s0 + s1;
    let y2 = y1 + s2;
    let y3 = y2 + s3;
    let y4 = y3 + s4;
    let y5 = y4 + s5;
    let b = connect_bytes(v);
    assert(b == y5 + s6);
    let pos3 = y2.len() as int;
    let pos4 = y3.len() as int;
    let pos5 = y4.len() as int;
    let pos6 = y5.len() as int;
    lemma_subrange_of_concat(y4, s5);
    lemma_subrange_extend(y5, s6, pos5, pos6);
    lemma_opt_string_field_at(b, pos5, v.username);
    lemma_subrange_of_concat(y5, s6);
    lemma_opt_bytes_field_at(b, pos6, v.password);
}

/// Decoding the bytes that lay out a well-formed set of CONNECT fields gives
/// back exactly those fields.
pub proof fn lemma_round_trip(v: ConnectView)
    requires
        well_formed_fields(v),
    ensures
        connect_spec(connect_bytes(v)) == Ok::<Status<ConnectView>, Error>(Status::Complete(v)),
{
    lemma_layout_reads_fixed(v);
    lemma_layout_reads_will(v);
    lemma_layout_reads_credentials(v);
    let b = connect_bytes(v);
    let pos1 = 2 + encode_utf8(v.name).len() as int;
    let hdr = header_view(v.name, v.revision, v.flags, v.will_qos, v.keep_alive);
    assert(payload_spec(b, pos1 + 4, hdr) == Ok::<Status<ConnectView>, Error>(Status::Complete(v)));
}

} // verus!
