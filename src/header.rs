use vstd::prelude::*;

use crate::location::{
    agree, announced_location_len, be16_bytes, be16_value, is_address_type, lemma_be16_of_bytes,
    lemma_be16_round_trip, lemma_location_injective, lemma_location_shape, location_bytes,
    read_location_prefix, write_location, NetLocation, NetLocationView, ADDRESS_TYPE_HOSTNAME,
    ADDRESS_TYPE_IPV4, ADDRESS_TYPE_IPV6,
};

verus! {

/// The largest padding length a header may declare.
pub const MAX_PADDING_LEN: usize = 900;

/// The plaintext that opens a tunnel: the destination, then, in the AEAD-2022
/// variant, a two-byte padding length and that many padding bytes.
pub open spec fn header_bytes(loc: NetLocationView, padding: Option<Seq<u8>>) -> Seq<u8> {
    match padding {
        None => location_bytes(loc),
        Some(p) => location_bytes(loc) + be16_bytes(p.len() as u16) + p,
    }
}

/// The parts of a header that its variant allows: a padding block only in the
/// AEAD-2022 variant, and one no longer than the limit.
pub open spec fn valid_header(loc: NetLocationView, padding: Option<Seq<u8>>, aead2022: bool) -> bool {
    &&& loc.wf()
    &&& if aead2022 {
        padding is Some && padding->0.len() <= MAX_PADDING_LEN
    } else {
        padding is None
    }
}

/// The bytes received so far open with a location whose padding length field
/// reads `v`, above the limit.
pub open spec fn declares_padding(buf: Seq<u8>, loc: NetLocationView, v: nat) -> bool {
    let n = location_bytes(loc).len();
    &&& loc.wf()
    &&& n + 2 <= buf.len()
    &&& agree(location_bytes(loc), buf)
    &&& v == be16_value(buf[n as int], buf[n + 1int])
}

/// No header can begin with these bytes.
pub open spec fn malformed(buf: Seq<u8>, aead2022: bool) -> bool {
    ||| buf.len() >= 1 && !is_address_type(buf[0])
    ||| aead2022 && exists|loc: NetLocationView, v: nat|
        #[trigger] declares_padding(buf, loc, v) && v > MAX_PADDING_LEN
}

#[derive(Debug, Clone, Copy, PartialEq, Eq)]
pub enum HeaderError {
    /// The first byte names no address type.
    UnknownAddressType(u8),
    /// The declared padding length is above the limit.
    PaddingTooLong(u16),
}

/// What the server does next with the header bytes it has read so far.
#[derive(Debug)]
pub enum HeaderStep {
    /// Read until this many bytes in all have arrived.
    NeedMore(usize),
    /// The header is complete: it asks for `location` and spans `header_len` bytes.
    Complete { location: NetLocation, header_len: usize },
    /// The bytes can open no header.
    Invalid(HeaderError),
}

/// What `server_header_step` returns on `buf`, over the header's wire form.
pub open spec fn step_matches(buf: Seq<u8>, aead2022: bool, r: HeaderStep) -> bool {
    match r {
        HeaderStep::NeedMore(m) => {
            &&& buf.len() < m
            &&& !malformed(buf, aead2022)
            &&& forall|loc: NetLocationView, pad: Option<Seq<u8>>|
                valid_header(loc, pad, aead2022) && #[trigger] agree(header_bytes(loc, pad), buf)
                    ==> m <= header_bytes(loc, pad).len()
        },
        HeaderStep::Complete { location, header_len } => {
            &&& location.wf()
            &&& exists|pad: Option<Seq<u8>>|
                #![trigger header_bytes(location@, pad)]
                valid_header(location@, pad, aead2022) && header_bytes(location@, pad).len()
                    == header_len && header_len <= buf.len() && agree(
                    header_bytes(location@, pad),
                    buf,
                )
        },
        HeaderStep::Invalid(HeaderError::UnknownAddressType(t)) => {
            buf.len() >= 1 && buf[0] == t && !is_address_type(t)
        },
        HeaderStep::Invalid(HeaderError::PaddingTooLong(v)) => {
            &&& aead2022
            &&& v > MAX_PADDING_LEN
            &&& exists|loc: NetLocationView| #[trigger] declares_padding(buf, loc, v as nat)
        },
    }
}

proof fn lemma_complete_step(
    buf: Seq<u8>,
    aead2022: bool,
    location: NetLocation,
    header_len: usize,
    pad: Option<Seq<u8>>,
)
    requires
        location.wf(),
        valid_header(location@, pad, aead2022),
        header_bytes(location@, pad).len() == header_len,
        header_len <= buf.len(),
        agree(header_bytes(location@, pad), buf),
    ensures
        step_matches(buf, aead2022, HeaderStep::Complete { location, header_len }),
{
    let r = HeaderStep::Complete { location, header_len };
    assert(r matches HeaderStep::Complete { .. });
    assert(r->location == location);
    assert(r->header_len == header_len);
}

/// A header that agrees with `buf` fixes the location's length from `buf`'s
/// first bytes and, once the padding length field has arrived, its own length.
proof fn lemma_agreeing_header(
    loc: NetLocationView,
    pad: Option<Seq<u8>>,
    aead2022: bool,
    buf: Seq<u8>,
)
    requires
        valid_header(loc, pad, aead2022),
        agree(header_bytes(loc, pad), buf),
        buf.len() >= 1,
    ensures
        agree(location_bytes(loc), buf),
        buf[0] == loc.tag(),
        buf.len() >= 2 || buf[0] != ADDRESS_TYPE_HOSTNAME ==> location_bytes(loc).len()
            == announced_location_len(buf[0], buf[1]),
        header_bytes(loc, pad).len() >= location_bytes(loc).len() + if aead2022 {
            2int
        } else {
            0
        },
        aead2022 && buf.len() >= location_bytes(loc).len() + 2 ==> header_bytes(loc, pad).len()
            == location_bytes(loc).len() + 2 + be16_value(
            buf[location_bytes(loc).len() as int],
            buf[location_bytes(loc).len() + 1int],
        ),
{
    let e = location_bytes(loc);
    let h = header_bytes(loc, pad);
    lemma_location_shape(loc);
    assert forall|i: int| 0 <= i < e.len() implies h[i] == e[i] by {}
    if let Some(p) = pad {
        let n = e.len() as int;
        assert(h[n] == be16_bytes(p.len() as u16)[0]);
        assert(h[n + 1] == be16_bytes(p.len() as u16)[1]);
        lemma_be16_round_trip(p.len() as u16);
    }
}

/// Two locations that both agree with `buf`, once `buf` holds all of the first, are one.
proof fn lemma_agreeing_locations(a: NetLocationView, b: NetLocationView, buf: Seq<u8>)
    requires
        a.wf(),
        b.wf(),
        agree(location_bytes(a), buf),
        agree(location_bytes(b), buf),
        location_bytes(a).len() <= buf.len(),
    ensures
        a == b,
{
    lemma_location_shape(a);
    lemma_location_shape(b);
    lemma_location_injective(a, b);
}

/// Decides, from the header bytes read so far, whether to read more, where the
/// header ends, or that no header can begin this way. It never asks for a byte
/// past the end of any header that the bytes could begin.
pub fn server_header_step(buf: &Vec<u8>, aead2022: bool) -> (r: HeaderStep)
    ensures
        step_matches(buf@, aead2022, r),
{
    let ghost b = buf@;
    if buf.len() == 0 {
        assert forall|loc: NetLocationView, pad: Option<Seq<u8>>|
            valid_header(loc, pad, aead2022) && #[trigger] agree(header_bytes(loc, pad), b)
                implies 1 <= header_bytes(loc, pad).len() by {
            lemma_location_shape(loc);
            if let Some(p) = pad {
            }
        }
        assert forall|loc: NetLocationView, v: nat| !#[trigger] declares_padding(b, loc, v) by {
            if loc.wf() {
                lemma_location_shape(loc);
            }
        }
        return HeaderStep::NeedMore(1);
    }
    let tag = buf[0];
    if tag != ADDRESS_TYPE_IPV4 && tag != ADDRESS_TYPE_IPV6 && tag != ADDRESS_TYPE_HOSTNAME {
        return HeaderStep::Invalid(HeaderError::UnknownAddressType(tag));
    }
    if tag == ADDRESS_TYPE_HOSTNAME && buf.len() < 2 {
        assert forall|loc: NetLocationView, pad: Option<Seq<u8>>|
            valid_header(loc, pad, aead2022) && #[trigger] agree(header_bytes(loc, pad), b)
                implies 2 <= header_bytes(loc, pad).len() by {
            lemma_agreeing_header(loc, pad, aead2022, b);
        }
        assert forall|loc: NetLocationView, v: nat| !#[trigger] declares_padding(b, loc, v) by {
            if loc.wf() {
                lemma_location_shape(loc);
            }
        }
        return HeaderStep::NeedMore(2);
    }
    let loc_len: usize = if tag == ADDRESS_TYPE_IPV4 {
        7
    } else if tag == ADDRESS_TYPE_IPV6 {
        19
    } else {
        buf[1] as usize + 4
    };
    assert(loc_len == announced_location_len(b[0], b[1]));
    if buf.len() < loc_len {
        assert forall|loc: NetLocationView, pad: Option<Seq<u8>>|
            valid_header(loc, pad, aead2022) && #[trigger] agree(header_bytes(loc, pad), b)
                implies loc_len <= header_bytes(loc, pad).len() by {
            lemma_agreeing_header(loc, pad, aead2022, b);
        }
        assert forall|loc: NetLocationView, v: nat| !#[trigger] declares_padding(b, loc, v) by {
            if loc.wf() && agree(location_bytes(loc), b) {
                lemma_location_shape(loc);
            }
        }
        return HeaderStep::NeedMore(loc_len);
    }
    let location = read_location_prefix(buf, loc_len);
    let ghost e = location_bytes(location@);
    assert(agree(e, b));
    if !aead2022 {
        assert(header_bytes(location@, None) == e);
        assert(valid_header(location@, None, aead2022));
        assert(agree(header_bytes(location@, None), b));
        proof {
            lemma_complete_step(b, aead2022, location, loc_len, None);
        }
        return HeaderStep::Complete { location, header_len: loc_len };
    }
    if buf.len() < loc_len + 2 {
        assert forall|loc: NetLocationView, pad: Option<Seq<u8>>|
            valid_header(loc, pad, aead2022) && #[trigger] agree(header_bytes(loc, pad), b)
                implies loc_len + 2 <= header_bytes(loc, pad).len() by {
            lemma_agreeing_header(loc, pad, aead2022, b);
        }
        assert forall|loc: NetLocationView, v: nat| !#[trigger] declares_padding(b, loc, v) by {
            if loc.wf() && agree(location_bytes(loc), b) {
                lemma_agreeing_locations(location@, loc, b);
            }
        }
        return HeaderStep::NeedMore(loc_len + 2);
    }
    let v: u16 = (buf[loc_len] as u16) * 256 + buf[loc_len + 1] as u16;
    assert(v as nat == be16_value(b[loc_len as int], b[loc_len + 1]));
    if v as usize > MAX_PADDING_LEN {
        assert(declares_padding(b, location@, v as nat));
        assert(v > MAX_PADDING_LEN);
        assert(step_matches(b, aead2022, HeaderStep::Invalid(HeaderError::PaddingTooLong(v))));
        return HeaderStep::Invalid(HeaderError::PaddingTooLong(v));
    }
    assert forall|loc: NetLocationView, w: nat|
        #[trigger] declares_padding(b, loc, w) implies w <= MAX_PADDING_LEN by {
        lemma_agreeing_locations(location@, loc, b);
    }
    let total = loc_len + 2 + v as usize;
    if buf.len() < total {
        assert forall|loc: NetLocationView, pad: Option<Seq<u8>>|
            valid_header(loc, pad, aead2022) && #[trigger] agree(header_bytes(loc, pad), b)
                implies total <= header_bytes(loc, pad).len() by {
            lemma_agreeing_header(loc, pad, aead2022, b);
        }
        return HeaderStep::NeedMore(total);
    }
    let ghost pad = b.subrange(loc_len + 2, total as int);
    proof {
        lemma_be16_of_bytes(b[loc_len as int], b[loc_len + 1]);
        assert(be16_bytes(pad.len() as u16) == seq![b[loc_len as int], b[loc_len + 1]]);
        assert(header_bytes(location@, Some(pad)) =~= b.subrange(0, total as int));
        assert(valid_header(location@, Some(pad), aead2022));
        assert(agree(header_bytes(location@, Some(pad)), b));
        lemma_complete_step(b, aead2022, location, total, Some(pad));
    }
    HeaderStep::Complete { location, header_len: total }
}

/// The header a client sends: the wire form of `loc`, then, where a padding
/// block is given, its length in two bytes and the block itself.
pub fn encode_header(loc: &NetLocation, padding: Option<&Vec<u8>>) -> (r: Vec<u8>)
    requires
        loc.wf(),
        padding is Some ==> padding->0@.len() <= MAX_PADDING_LEN,
    ensures
        r@ == header_bytes(
            loc@,
            match padding {
                Some(p) => Some(p@),
                None => None,
            },
        ),
{
    let mut out: Vec<u8> = Vec::new();
    write_location(loc, &mut out);
    match padding {
        Some(p) => {
            let ghost start = out@;
            let n = p.len() as u16;
            out.push((n / 256) as u8);
            out.push((n % 256) as u8);
            let mut i: usize = 0;
            while i < p.len()
                invariant
                    i <= p@.len(),
                    out@ == start + be16_bytes(n) + p@.subrange(0, i as int),
                decreases p@.len() - i,
            {
                out.push(p[i]);
                i = i + 1;
                assert(p@.subrange(0, i as int) =~= p@.subrange(0, i - 1) + seq![p@[i - 1]]);
            }
            assert(p@.subrange(0, i as int) =~= p@);
            assert(out@ =~= header_bytes(loc@, Some(p@)));
        },
        None => {
            assert(out@ =~= header_bytes(loc@, None));
        },
    }
    out
}

/// The padding length field of an AEAD-2022 header reads the padding block's
/// length, and the block takes exactly that many bytes after it.
pub proof fn lemma_declared_padding_len(loc: NetLocationView, padding: Seq<u8>)
    requires
        valid_header(loc, Some(padding), true),
    ensures
        ({
            let h = header_bytes(loc, Some(padding));
            let n = location_bytes(loc).len() as int;
            &&& be16_value(h[n], h[n + 1]) == padding.len()
            &&& h.len() == n + 2 + padding.len()
            &&& h.subrange(n + 2, h.len() as int) == padding
        }),
{
    let h = header_bytes(loc, Some(padding));
    let n = location_bytes(loc).len() as int;
    lemma_be16_round_trip(padding.len() as u16);
    assert(h[n] == be16_bytes(padding.len() as u16)[0]);
    assert(h[n + 1] == be16_bytes(padding.len() as u16)[1]);
    assert(h.subrange(n + 2, h.len() as int) =~= padding);
}

/// Whatever application bytes follow it, a header that a client sends is read
/// by the server as exactly the location it carries, and the server's read ends
/// exactly where the header (padding included) ends.
pub proof fn lemma_header_round_trip(
    loc: NetLocationView,
    padding: Option<Seq<u8>>,
    aead2022: bool,
    rest: Seq<u8>,
    r: HeaderStep,
)
    requires
        valid_header(loc, padding, aead2022),
        step_matches(header_bytes(loc, padding) + rest, aead2022, r),
    ensures
        r is Complete,
        r->location@ == loc,
        r->header_len == header_bytes(loc, padding).len(),
{
    let h = header_bytes(loc, padding);
    let buf = h + rest;
    assert(agree(h, buf));
    lemma_location_shape(loc);
    lemma_agreeing_header(loc, padding, aead2022, buf);
    match r {
        HeaderStep::NeedMore(m) => {},
        HeaderStep::Invalid(HeaderError::UnknownAddressType(t)) => {},
        HeaderStep::Invalid(HeaderError::PaddingTooLong(v)) => {
            let loc2 = choose|loc2: NetLocationView| #[trigger] declares_padding(buf, loc2, v as nat);
            lemma_agreeing_locations(loc, loc2, buf);
        },
        HeaderStep::Complete { location, header_len } => {
            let pad2 = choose|pad2: Option<Seq<u8>>|
                #![trigger header_bytes(location@, pad2)]
                valid_header(location@, pad2, aead2022) && header_bytes(location@, pad2).len()
                    == header_len && header_len <= buf.len() && agree(
                    header_bytes(location@, pad2),
                    buf,
                );
            lemma_agreeing_header(location@, pad2, aead2022, buf);
            lemma_agreeing_locations(loc, location@, buf);
        },
    }
}

/// In the legacy variant the header is the location alone: the server's read
/// ends right after it, whatever bytes follow.
pub proof fn lemma_legacy_header_is_location(loc: NetLocationView, rest: Seq<u8>, r: HeaderStep)
    requires
        loc.wf(),
        step_matches(location_bytes(loc) + rest, false, r),
    ensures
        r is Complete,
        r->location@ == loc,
        r->header_len == location_bytes(loc).len(),
{
    assert(header_bytes(loc, None) == location_bytes(loc));
    lemma_header_round_trip(loc, None, false, rest, r);
}

/// A padding length field above the limit fails the header with that length as
/// soon as the field has arrived, whatever follows it.
pub proof fn lemma_long_padding_rejected(loc: NetLocationView, v: u16, rest: Seq<u8>, r: HeaderStep)
    requires
        loc.wf(),
        v > MAX_PADDING_LEN,
        step_matches(location_bytes(loc) + be16_bytes(v) + rest, true, r),
    ensures
        r == HeaderStep::Invalid(HeaderError::PaddingTooLong(v)),
{
    let e = location_bytes(loc);
    let buf = e + be16_bytes(v) + rest;
    let n = e.len() as int;
    lemma_location_shape(loc);
    lemma_be16_round_trip(v);
    assert(buf[n] == be16_bytes(v)[0]);
    assert(buf[n + 1] == be16_bytes(v)[1]);
    assert(agree(e, buf));
    assert(declares_padding(buf, loc, v as nat));
    match r {
        HeaderStep::NeedMore(m) => {},
        HeaderStep::Invalid(HeaderError::UnknownAddressType(t)) => {},
        HeaderStep::Invalid(HeaderError::PaddingTooLong(w)) => {
            let loc2 = choose|loc2: NetLocationView| #[trigger] declares_padding(buf, loc2, w as nat);
            lemma_agreeing_locations(loc, loc2, buf);
        },
        HeaderStep::Complete { location, header_len } => {
            let pad2 = choose|pad2: Option<Seq<u8>>|
                #![trigger header_bytes(location@, pad2)]
                valid_header(location@, pad2, true) && header_bytes(location@, pad2).len()
                    == header_len && header_len <= buf.len() && agree(
                    header_bytes(location@, pad2),
                    buf,
                );
            lemma_agreeing_header(location@, pad2, true, buf);
            lemma_agreeing_locations(loc, location@, buf);
        },
    }
}

} // verus!
