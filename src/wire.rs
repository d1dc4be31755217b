//! The datagram format. Every datagram is a tag byte, the length of the body
//! as eight little-endian bytes, and the body:
//! - join: the joiner's receiving port;
//! - peers: the rendezvous port, then each endpoint in turn;
//! - id: the identity as eight bytes;
//! - note: a colour code, the duration as eight bytes, then the pitch bytes.
//!
//! An endpoint is `4`, four address bytes and a port, or `6`, sixteen address
//! bytes and a port; integers are little-endian.
use vstd::prelude::*;
use vstd::bytes::*;
use vstd::slice::slice_subrange;
use vstd::slice::slice_to_vec;

use crate::address::{Endpoint, IpAddr};
use crate::color::{color_code, color_of_code, spec_color_code, spec_color_of_code};
use crate::event::{EventView, NetworkEvent, Note, NoteView};

verus! {

pub const TAG_PLAYER_JOIN: u8 = 0;
pub const TAG_PEERS: u8 = 1;
pub const TAG_ID: u8 = 2;
pub const TAG_NOTE: u8 = 3;
pub const FAMILY_V4: u8 = 4;
pub const FAMILY_V6: u8 = 6;
pub const HEADER_LEN: usize = 9;

/// A datagram whose payload is not the encoding of any event.
#[derive(Clone, Copy, Debug, PartialEq, Eq, Structural)]
pub struct DecodeError;

pub open spec fn endpoint_bytes(e: Endpoint) -> Seq<u8> {
    match e.ip {
        IpAddr::V4(a) => seq![FAMILY_V4] + spec_u32_to_le_bytes(a) + spec_u16_to_le_bytes(e.port),
        IpAddr::V6(a) => seq![FAMILY_V6] + spec_u128_to_le_bytes(a) + spec_u16_to_le_bytes(e.port),
    }
}

pub open spec fn endpoints_bytes(s: Seq<Endpoint>) -> Seq<u8>
    decreases s.len(),
{
    if s.len() == 0 {
        Seq::empty()
    } else {
        endpoint_bytes(s[0]) + endpoints_bytes(s.drop_first())
    }
}

pub open spec fn tag_of(e: EventView) -> u8 {
    match e {
        EventView::PlayerJoin(_) => TAG_PLAYER_JOIN,
        EventView::Peers(_, _) => TAG_PEERS,
        EventView::ID(_) => TAG_ID,
        EventView::Note(_) => TAG_NOTE,
    }
}

pub open spec fn body_bytes(e: EventView) -> Seq<u8> {
    match e {
        EventView::PlayerJoin(p) => spec_u16_to_le_bytes(p),
        EventView::Peers(p, s) => spec_u16_to_le_bytes(p) + endpoints_bytes(s),
        EventView::ID(id) => spec_u64_to_le_bytes(id),
        EventView::Note(n) => seq![spec_color_code(n.color)] + spec_u64_to_le_bytes(n.duration_ms)
            + n.pitch,
    }
}

/// An event is valid when the length of its body can be written in the header.
pub open spec fn fits(e: EventView) -> bool {
    body_bytes(e).len() <= u64::MAX
}

/// The datagram that carries an event.
pub open spec fn encoding(e: EventView) -> Seq<u8> {
    seq![tag_of(e)] + spec_u64_to_le_bytes(body_bytes(e).len() as u64) + body_bytes(e)
}

pub open spec fn endpoint_len(family: u8) -> int {
    if family == FAMILY_V4 {
        7
    } else {
        19
    }
}

/// The endpoint at the front of `s`, read by the family byte `s[0]`.
pub open spec fn endpoint_at(s: Seq<u8>) -> Endpoint {
    if s[0] == FAMILY_V4 {
        Endpoint {
            ip: IpAddr::V4(spec_u32_from_le_bytes(s.subrange(1, 5))),
            port: spec_u16_from_le_bytes(s.subrange(5, 7)),
        }
    } else {
        Endpoint {
            ip: IpAddr::V6(spec_u128_from_le_bytes(s.subrange(1, 17))),
            port: spec_u16_from_le_bytes(s.subrange(17, 19)),
        }
    }
}

/// The endpoints that fill `s` exactly, if it is made of whole endpoints.
pub open spec fn parse_endpoints(s: Seq<u8>) -> Option<Seq<Endpoint>>
    decreases s.len(),
{
    if s.len() == 0 {
        Some(Seq::empty())
    } else if (s[0] == FAMILY_V4 || s[0] == FAMILY_V6) && endpoint_len(s[0]) <= s.len() {
        match parse_endpoints(s.subrange(endpoint_len(s[0]), s.len() as int)) {
            Some(r) => Some(seq![endpoint_at(s)] + r),
            None => None,
        }
    } else {
        None
    }
}

pub open spec fn parse_body(tag: u8, b: Seq<u8>) -> Option<EventView> {
    if tag == TAG_PLAYER_JOIN {
        if b.len() == 2 {
            Some(EventView::PlayerJoin(spec_u16_from_le_bytes(b)))
        } else {
            None
        }
    } else if tag == TAG_PEERS {
        if b.len() >= 2 {
            match parse_endpoints(b.subrange(2, b.len() as int)) {
                Some(s) => Some(EventView::Peers(spec_u16_from_le_bytes(b.subrange(0, 2)), s)),
                None => None,
            }
        } else {
            None
        }
    } else if tag == TAG_ID {
        if b.len() == 8 {
            Some(EventView::ID(spec_u64_from_le_bytes(b)))
        } else {
            None
        }
    } else if tag == TAG_NOTE {
        if b.len() >= 9 {
            match spec_color_of_code(b[0]) {
                Some(c) => Some(
                    EventView::Note(
                        NoteView {
                            pitch: b.subrange(9, b.len() as int),
                            duration_ms: spec_u64_from_le_bytes(b.subrange(1, 9)),
                            color: c,
                        },
                    ),
                ),
                None => None,
            }
        } else {
            None
        }
    } else {
        None
    }
}

/// The event a datagram carries, if any: the header must announce exactly
/// the length of the body that follows it.
pub open spec fn parse(s: Seq<u8>) -> Option<EventView> {
    if s.len() >= 9 && s.len() - 9 == spec_u64_from_le_bytes(s.subrange(1, 9)) {
        parse_body(s[0], s.subrange(9, s.len() as int))
    } else {
        None
    }
}

pub open spec fn prepend(acc: Seq<Endpoint>, o: Option<Seq<Endpoint>>) -> Option<Seq<Endpoint>> {
    match o {
        Some(r) => Some(acc + r),
        None => None,
    }
}

proof fn lemma_endpoints_bytes_push(s: Seq<Endpoint>, e: Endpoint)
    ensures
        endpoints_bytes(s.push(e)) == endpoints_bytes(s) + endpoint_bytes(e),
    decreases s.len(),
{
    if s.len() == 0 {
        assert(s.push(e).drop_first() =~= Seq::<Endpoint>::empty());
        assert(s.push(e)[0] == e);
        assert(endpoints_bytes(Seq::<Endpoint>::empty()) == Seq::<u8>::empty());
        assert(endpoints_bytes(s.push(e)) =~= endpoint_bytes(e));
    } else {
        lemma_endpoints_bytes_push(s.drop_first(), e);
        assert(s.push(e).drop_first() =~= s.drop_first().push(e));
        assert(endpoints_bytes(s.push(e)) =~= endpoints_bytes(s) + endpoint_bytes(e));
    }
}

proof fn lemma_endpoint_round_trip(e: Endpoint, rest: Seq<u8>)
    ensures
        ({
            let t = endpoint_bytes(e) + rest;
            &&& t.len() > 0
            &&& (t[0] == FAMILY_V4 || t[0] == FAMILY_V6)
            &&& endpoint_len(t[0]) == endpoint_bytes(e).len()
            &&& endpoint_at(t) == e
            &&& t.subrange(endpoint_len(t[0]), t.len() as int) == rest
        }),
{
    lemma_auto_spec_u16_to_from_le_bytes();
    lemma_auto_spec_u32_to_from_le_bytes();
    lemma_auto_spec_u128_to_from_le_bytes();
    let t = endpoint_bytes(e) + rest;
    match e.ip {
        IpAddr::V4(a) => {
            assert(t.subrange(1, 5) =~= spec_u32_to_le_bytes(a));
            assert(t.subrange(5, 7) =~= spec_u16_to_le_bytes(e.port));
            assert(t.subrange(7, t.len() as int) =~= rest);
        },
        IpAddr::V6(a) => {
            assert(t.subrange(1, 17) =~= spec_u128_to_le_bytes(a));
            assert(t.subrange(17, 19) =~= spec_u16_to_le_bytes(e.port));
            assert(t.subrange(19, t.len() as int) =~= rest);
        },
    }
}

proof fn lemma_endpoints_round_trip(s: Seq<Endpoint>)
    ensures
        parse_endpoints(endpoints_bytes(s)) == Some(s),
    decreases s.len(),
{
    if s.len() == 0 {
        assert(s =~= Seq::<Endpoint>::empty());
    } else {
        let rest = endpoints_bytes(s.drop_first());
        lemma_endpoint_round_trip(s[0], rest);
        lemma_endpoints_round_trip(s.drop_first());
        assert(seq![s[0]] + s.drop_first() =~= s);
    }
}

/// Decoding the encoding of any valid event gives that event back.
pub proof fn lemma_round_trip(e: EventView)
    requires
        fits(e),
    ensures
        parse(encoding(e)) == Some(e),
{
    lemma_auto_spec_u16_to_from_le_bytes();
    lemma_auto_spec_u64_to_from_le_bytes();
    let s = encoding(e);
    let body = body_bytes(e);
    assert(s.subrange(1, 9) =~= spec_u64_to_le_bytes(body.len() as u64));
    assert(s.subrange(9, s.len() as int) =~= body);
    match e {
        EventView::PlayerJoin(p) => {},
        EventView::Peers(p, eps) => {
            assert(body.subrange(0, 2) =~= spec_u16_to_le_bytes(p));
            assert(body.subrange(2, body.len() as int) =~= endpoints_bytes(eps));
            lemma_endpoints_round_trip(eps);
        },
        EventView::ID(id) => {},
        EventView::Note(n) => {
            assert(body.subrange(1, 9) =~= spec_u64_to_le_bytes(n.duration_ms));
            assert(body.subrange(9, body.len() as int) =~= n.pitch);
        },
    }
}

/// No proper prefix of a valid event's encoding, the empty payload
/// included, decodes to anything.
pub proof fn lemma_truncated_rejected(e: EventView, k: int)
    requires
        fits(e),
        0 <= k < encoding(e).len(),
    ensures
        parse(encoding(e).subrange(0, k)) is None,
        parse(Seq::<u8>::empty()) is None,
{
    lemma_auto_spec_u64_to_from_le_bytes();
    let s = encoding(e);
    let t = s.subrange(0, k);
    if k >= 9 {
        assert(t.subrange(1, 9) =~= s.subrange(1, 9));
        assert(s.subrange(1, 9) =~= spec_u64_to_le_bytes(body_bytes(e).len() as u64));
    }
}

fn push_endpoint(out: &mut Vec<u8>, e: Endpoint)
    ensures
        final(out)@ == old(out)@ + endpoint_bytes(e),
{
    match e.ip {
        IpAddr::V4(a) => {
            out.push(FAMILY_V4);
            let mut ab = u32_to_le_bytes(a);
            out.append(&mut ab);
        },
        IpAddr::V6(a) => {
            out.push(FAMILY_V6);
            let mut ab = u128_to_le_bytes(a);
            out.append(&mut ab);
        },
    }
    let mut pb = u16_to_le_bytes(e.port);
    out.append(&mut pb);
    proof {
        match e.ip {
            IpAddr::V4(a) => {
                assert(final(out)@ =~= old(out)@ + endpoint_bytes(e));
            },
            IpAddr::V6(a) => {
                assert(final(out)@ =~= old(out)@ + endpoint_bytes(e));
            },
        }
    }
}

fn push_bytes(out: &mut Vec<u8>, src: &[u8])
    ensures
        final(out)@ == old(out)@ + src@,
{
    let mut i: usize = 0;
    while i < src.len()
        invariant
            0 <= i <= src@.len(),
            out@ == old(out)@ + src@.subrange(0, i as int),
        decreases src@.len() - i,
    {
        out.push(src[i]);
        i = i + 1;
        assert(out@ =~= old(out)@ + src@.subrange(0, i as int));
    }
    assert(src@.subrange(0, i as int) =~= src@);
}

fn encode_body(e: &NetworkEvent) -> (r: Vec<u8>)
    ensures
        r@ == body_bytes(e@),
{
    match e {
        NetworkEvent::PlayerJoin(p) => u16_to_le_bytes(*p),
        NetworkEvent::Peers(p, peers) => {
            let mut out = u16_to_le_bytes(*p);
            let mut i: usize = 0;
            while i < peers.len()
                invariant
                    0 <= i <= peers@.len(),
                    out@ == spec_u16_to_le_bytes(*p) + endpoints_bytes(peers@.take(i as int)),
                decreases peers@.len() - i,
            {
                proof {
                    lemma_endpoints_bytes_push(peers@.take(i as int), peers@[i as int]);
                    assert(peers@.take(i as int).push(peers@[i as int]) =~= peers@.take(i + 1));
                }
                push_endpoint(&mut out, peers[i]);
                i = i + 1;
            }
            assert(peers@.take(i as int) =~= peers@);
            out
        },
        NetworkEvent::ID(id) => u64_to_le_bytes(*id),
        NetworkEvent::Note(n) => {
            let mut out: Vec<u8> = Vec::new();
            out.push(color_code(n.color));
            let mut db = u64_to_le_bytes(n.duration_ms);
            out.append(&mut db);
            push_bytes(&mut out, n.pitch.as_slice());
            assert(out@ =~= body_bytes(e@));
            out
        },
    }
}

fn event_tag(e: &NetworkEvent) -> (r: u8)
    ensures
        r == tag_of(e@),
{
    match e {
        NetworkEvent::PlayerJoin(_) => TAG_PLAYER_JOIN,
        NetworkEvent::Peers(_, _) => TAG_PEERS,
        NetworkEvent::ID(_) => TAG_ID,
        NetworkEvent::Note(_) => TAG_NOTE,
    }
}

/// The datagram payload that carries `e`.
pub fn encode(e: &NetworkEvent) -> (r: Vec<u8>)
    ensures
        r@ == encoding(e@),
        fits(e@),
{
    let mut body = encode_body(e);
    let mut out: Vec<u8> = Vec::new();
    out.push(event_tag(e));
    let mut lb = u64_to_le_bytes(body.len() as u64);
    out.append(&mut lb);
    out.append(&mut body);
    assert(out@ =~= encoding(e@));
    out
}

fn decode_endpoints(b: &[u8], start: usize) -> (r: Option<Vec<Endpoint>>)
    requires
        start <= b@.len(),
    ensures
        match r {
            Some(v) => parse_endpoints(b@.subrange(start as int, b@.len() as int)) == Some(v@),
            None => parse_endpoints(b@.subrange(start as int, b@.len() as int)) is None,
        },
{
    let n = b.len();
    let mut pos = start;
    let mut acc: Vec<Endpoint> = Vec::new();
    proof {
        let o = parse_endpoints(b@.subrange(start as int, n as int));
        if o is Some {
            assert(acc@ + o->0 =~= o->0);
        }
    }
    while pos < n
        invariant
            start <= pos <= n,
            n == b@.len(),
            parse_endpoints(b@.subrange(start as int, n as int)) == prepend(
                acc@,
                parse_endpoints(b@.subrange(pos as int, n as int)),
            ),
        decreases n - pos,
    {
        let family = b[pos];
        let ghost t = b@.subrange(pos as int, n as int);
        assert(t[0] == family);
        let k: usize = if family == FAMILY_V4 {
            7
        } else {
            19
        };
        if !(family == FAMILY_V4 || family == FAMILY_V6) || n - pos < k {
            return None;
        }
        let port = u16_from_le_bytes(slice_subrange(b, pos + k - 2, pos + k));
        let e = if family == FAMILY_V4 {
            let a = u32_from_le_bytes(slice_subrange(b, pos + 1, pos + 5));
            assert(t.subrange(1, 5) =~= b@.subrange(pos + 1, pos + 5));
            Endpoint { ip: IpAddr::V4(a), port }
        } else {
            let a = u128_from_le_bytes(slice_subrange(b, pos + 1, pos + 17));
            assert(t.subrange(1, 17) =~= b@.subrange(pos + 1, pos + 17));
            Endpoint { ip: IpAddr::V6(a), port }
        };
        proof {
            assert(t.subrange(k - 2, k as int) =~= b@.subrange(pos + k - 2, pos + k));
            assert(endpoint_at(t) == e);
            assert(t.subrange(k as int, t.len() as int) =~= b@.subrange(pos + k, n as int));
            let o = parse_endpoints(b@.subrange(pos + k, n as int));
            if o is Some {
                assert(acc@.push(e) + o->0 =~= acc@ + (seq![e] + o->0));
            }
        }
        acc.push(e);
        pos = pos + k;
    }
    assert(b@.subrange(n as int, n as int) =~= Seq::<u8>::empty());
    assert(acc@ + Seq::<Endpoint>::empty() =~= acc@);
    Some(acc)
}

/// The event a datagram payload carries; garbage, unknown tags and truncated
/// payloads are a `DecodeError`.
pub fn decode(b: &[u8]) -> (r: Result<NetworkEvent, DecodeError>)
    ensures
        match r {
            Ok(e) => parse(b@) == Some(e@),
            Err(_) => parse(b@) is None,
        },
{
    let n = b.len();
    if n < HEADER_LEN {
        return Err(DecodeError);
    }
    let len = u64_from_le_bytes(slice_subrange(b, 1, 9));
    if (n - HEADER_LEN) as u64 != len {
        return Err(DecodeError);
    }
    let tag = b[0];
    let ghost body = b@.subrange(9, n as int);
    if tag == TAG_PLAYER_JOIN {
        if n != 11 {
            return Err(DecodeError);
        }
        let p = u16_from_le_bytes(slice_subrange(b, 9, 11));
        assert(body =~= b@.subrange(9, 11));
        Ok(NetworkEvent::PlayerJoin(p))
    } else if tag == TAG_PEERS {
        if n < 11 {
            return Err(DecodeError);
        }
        let p = u16_from_le_bytes(slice_subrange(b, 9, 11));
        assert(body.subrange(0, 2) =~= b@.subrange(9, 11));
        assert(body.subrange(2, body.len() as int) =~= b@.subrange(11, n as int));
        match decode_endpoints(b, 11) {
            Some(v) => Ok(NetworkEvent::Peers(p, v)),
            None => Err(DecodeError),
        }
    } else if tag == TAG_ID {
        if n != 17 {
            return Err(DecodeError);
        }
        let id = u64_from_le_bytes(slice_subrange(b, 9, 17));
        assert(body =~= b@.subrange(9, 17));
        Ok(NetworkEvent::ID(id))
    } else if tag == TAG_NOTE {
        if n < 18 {
            return Err(DecodeError);
        }
        match color_of_code(b[9]) {
            Some(color) => {
                let duration_ms = u64_from_le_bytes(slice_subrange(b, 10, 18));
                let pitch = slice_to_vec(slice_subrange(b, 18, n));
                assert(body.subrange(1, 9) =~= b@.subrange(10, 18));
                assert(body.subrange(9, body.len() as int) =~= b@.subrange(18, n as int));
                Ok(NetworkEvent::Note(Note { pitch, duration_ms, color }))
            },
            None => Err(DecodeError),
        }
    } else {
        Err(DecodeError)
    }
}

} // verus!
