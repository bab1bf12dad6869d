//! Wire encoding of the two handshake message shapes.
//!
//! The format is a compact binary layout: fixed-width integers are
//! little-endian, a string is a 32-bit byte length followed by its UTF-8
//! bytes, a list is a 32-bit count followed by its items, an optional
//! value and a boolean are a single tag byte, and a socket address is a
//! tag byte followed by the address octets and the port.  The two shapes
//! carry no discriminant: a receiver classifies a packet by attempting
//! each decode in a fixed order.

use vstd::prelude::*;

verus! {

use vstd::bytes::{
    spec_u16_to_le_bytes,
    spec_u16_from_le_bytes,
    spec_u32_to_le_bytes,
    spec_u32_from_le_bytes,
    spec_u64_to_le_bytes,
    spec_u64_from_le_bytes,
    lemma_auto_spec_u16_to_from_le_bytes,
    lemma_auto_spec_u32_to_from_le_bytes,
    lemma_auto_spec_u64_to_from_le_bytes,
};
use vstd::utf8::{encode_utf8, decode_utf8, valid_utf8};
use crate::solana::domain::{HandshakeRequestV, HandshakeResponseV, SocketAddr};

/// Maximum encoded size of a gossip datagram, in bytes.
pub const MAX_GOSSIP_PACKET_SIZE: usize = 1280;

// ---------------------------------------------------------------------
// Specification-level encoders.
// ---------------------------------------------------------------------

/// A string fits the wire format when its UTF-8 byte length fits the
/// 32-bit length prefix.
pub open spec fn str_bytes_ok(s: Seq<char>) -> bool {
    encode_utf8(s).len() <= u32::MAX
}

/// Wire form of a string: 32-bit byte length, then the UTF-8 bytes.
pub open spec fn enc_str(s: Seq<char>) -> Seq<u8> {
    spec_u32_to_le_bytes(encode_utf8(s).len() as u32) + encode_utf8(s)
}

/// Wire form of the items of a string list, in order.
pub open spec fn enc_str_list(l: Seq<Seq<char>>) -> Seq<u8>
    decreases l.len(),
{
    if l.len() == 0 {
        Seq::empty()
    } else {
        enc_str(l[0]) + enc_str_list(l.drop_first())
    }
}

/// A string list fits the wire format when its count fits the 32-bit
/// count prefix and each item fits.
pub open spec fn str_list_ok(l: Seq<Seq<char>>) -> bool {
    &&& l.len() <= u32::MAX
    &&& forall|i: int| 0 <= i < l.len() ==> str_bytes_ok(#[trigger] l[i])
}

/// Wire form of a boolean: one byte, `1` for true and `0` for false.
pub open spec fn enc_bool(b: bool) -> Seq<u8> {
    if b {
        seq![1u8]
    } else {
        seq![0u8]
    }
}

/// Wire form of an optional string: a tag byte, then the string if any.
pub open spec fn enc_opt_str(o: Option<Seq<char>>) -> Seq<u8> {
    match o {
        None => seq![0u8],
        Some(s) => seq![1u8] + enc_str(s),
    }
}

pub open spec fn opt_str_ok(o: Option<Seq<char>>) -> bool {
    match o {
        None => true,
        Some(s) => str_bytes_ok(s),
    }
}

/// Wire form of a socket address: tag byte `0` for IPv4 (four octets)
/// or `1` for IPv6 (sixteen octets, each segment big-endian), then the
/// little-endian port.
pub open spec fn enc_addr(addr: SocketAddr) -> Seq<u8> {
    match addr {
        SocketAddr::V4 { a, b, c, d, port } => (
            seq![0u8, a, b, c, d] + spec_u16_to_le_bytes(port)
        ),
        SocketAddr::V6 { s0, s1, s2, s3, s4, s5, s6, s7, port } => (
            seq![
                1u8,
                (s0 >> 8) as u8,
                (s0 & 0xff) as u8,
                (s1 >> 8) as u8,
                (s1 & 0xff) as u8,
                (s2 >> 8) as u8,
                (s2 & 0xff) as u8,
                (s3 >> 8) as u8,
                (s3 & 0xff) as u8,
                (s4 >> 8) as u8,
                (s4 & 0xff) as u8,
                (s5 >> 8) as u8,
                (s5 & 0xff) as u8,
                (s6 >> 8) as u8,
                (s6 & 0xff) as u8,
                (s7 >> 8) as u8,
                (s7 & 0xff) as u8,
            ] + spec_u16_to_le_bytes(port)
        ),
    }
}

/// A request fits the wire format when its identity is 32 bytes and
/// every string field fits.
pub open spec fn request_encodable(m: HandshakeRequestV) -> bool {
    &&& m.node_pubkey.len() == 32
    &&& str_bytes_ok(m.protocol_version)
    &&& str_bytes_ok(m.network_id)
    &&& str_list_ok(m.capabilities)
}

/// Wire form of a handshake request: identity, protocol version,
/// timestamp, network id, capability count, capabilities.
pub open spec fn spec_encode_request(m: HandshakeRequestV) -> Seq<u8> {
    m.node_pubkey + enc_str(m.protocol_version) + spec_u64_to_le_bytes(m.timestamp) + enc_str(
        m.network_id,
    ) + spec_u32_to_le_bytes(m.capabilities.len() as u32) + enc_str_list(m.capabilities)
}

/// A response fits the wire format when its identity is 32 bytes and
/// every string field fits.
pub open spec fn response_encodable(m: HandshakeResponseV) -> bool {
    &&& m.peer_pubkey.len() == 32
    &&& str_bytes_ok(m.protocol_version)
    &&& str_bytes_ok(m.network_id)
    &&& str_list_ok(m.capabilities)
    &&& opt_str_ok(m.error_message)
}

/// Wire form of a handshake response: identity, protocol version,
/// network id, gossip address, capability count, capabilities,
/// timestamp, success flag, optional error message.
pub open spec fn spec_encode_response(m: HandshakeResponseV) -> Seq<u8> {
    m.peer_pubkey + enc_str(m.protocol_version) + enc_str(m.network_id) + enc_addr(m.gossip_addr)
        + spec_u32_to_le_bytes(m.capabilities.len() as u32) + enc_str_list(m.capabilities)
        + spec_u64_to_le_bytes(m.timestamp) + enc_bool(m.success) + enc_opt_str(m.error_message)
}

// ---------------------------------------------------------------------
// Specification-level decoders.  Each reads at a position within the
// packet and yields the decoded value and the next position, or nothing
// when the bytes there do not fit the format.
// ---------------------------------------------------------------------

pub open spec fn dec_bytes(b: Seq<u8>, i: int, n: int) -> Option<(Seq<u8>, int)> {
    if 0 <= i && 0 <= n && i + n <= b.len() {
        Some((b.subrange(i, i + n), i + n))
    } else {
        None
    }
}

pub open spec fn dec_u16(b: Seq<u8>, i: int) -> Option<(u16, int)> {
    match dec_bytes(b, i, 2) {
        Some((s, j)) => Some((spec_u16_from_le_bytes(s), j)),
        None => None,
    }
}

pub open spec fn dec_u32(b: Seq<u8>, i: int) -> Option<(u32, int)> {
    match dec_bytes(b, i, 4) {
        Some((s, j)) => Some((spec_u32_from_le_bytes(s), j)),
        None => None,
    }
}

pub open spec fn dec_u64(b: Seq<u8>, i: int) -> Option<(u64, int)> {
    match dec_bytes(b, i, 8) {
        Some((s, j)) => Some((spec_u64_from_le_bytes(s), j)),
        None => None,
    }
}

pub open spec fn dec_str(b: Seq<u8>, i: int) -> Option<(Seq<char>, int)> {
    match dec_u32(b, i) {
        Some((n, j)) => match dec_bytes(b, j, n as int) {
            Some((s, k)) => if valid_utf8(s) {
                Some((decode_utf8(s), k))
            } else {
                None
            },
            None => None,
        },
        None => None,
    }
}

pub open spec fn dec_str_list(b: Seq<u8>, i: int, count: int) -> Option<(Seq<Seq<char>>, int)>
    decreases count,
{
    if count <= 0 {
        Some((Seq::empty(), i))
    } else {
        match dec_str(b, i) {
            Some((s, j)) => match dec_str_list(b, j, count - 1) {
                Some((l, k)) => Some((seq![s] + l, k)),
                None => None,
            },
            None => None,
        }
    }
}

pub open spec fn dec_bool(b: Seq<u8>, i: int) -> Option<(bool, int)> {
    if 0 <= i && i < b.len() {
        if b[i] == 0 {
            Some((false, i + 1))
        } else if b[i] == 1 {
            Some((true, i + 1))
        } else {
            None
        }
    } else {
        None
    }
}

pub open spec fn dec_opt_str(b: Seq<u8>, i: int) -> Option<(Option<Seq<char>>, int)> {
    if 0 <= i && i < b.len() {
        if b[i] == 0 {
            Some((None, i + 1))
        } else if b[i] == 1 {
            match dec_str(b, i + 1) {
                Some((s, j)) => Some((Some(s), j)),
                None => None,
            }
        } else {
            None
        }
    } else {
        None
    }
}

/// Two big-endian bytes as an IPv6 segment.
pub open spec fn seg_of(hi: u8, lo: u8) -> u16 {
    ((hi as u16) << 8) | (lo as u16)
}

pub open spec fn dec_addr(b: Seq<u8>, i: int) -> Option<(SocketAddr, int)> {
    if 0 <= i && i < b.len() {
        if b[i] == 0 {
            if i + 7 <= b.len() {
                Some(
                    (
                        SocketAddr::V4 {
                            a: b[i + 1],
                            b: b[i + 2],
                            c: b[i + 3],
                            d: b[i + 4],
                            port: spec_u16_from_le_bytes(b.subrange(i + 5, i + 7)),
                        },
                        i + 7,
                    ),
                )
            } else {
                None
            }
        } else if b[i] == 1 {
            if i + 19 <= b.len() {
                Some(
                    (
                        SocketAddr::V6 {
                            s0: seg_of(b[i + 1], b[i + 2]),
                            s1: seg_of(b[i + 3], b[i + 4]),
                            s2: seg_of(b[i + 5], b[i + 6]),
                            s3: seg_of(b[i + 7], b[i + 8]),
                            s4: seg_of(b[i + 9], b[i + 10]),
                            s5: seg_of(b[i + 11], b[i + 12]),
                            s6: seg_of(b[i + 13], b[i + 14]),
                            s7: seg_of(b[i + 15], b[i + 16]),
                            port: spec_u16_from_le_bytes(b.subrange(i + 17, i + 19)),
                        },
                        i + 19,
                    ),
                )
            } else {
                None
            }
        } else {
            None
        }
    } else {
        None
    }
}

/// What a packet means as a handshake request, when it decodes whole.
pub open spec fn spec_decode_request(b: Seq<u8>) -> Option<HandshakeRequestV> {
    match dec_bytes(b, 0, 32) {
        Some((pk, p1)) => match dec_str(b, p1) {
            Some((pv, p2)) => match dec_u64(b, p2) {
                Some((ts, p3)) => match dec_str(b, p3) {
                    Some((net, p4)) => match dec_u32(b, p4) {
                        Some((count, p5)) => match dec_str_list(b, p5, count as int) {
                            Some((caps, p6)) => if p6 == b.len() {
                                Some(
                                    HandshakeRequestV {
                                        node_pubkey: pk,
                                        protocol_version: pv,
                                        timestamp: ts,
                                        network_id: net,
                                        capabilities: caps,
                                    },
                                )
                            } else {
                                None
                            },
                            None => None,
                        },
                        None => None,
                    },
                    None => None,
                },
                None => None,
            },
            None => None,
        },
        None => None,
    }
}

/// What a packet means as a handshake response, when it decodes whole.
pub open spec fn spec_decode_response(b: Seq<u8>) -> Option<HandshakeResponseV> {
    match dec_bytes(b, 0, 32) {
        Some((pk, p1)) => match dec_str(b, p1) {
            Some((pv, p2)) => match dec_str(b, p2) {
                Some((net, p3)) => match dec_addr(b, p3) {
                    Some((addr, p4)) => match dec_u32(b, p4) {
                        Some((count, p5)) => match dec_str_list(b, p5, count as int) {
                            Some((caps, p6)) => match dec_u64(b, p6) {
                                Some((ts, p7)) => match dec_bool(b, p7) {
                                    Some((success, p8)) => match dec_opt_str(b, p8) {
                                        Some((err, p9)) => if p9 == b.len() {
                                            Some(
                                                HandshakeResponseV {
                                                    peer_pubkey: pk,
                                                    protocol_version: pv,
                                                    network_id: net,
                                                    gossip_addr: addr,
                                                    capabilities: caps,
                                                    timestamp: ts,
                                                    success: success,
                                                    error_message: err,
                                                },
                                            )
                                        } else {
                                            None
                                        },
                                        None => None,
                                    },
                                    None => None,
                                },
                                None => None,
                            },
                            None => None,
                        },
                        None => None,
                    },
                    None => None,
                },
                None => None,
            },
            None => None,
        },
        None => None,
    }
}

// ---------------------------------------------------------------------
// Decoding inverts encoding, field by field.
// ---------------------------------------------------------------------

proof fn lemma_dec_u16(b: Seq<u8>, i: int, v: u16)
    requires
        0 <= i,
        i + 2 <= b.len(),
        b.subrange(i, i + 2) == spec_u16_to_le_bytes(v),
    ensures
        dec_u16(b, i) == Some((v, i + 2)),
{
    lemma_auto_spec_u16_to_from_le_bytes();
    assert(spec_u16_to_le_bytes(v).len() == 2);
}

proof fn lemma_dec_u32(b: Seq<u8>, i: int, v: u32)
    requires
        0 <= i,
        i + 4 <= b.len(),
        b.subrange(i, i + 4) == spec_u32_to_le_bytes(v),
    ensures
        dec_u32(b, i) == Some((v, i + 4)),
{
    lemma_auto_spec_u32_to_from_le_bytes();
    assert(spec_u32_to_le_bytes(v).len() == 4);
}

proof fn lemma_dec_u64(b: Seq<u8>, i: int, v: u64)
    requires
        0 <= i,
        i + 8 <= b.len(),
        b.subrange(i, i + 8) == spec_u64_to_le_bytes(v),
    ensures
        dec_u64(b, i) == Some((v, i + 8)),
{
    lemma_auto_spec_u64_to_from_le_bytes();
    assert(spec_u64_to_le_bytes(v).len() == 8);
}

proof fn lemma_dec_str(b: Seq<u8>, i: int, s: Seq<char>)
    requires
        str_bytes_ok(s),
        0 <= i,
        i + enc_str(s).len() <= b.len(),
        b.subrange(i, i + enc_str(s).len() as int) == enc_str(s),
    ensures
        dec_str(b, i) == Some((s, i + enc_str(s).len() as int)),
{
    lemma_auto_spec_u32_to_from_le_bytes();
    let u = encode_utf8(s);
    let el = enc_str(s);
    let lenb = spec_u32_to_le_bytes(u.len() as u32);
    assert(lenb.len() == 4);
    assert(el.len() == 4 + u.len());
    assert(b.subrange(i, i + 4) =~= lenb) by {
        assert forall|k: int| 0 <= k < 4 implies b.subrange(i, i + 4)[k] == lenb[k] by {
            assert(b[i + k] == el[k]);
        }
    }
    lemma_dec_u32(b, i, u.len() as u32);
    assert(b.subrange(i + 4, i + 4 + u.len()) =~= u) by {
        assert forall|k: int| 0 <= k < u.len() implies b.subrange(i + 4, i + 4 + u.len() as int)[k]
            == u[k] by {
            assert(b[i + 4 + k] == el[4 + k]);
        }
    }
    vstd::utf8::encode_utf8_valid_utf8(s);
    vstd::utf8::encode_utf8_decode_utf8(s);
}

proof fn lemma_dec_str_list(b: Seq<u8>, i: int, l: Seq<Seq<char>>)
    requires
        str_list_ok(l),
        0 <= i,
        i + enc_str_list(l).len() <= b.len(),
        b.subrange(i, i + enc_str_list(l).len() as int) == enc_str_list(l),
    ensures
        dec_str_list(b, i, l.len() as int) == Some((l, i + enc_str_list(l).len() as int)),
    decreases l.len(),
{
    if l.len() == 0 {
        assert(dec_str_list(b, i, 0) == Some((Seq::<Seq<char>>::empty(), i)));
        assert(l =~= Seq::<Seq<char>>::empty());
    } else {
        let first = enc_str(l[0]);
        let rest = enc_str_list(l.drop_first());
        let el = enc_str_list(l);
        assert(el == first + rest);
        assert(b.subrange(i, i + first.len() as int) =~= first) by {
            assert forall|k: int| 0 <= k < first.len() implies b.subrange(
                i,
                i + first.len() as int,
            )[k] == first[k] by {
                assert(b[i + k] == el[k]);
            }
        }
        assert(str_bytes_ok(l[0]));
        lemma_dec_str(b, i, l[0]);
        let j = i + first.len() as int;
        assert(b.subrange(j, j + rest.len() as int) =~= rest) by {
            assert forall|k: int| 0 <= k < rest.len() implies b.subrange(
                j,
                j + rest.len() as int,
            )[k] == rest[k] by {
                assert(b[j + k] == el[first.len() + k]);
            }
        }
        assert(str_list_ok(l.drop_first())) by {
            assert forall|k: int| 0 <= k < l.drop_first().len() implies str_bytes_ok(
                #[trigger] l.drop_first()[k],
            ) by {
                assert(l.drop_first()[k] == l[k + 1]);
            }
        }
        lemma_dec_str_list(b, j, l.drop_first());
        assert(l =~= seq![l[0]] + l.drop_first());
        assert(dec_str_list(b, i, l.len() as int) == Some(
            (seq![l[0]] + l.drop_first(), i + el.len() as int),
        ));
    }
}

proof fn lemma_dec_bool(b: Seq<u8>, i: int, v: bool)
    requires
        0 <= i,
        i + 1 <= b.len(),
        b.subrange(i, i + 1) == enc_bool(v),
    ensures
        dec_bool(b, i) == Some((v, i + 1)),
{
    assert(b[i] == enc_bool(v)[0]);
}

proof fn lemma_dec_opt_str(b: Seq<u8>, i: int, o: Option<Seq<char>>)
    requires
        opt_str_ok(o),
        0 <= i,
        i + enc_opt_str(o).len() <= b.len(),
        b.subrange(i, i + enc_opt_str(o).len() as int) == enc_opt_str(o),
    ensures
        dec_opt_str(b, i) == Some((o, i + enc_opt_str(o).len() as int)),
{
    let el = enc_opt_str(o);
    assert(b[i] == el[0]);
    match o {
        None => {
        }
        Some(s) => {
            let first = enc_str(s);
            assert(el.len() == 1 + first.len());
            assert(b.subrange(i + 1, i + 1 + first.len() as int) =~= first) by {
                assert forall|k: int| 0 <= k < first.len() implies b.subrange(
                    i + 1,
                    i + 1 + first.len() as int,
                )[k] == first[k] by {
                    assert(b[i + 1 + k] == el[1 + k]);
                }
            }
            lemma_dec_str(b, i + 1, s);
        }
    }
}

proof fn lemma_seg_roundtrip(s: u16)
    ensures
        seg_of((s >> 8) as u8, (s & 0xff) as u8) == s,
{
    assert((((((s >> 8) as u8) as u16) << 8) | (((s & 0xff) as u8) as u16)) == s) by (bit_vector);
}

proof fn lemma_index_of_subrange(b: Seq<u8>, i: int, el: Seq<u8>, k: int)
    requires
        0 <= i,
        i + el.len() <= b.len(),
        b.subrange(i, i + el.len() as int) == el,
        0 <= k < el.len(),
    ensures
        b[i + k] == el[k],
{
    assert(b.subrange(i, i + el.len() as int)[k] == el[k]);
}

proof fn lemma_dec_addr(b: Seq<u8>, i: int, addr: SocketAddr)
    requires
        0 <= i,
        i + enc_addr(addr).len() <= b.len(),
        b.subrange(i, i + enc_addr(addr).len() as int) == enc_addr(addr),
    ensures
        dec_addr(b, i) == Some((addr, i + enc_addr(addr).len() as int)),
{
    lemma_auto_spec_u16_to_from_le_bytes();
    let el = enc_addr(addr);
    match addr {
        SocketAddr::V4 { a, b: b4, c, d, port } => {
            let pb = spec_u16_to_le_bytes(port);
            assert(pb.len() == 2);
            assert(el.len() == 7);
            lemma_index_of_subrange(b, i, el, 0);
            lemma_index_of_subrange(b, i, el, 1);
            lemma_index_of_subrange(b, i, el, 2);
            lemma_index_of_subrange(b, i, el, 3);
            lemma_index_of_subrange(b, i, el, 4);
            assert(b[i] == 0u8);
            assert(b[i + 1] == a);
            assert(b[i + 2] == b4);
            assert(b[i + 3] == c);
            assert(b[i + 4] == d);
            assert(b.subrange(i + 5, i + 7) =~= pb) by {
                lemma_index_of_subrange(b, i, el, 5);
                lemma_index_of_subrange(b, i, el, 6);
                assert(el[5] == pb[0]);
                assert(el[6] == pb[1]);
            }
        }
        SocketAddr::V6 { s0, s1, s2, s3, s4, s5, s6, s7, port } => {
            let pb = spec_u16_to_le_bytes(port);
            assert(pb.len() == 2);
            assert(el.len() == 19);
            assert forall|j: int| 0 <= j < 19 implies b[i + j] == el[j] by {
                lemma_index_of_subrange(b, i, el, j);
            }
            lemma_index_of_subrange(b, i, el, 0);
            assert(b[i] == el[0]);
            let pre = seq![
                1u8,
                (s0 >> 8) as u8,
                (s0 & 0xff) as u8,
                (s1 >> 8) as u8,
                (s1 & 0xff) as u8,
                (s2 >> 8) as u8,
                (s2 & 0xff) as u8,
                (s3 >> 8) as u8,
                (s3 & 0xff) as u8,
                (s4 >> 8) as u8,
                (s4 & 0xff) as u8,
                (s5 >> 8) as u8,
                (s5 & 0xff) as u8,
                (s6 >> 8) as u8,
                (s6 & 0xff) as u8,
                (s7 >> 8) as u8,
                (s7 & 0xff) as u8,
            ];
            assert(el == pre + pb);
            assert(pre.len() == 17);
            assert(el[0] == 1u8);
            assert(el[1] == (s0 >> 8) as u8);
            assert(el[2] == (s0 & 0xff) as u8);
            assert(el[3] == (s1 >> 8) as u8);
            assert(el[4] == (s1 & 0xff) as u8);
            assert(el[5] == (s2 >> 8) as u8);
            assert(el[6] == (s2 & 0xff) as u8);
            assert(el[7] == (s3 >> 8) as u8);
            assert(el[8] == (s3 & 0xff) as u8);
            assert(el[9] == (s4 >> 8) as u8);
            assert(el[10] == (s4 & 0xff) as u8);
            assert(el[11] == (s5 >> 8) as u8);
            assert(el[12] == (s5 & 0xff) as u8);
            assert(el[13] == (s6 >> 8) as u8);
            assert(el[14] == (s6 & 0xff) as u8);
            assert(el[15] == (s7 >> 8) as u8);
            assert(el[16] == (s7 & 0xff) as u8);
            lemma_seg_roundtrip(s0);
            lemma_seg_roundtrip(s1);
            lemma_seg_roundtrip(s2);
            lemma_seg_roundtrip(s3);
            lemma_seg_roundtrip(s4);
            lemma_seg_roundtrip(s5);
            lemma_seg_roundtrip(s6);
            lemma_seg_roundtrip(s7);
            assert(b.subrange(i + 17, i + 19) =~= pb) by {
                lemma_index_of_subrange(b, i, el, 17);
                lemma_index_of_subrange(b, i, el, 18);
                assert(el[17] == pb[0]);
                assert(el[18] == pb[1]);
            }
            assert(seg_of(b[i + 1], b[i + 2]) == s0);
            assert(seg_of(b[i + 3], b[i + 4]) == s1);
            assert(seg_of(b[i + 5], b[i + 6]) == s2);
            assert(seg_of(b[i + 7], b[i + 8]) == s3);
            assert(seg_of(b[i + 9], b[i + 10]) == s4);
            assert(seg_of(b[i + 11], b[i + 12]) == s5);
            assert(seg_of(b[i + 13], b[i + 14]) == s6);
            assert(seg_of(b[i + 15], b[i + 16]) == s7);
        }
    }
}

// ---------------------------------------------------------------------
// Round-trip laws: a message encoded and decoded is itself.
// ---------------------------------------------------------------------

/// Round-trip law for requests: every request that fits the wire format
/// decodes, from its own encoding, to itself.
#[verifier::spinoff_prover]
#[verifier::rlimit(100)]
pub proof fn lemma_request_round_trip(m: HandshakeRequestV)
    requires
        request_encodable(m),
    ensures
        spec_decode_request(spec_encode_request(m)) == Some(m),
{
    lemma_auto_spec_u32_to_from_le_bytes();
    lemma_auto_spec_u64_to_from_le_bytes();
    let b = spec_encode_request(m);
    let e1 = m.node_pubkey;
    let e2 = enc_str(m.protocol_version);
    let e3 = spec_u64_to_le_bytes(m.timestamp);
    let e4 = enc_str(m.network_id);
    let e5 = spec_u32_to_le_bytes(m.capabilities.len() as u32);
    let e6 = enc_str_list(m.capabilities);
    let p1 = e1.len() as int;
    let p2 = p1 + e2.len() as int;
    let p3 = p2 + e3.len() as int;
    let p4 = p3 + e4.len() as int;
    let p5 = p4 + e5.len() as int;
    let p6 = p5 + e6.len() as int;
    assert(b.len() == p6);
    assert(b.subrange(0, 32) =~= e1);
    assert(dec_bytes(b, 0, 32) == Some((e1, p1)));
    assert(b.subrange(p1, p2) =~= e2);
    lemma_dec_str(b, p1, m.protocol_version);
    assert(b.subrange(p2, p3) =~= e3);
    lemma_dec_u64(b, p2, m.timestamp);
    assert(b.subrange(p3, p4) =~= e4);
    lemma_dec_str(b, p3, m.network_id);
    assert(b.subrange(p4, p5) =~= e5);
    lemma_dec_u32(b, p4, m.capabilities.len() as u32);
    assert(b.subrange(p5, p6) =~= e6);
    lemma_dec_str_list(b, p5, m.capabilities);
    assert((m.capabilities.len() as u32) as int == m.capabilities.len() as int);
}

/// Round-trip law for responses: every response that fits the wire
/// format decodes, from its own encoding, to itself.
#[verifier::spinoff_prover]
#[verifier::rlimit(100)]
pub proof fn lemma_response_round_trip(m: HandshakeResponseV)
    requires
        response_encodable(m),
    ensures
        spec_decode_response(spec_encode_response(m)) == Some(m),
{
    lemma_auto_spec_u32_to_from_le_bytes();
    lemma_auto_spec_u64_to_from_le_bytes();
    let b = spec_encode_response(m);
    let e1 = m.peer_pubkey;
    let e2 = enc_str(m.protocol_version);
    let e3 = enc_str(m.network_id);
    let e4 = enc_addr(m.gossip_addr);
    let e5 = spec_u32_to_le_bytes(m.capabilities.len() as u32);
    let e6 = enc_str_list(m.capabilities);
    let e7 = spec_u64_to_le_bytes(m.timestamp);
    let e8 = enc_bool(m.success);
    let e9 = enc_opt_str(m.error_message);
    let p1 = e1.len() as int;
    let p2 = p1 + e2.len() as int;
    let p3 = p2 + e3.len() as int;
    let p4 = p3 + e4.len() as int;
    let p5 = p4 + e5.len() as int;
    let p6 = p5 + e6.len() as int;
    let p7 = p6 + e7.len() as int;
    let p8 = p7 + e8.len() as int;
    let p9 = p8 + e9.len() as int;
    assert(b.len() == p9);
    assert(b.subrange(0, 32) =~= e1);
    assert(dec_bytes(b, 0, 32) == Some((e1, p1)));
    assert(b.subrange(p1, p2) =~= e2);
    lemma_dec_str(b, p1, m.protocol_version);
    assert(b.subrange(p2, p3) =~= e3);
    lemma_dec_str(b, p2, m.network_id);
    assert(b.subrange(p3, p4) =~= e4);
    lemma_dec_addr(b, p3, m.gossip_addr);
    assert(b.subrange(p4, p5) =~= e5);
    lemma_dec_u32(b, p4, m.capabilities.len() as u32);
    assert(b.subrange(p5, p6) =~= e6);
    lemma_dec_str_list(b, p5, m.capabilities);
    assert((m.capabilities.len() as u32) as int == m.capabilities.len() as int);
    assert(b.subrange(p6, p7) =~= e7);
    lemma_dec_u64(b, p6, m.timestamp);
    assert(b.subrange(p7, p8) =~= e8);
    lemma_dec_bool(b, p7, m.success);
    assert(b.subrange(p8, p9) =~= e9);
    lemma_dec_opt_str(b, p8, m.error_message);
}

// ---------------------------------------------------------------------
// Executable encoders.
// ---------------------------------------------------------------------

proof fn lemma_enc_str_list_snoc(l: Seq<Seq<char>>, s: Seq<char>)
    ensures
        enc_str_list(l.push(s)) == enc_str_list(l) + enc_str(s),
    decreases l.len(),
{
    if l.len() == 0 {
        assert(l.push(s)[0] == s);
        assert(l.push(s).drop_first() =~= Seq::<Seq<char>>::empty());
        assert(enc_str_list(l.push(s)) == enc_str(s) + enc_str_list(
            Seq::<Seq<char>>::empty(),
        ));
        assert(enc_str_list(Seq::<Seq<char>>::empty()) =~= Seq::<u8>::empty());
        assert(enc_str_list(l) =~= Seq::<u8>::empty());
        assert(enc_str_list(l.push(s)) =~= enc_str_list(l) + enc_str(s));
    } else {
        assert(l.push(s)[0] == l[0]);
        assert(l.push(s).drop_first() =~= l.drop_first().push(s));
        lemma_enc_str_list_snoc(l.drop_first(), s);
        assert(enc_str_list(l.push(s)) == enc_str(l[0]) + (enc_str_list(l.drop_first()) + enc_str(
            s,
        )));
        assert(enc_str(l[0]) + (enc_str_list(l.drop_first()) + enc_str(s)) =~= (enc_str(l[0])
            + enc_str_list(l.drop_first())) + enc_str(s));
    }
}

fn append_bytes(out: &mut Vec<u8>, src: &[u8])
    ensures
        final(out)@ == old(out)@ + src@,
{
    let n = src.len();
    let mut i: usize = 0;
    while i < n
        invariant
            i <= n,
            n == src@.len(),
            out@ == old(out)@ + src@.subrange(0, i as int),
        decreases n - i,
    {
        out.push(src[i]);
        proof {
            assert(old(out)@ + src@.subrange(0, i + 1) =~= (old(out)@ + src@.subrange(
                0,
                i as int,
            )).push(src@[i as int]));
        }
        i += 1;
    }
    proof {
        assert(src@.subrange(0, n as int) =~= src@);
    }
}

fn append_str(out: &mut Vec<u8>, s: &str) -> (ok: bool)
    ensures
        ok ==> final(out)@ == old(out)@ + enc_str(s@) && str_bytes_ok(s@),
        !ok ==> final(out)@ == old(out)@ && !str_bytes_ok(s@),
{
    proof {
        lemma_auto_spec_u32_to_from_le_bytes();
    }
    let bytes = s.as_bytes();
    if bytes.len() > u32::MAX as usize {
        return false;
    }
    let lenv = vstd::bytes::u32_to_le_bytes(bytes.len() as u32);
    append_bytes(out, lenv.as_slice());
    append_bytes(out, bytes);
    proof {
        assert(out@ =~= old(out)@ + enc_str(s@));
    }
    true
}

fn serialization_failed() -> (r: crate::solana::domain::SolanaNodeError)
    ensures
        r@ == crate::solana::domain::SolanaNodeErrorV::SerializationFailed(
            "message does not fit the wire format"@,
        ),
{
    crate::solana::domain::SolanaNodeError::SerializationFailed(
        "message does not fit the wire format".to_owned(),
    )
}

/// Encodes a handshake request; fails exactly when the request does not
/// fit the wire format.
pub fn encode_request(req: &crate::solana::domain::HandshakeRequest) -> (r: Result<
    Vec<u8>,
    crate::solana::domain::SolanaNodeError,
>)
    ensures
        match r {
            Ok(v) => request_encodable(req@) && v@ == spec_encode_request(req@),
            Err(e) => !request_encodable(req@) && e@
                == crate::solana::domain::SolanaNodeErrorV::SerializationFailed(
                "message does not fit the wire format"@,
            ),
        },
{
    let mut out: Vec<u8> = Vec::new();
    let pk = req.node_pubkey.as_bytes();
    if pk.len() != 32 {
        return Err(serialization_failed());
    }
    append_bytes(&mut out, pk.as_slice());
    if !append_str(&mut out, req.protocol_version.as_str()) {
        return Err(serialization_failed());
    }
    let tsv = vstd::bytes::u64_to_le_bytes(req.timestamp);
    append_bytes(&mut out, tsv.as_slice());
    if !append_str(&mut out, req.network_id.as_str()) {
        return Err(serialization_failed());
    }
    let ncaps = req.capabilities.len();
    if ncaps > u32::MAX as usize {
        return Err(serialization_failed());
    }
    let cntv = vstd::bytes::u32_to_le_bytes(ncaps as u32);
    append_bytes(&mut out, cntv.as_slice());
    let ghost head = req@.node_pubkey + enc_str(req@.protocol_version) + spec_u64_to_le_bytes(
        req@.timestamp,
    ) + enc_str(req@.network_id) + spec_u32_to_le_bytes(req@.capabilities.len() as u32);
    proof {
        assert(out@ =~= head);
    }
    let mut i: usize = 0;
    while i < ncaps
        invariant
            i <= ncaps,
            ncaps == req.capabilities@.len(),
            req@.capabilities == req.capabilities.deep_view(),
            out@ == head + enc_str_list(req@.capabilities.take(i as int)),
            forall|j: int| 0 <= j < i ==> str_bytes_ok(#[trigger] req@.capabilities[j]),
        decreases ncaps - i,
    {
        proof {
            assert(req@.capabilities[i as int] == req.capabilities@[i as int]@);
        }
        if !append_str(&mut out, req.capabilities[i].as_str()) {
            return Err(serialization_failed());
        }
        proof {
            lemma_enc_str_list_snoc(req@.capabilities.take(i as int), req@.capabilities[i as int]);
            assert(req@.capabilities.take(i + 1) =~= req@.capabilities.take(i as int).push(
                req@.capabilities[i as int],
            ));
            assert(out@ =~= head + enc_str_list(req@.capabilities.take(i + 1)));
        }
        i += 1;
    }
    proof {
        assert(req@.capabilities.take(ncaps as int) =~= req@.capabilities);
        assert(out@ =~= spec_encode_request(req@));
    }
    Ok(out)
}

/// Encodes a handshake response; fails exactly when the response does
/// not fit the wire format.
pub fn encode_response(resp: &crate::solana::domain::HandshakeResponse) -> (r: Result<
    Vec<u8>,
    crate::solana::domain::SolanaNodeError,
>)
    ensures
        match r {
            Ok(v) => response_encodable(resp@) && v@ == spec_encode_response(resp@),
            Err(e) => !response_encodable(resp@) && e@
                == crate::solana::domain::SolanaNodeErrorV::SerializationFailed(
                "message does not fit the wire format"@,
            ),
        },
{
    let mut out: Vec<u8> = Vec::new();
    let pk = resp.peer_pubkey.as_bytes();
    if pk.len() != 32 {
        return Err(serialization_failed());
    }
    append_bytes(&mut out, pk.as_slice());
    if !append_str(&mut out, resp.protocol_version.as_str()) {
        return Err(serialization_failed());
    }
    if !append_str(&mut out, resp.network_id.as_str()) {
        return Err(serialization_failed());
    }
    append_addr(&mut out, resp.gossip_addr);
    let ncaps = resp.capabilities.len();
    if ncaps > u32::MAX as usize {
        return Err(serialization_failed());
    }
    let cntv = vstd::bytes::u32_to_le_bytes(ncaps as u32);
    append_bytes(&mut out, cntv.as_slice());
    let ghost head = resp@.peer_pubkey + enc_str(resp@.protocol_version) + enc_str(
        resp@.network_id,
    ) + enc_addr(resp@.gossip_addr) + spec_u32_to_le_bytes(resp@.capabilities.len() as u32);
    proof {
        assert(out@ =~= head);
    }
    let mut i: usize = 0;
    while i < ncaps
        invariant
            i <= ncaps,
            ncaps == resp.capabilities@.len(),
            resp@.capabilities == resp.capabilities.deep_view(),
            out@ == head + enc_str_list(resp@.capabilities.take(i as int)),
            forall|j: int| 0 <= j < i ==> str_bytes_ok(#[trigger] resp@.capabilities[j]),
        decreases ncaps - i,
    {
        proof {
            assert(resp@.capabilities[i as int] == resp.capabilities@[i as int]@);
        }
        if !append_str(&mut out, resp.capabilities[i].as_str()) {
            return Err(serialization_failed());
        }
        proof {
            lemma_enc_str_list_snoc(
                resp@.capabilities.take(i as int),
                resp@.capabilities[i as int],
            );
            assert(resp@.capabilities.take(i + 1) =~= resp@.capabilities.take(i as int).push(
                resp@.capabilities[i as int],
            ));
            assert(out@ =~= head + enc_str_list(resp@.capabilities.take(i + 1)));
        }
        i += 1;
    }
    proof {
        assert(resp@.capabilities.take(ncaps as int) =~= resp@.capabilities);
    }
    let ghost head2 = head + enc_str_list(resp@.capabilities);
    let tsv = vstd::bytes::u64_to_le_bytes(resp.timestamp);
    append_bytes(&mut out, tsv.as_slice());
    if resp.success {
        out.push(1u8);
    } else {
        out.push(0u8);
    }
    proof {
        assert(out@ =~= head2 + spec_u64_to_le_bytes(resp@.timestamp) + enc_bool(resp@.success));
    }
    match &resp.error_message {
        None => {
            out.push(0u8);
            proof {
                assert(out@ =~= spec_encode_response(resp@));
            }
        }
        Some(m) => {
            out.push(1u8);
            if !append_str(&mut out, m.as_str()) {
                return Err(serialization_failed());
            }
            proof {
                assert(enc_opt_str(resp@.error_message) =~= seq![1u8] + enc_str(m@));
                assert(out@ =~= spec_encode_response(resp@));
            }
        }
    }
    Ok(out)
}

fn append_addr(out: &mut Vec<u8>, addr: crate::solana::domain::SocketAddr)
    ensures
        final(out)@ == old(out)@ + enc_addr(addr),
{
    proof {
        lemma_auto_spec_u16_to_from_le_bytes();
    }
    match addr {
        crate::solana::domain::SocketAddr::V4 { a, b, c, d, port } => {
            out.push(0u8);
            out.push(a);
            out.push(b);
            out.push(c);
            out.push(d);
            let pv = vstd::bytes::u16_to_le_bytes(port);
            append_bytes(out, pv.as_slice());
            proof {
                assert(out@ =~= old(out)@ + enc_addr(addr));
            }
        }
        crate::solana::domain::SocketAddr::V6 { s0, s1, s2, s3, s4, s5, s6, s7, port } => {
            out.push(1u8);
            push_seg(out, s0);
            push_seg(out, s1);
            push_seg(out, s2);
            push_seg(out, s3);
            push_seg(out, s4);
            push_seg(out, s5);
            push_seg(out, s6);
            push_seg(out, s7);
            let pv = vstd::bytes::u16_to_le_bytes(port);
            append_bytes(out, pv.as_slice());
            proof {
                assert(out@ =~= old(out)@ + enc_addr(addr));
            }
        }
    }
}

fn push_seg(out: &mut Vec<u8>, s: u16)
    ensures
        final(out)@ == old(out)@.push((s >> 8) as u8).push((s & 0xff) as u8),
{
    out.push((s >> 8) as u8);
    out.push((s & 0xff) as u8);
}


// ---------------------------------------------------------------------
// Executable decoders.
// ---------------------------------------------------------------------

fn read_u32(data: &[u8], pos: usize) -> (r: Option<(u32, usize)>)
    ensures
        match r {
            Some((v, p)) => dec_u32(data@, pos as int) == Some((v, p as int)) && pos <= p
                <= data@.len(),
            None => dec_u32(data@, pos as int) is None,
        },
{
    if data.len() < 4 || pos > data.len() - 4 {
        return None;
    }
    let s = vstd::slice::slice_subrange(data, pos, pos + 4);
    let v = vstd::bytes::u32_from_le_bytes(s);
    Some((v, pos + 4))
}

fn read_u64(data: &[u8], pos: usize) -> (r: Option<(u64, usize)>)
    ensures
        match r {
            Some((v, p)) => dec_u64(data@, pos as int) == Some((v, p as int)) && pos <= p
                <= data@.len(),
            None => dec_u64(data@, pos as int) is None,
        },
{
    if data.len() < 8 || pos > data.len() - 8 {
        return None;
    }
    let s = vstd::slice::slice_subrange(data, pos, pos + 8);
    let v = vstd::bytes::u64_from_le_bytes(s);
    Some((v, pos + 8))
}

fn read_u16(data: &[u8], pos: usize) -> (r: Option<(u16, usize)>)
    ensures
        match r {
            Some((v, p)) => dec_u16(data@, pos as int) == Some((v, p as int)) && pos <= p
                <= data@.len(),
            None => dec_u16(data@, pos as int) is None,
        },
{
    if data.len() < 2 || pos > data.len() - 2 {
        return None;
    }
    let s = vstd::slice::slice_subrange(data, pos, pos + 2);
    let v = vstd::bytes::u16_from_le_bytes(s);
    Some((v, pos + 2))
}

fn read_string(data: &[u8], pos: usize) -> (r: Option<(String, usize)>)
    ensures
        match r {
            Some((s, p)) => dec_str(data@, pos as int) == Some((s@, p as int)) && pos <= p
                <= data@.len(),
            None => dec_str(data@, pos as int) is None,
        },
{
    let (len32, p1) = match read_u32(data, pos) {
        Some(x) => x,
        None => {
            return None;
        },
    };
    let len = len32 as usize;
    if len > data.len() - p1 {
        return None;
    }
    let seg = vstd::slice::slice_subrange(data, p1, p1 + len);
    let segv = vstd::slice::slice_to_vec(seg);
    proof {
        assert(segv@ == data@.subrange(p1 as int, p1 + len as int));
        assert(dec_bytes(data@, p1 as int, len32 as int) == Some((segv@, p1 + len as int)));
    }
    match crate::strutil::string_from_utf8(segv) {
        Some(s) => {
            proof {
                broadcast use vstd::utf8::encode_utf8_valid_utf8;
                broadcast use vstd::utf8::encode_utf8_decode_utf8;

                assert(valid_utf8(data@.subrange(p1 as int, p1 + len as int)));
                assert(decode_utf8(encode_utf8(s@)) == s@);
                assert(decode_utf8(data@.subrange(p1 as int, p1 + len as int)) == s@);
            }
            Some((s, p1 + len))
        },
        None => {
            proof {
                assert(!valid_utf8(data@.subrange(p1 as int, p1 + len as int)));
            }
            None
        },
    }
}

fn read_bool(data: &[u8], pos: usize) -> (r: Option<(bool, usize)>)
    ensures
        match r {
            Some((v, p)) => dec_bool(data@, pos as int) == Some((v, p as int)) && pos <= p
                <= data@.len(),
            None => dec_bool(data@, pos as int) is None,
        },
{
    if pos >= data.len() {
        return None;
    }
    let tag = data[pos];
    if tag == 0 {
        Some((false, pos + 1))
    } else if tag == 1 {
        Some((true, pos + 1))
    } else {
        None
    }
}

fn read_opt_string(data: &[u8], pos: usize) -> (r: Option<(Option<String>, usize)>)
    ensures
        match r {
            Some((o, p)) => dec_opt_str(data@, pos as int) == Some((o.deep_view(), p as int)) && pos
                <= p <= data@.len(),
            None => dec_opt_str(data@, pos as int) is None,
        },
{
    if pos >= data.len() {
        return None;
    }
    let tag = data[pos];
    if tag == 0 {
        let r: Option<String> = None;
        proof {
            assert(r.deep_view() == Option::<Seq<char>>::None);
        }
        Some((r, pos + 1))
    } else if tag == 1 {
        match read_string(data, pos + 1) {
            Some((s, p)) => {
                let r: Option<String> = Some(s);
                proof {
                    assert(r.deep_view() == Option::<Seq<char>>::Some(s@));
                }
                Some((r, p))
            },
            None => None,
        }
    } else {
        None
    }
}

fn read_addr(data: &[u8], pos: usize) -> (r: Option<(SocketAddr, usize)>)
    ensures
        match r {
            Some((v, p)) => dec_addr(data@, pos as int) == Some((v, p as int)) && pos <= p
                <= data@.len(),
            None => dec_addr(data@, pos as int) is None,
        },
{
    if pos >= data.len() {
        return None;
    }
    let tag = data[pos];
    if tag == 0 {
        if data.len() < 7 || pos > data.len() - 7 {
            return None;
        }
        let a = data[pos + 1];
        let b = data[pos + 2];
        let c = data[pos + 3];
        let d = data[pos + 4];
        let (port, p) = match read_u16(data, pos + 5) {
            Some(x) => x,
            None => {
                return None;
            },
        };
        proof {
            assert(data@.subrange(pos + 5, pos + 7) == data@.subrange(pos as int + 5, pos as int
                + 7));
        }
        Some((SocketAddr::V4 { a, b, c, d, port }, p))
    } else if tag == 1 {
        if data.len() < 19 || pos > data.len() - 19 {
            return None;
        }
        let s0 = read_seg(data, pos + 1);
        let s1 = read_seg(data, pos + 3);
        let s2 = read_seg(data, pos + 5);
        let s3 = read_seg(data, pos + 7);
        let s4 = read_seg(data, pos + 9);
        let s5 = read_seg(data, pos + 11);
        let s6 = read_seg(data, pos + 13);
        let s7 = read_seg(data, pos + 15);
        let (port, p) = match read_u16(data, pos + 17) {
            Some(x) => x,
            None => {
                return None;
            },
        };
        Some((SocketAddr::V6 { s0, s1, s2, s3, s4, s5, s6, s7, port }, p))
    } else {
        None
    }
}

fn read_seg(data: &[u8], pos: usize) -> (r: u16)
    requires
        pos + 2 <= data@.len(),
    ensures
        r == seg_of(data@[pos as int], data@[pos as int + 1]),
{
    let hi = data[pos];
    let lo = data[pos + 1];
    ((hi as u16) << 8) | (lo as u16)
}

/// Decodes a handshake request from a whole packet; yields nothing when
/// the packet does not decode as a request.
pub fn decode_request(data: &[u8]) -> (r: Option<crate::solana::domain::HandshakeRequest>)
    ensures
        match r {
            Some(m) => spec_decode_request(data@) == Some(m@),
            None => spec_decode_request(data@) is None,
        },
{
    if data.len() < 32 {
        return None;
    }
    let pkslice = vstd::slice::slice_subrange(data, 0, 32);
    let pkvec = vstd::slice::slice_to_vec(pkslice);
    let node_pubkey = match crate::solana::domain::Pubkey::from_bytes(pkvec) {
        Some(p) => p,
        None => {
            proof {
                assert(false);
            }
            return None;
        },
    };
    let (protocol_version, p2) = match read_string(data, 32) {
        Some(x) => x,
        None => {
            return None;
        },
    };
    let (timestamp, p3) = match read_u64(data, p2) {
        Some(x) => x,
        None => {
            return None;
        },
    };
    let (network_id, p4) = match read_string(data, p3) {
        Some(x) => x,
        None => {
            return None;
        },
    };
    let (count, p5) = match read_u32(data, p4) {
        Some(x) => x,
        None => {
            return None;
        },
    };
    let (capabilities, p6) = match read_string_list(data, p5, count) {
        Some(x) => x,
        None => {
            return None;
        },
    };
    if p6 != data.len() {
        return None;
    }
    let m = crate::solana::domain::HandshakeRequest {
        node_pubkey,
        protocol_version,
        timestamp,
        network_id,
        capabilities,
    };
    Some(m)
}

/// Decodes a handshake response from a whole packet; yields nothing when
/// the packet does not decode as a response.
pub fn decode_response(data: &[u8]) -> (r: Option<crate::solana::domain::HandshakeResponse>)
    ensures
        match r {
            Some(m) => spec_decode_response(data@) == Some(m@),
            None => spec_decode_response(data@) is None,
        },
{
    if data.len() < 32 {
        return None;
    }
    let pkslice = vstd::slice::slice_subrange(data, 0, 32);
    let pkvec = vstd::slice::slice_to_vec(pkslice);
    let peer_pubkey = match crate::solana::domain::Pubkey::from_bytes(pkvec) {
        Some(p) => p,
        None => {
            proof {
                assert(false);
            }
            return None;
        },
    };
    let (protocol_version, p2) = match read_string(data, 32) {
        Some(x) => x,
        None => {
            return None;
        },
    };
    let (network_id, p3) = match read_string(data, p2) {
        Some(x) => x,
        None => {
            return None;
        },
    };
    let (gossip_addr, p4) = match read_addr(data, p3) {
        Some(x) => x,
        None => {
            return None;
        },
    };
    let (count, p5) = match read_u32(data, p4) {
        Some(x) => x,
        None => {
            return None;
        },
    };
    let (capabilities, p6) = match read_string_list(data, p5, count) {
        Some(x) => x,
        None => {
            return None;
        },
    };
    let (timestamp, p7) = match read_u64(data, p6) {
        Some(x) => x,
        None => {
            return None;
        },
    };
    let (success, p8) = match read_bool(data, p7) {
        Some(x) => x,
        None => {
            return None;
        },
    };
    let (error_message, p9) = match read_opt_string(data, p8) {
        Some(x) => x,
        None => {
            return None;
        },
    };
    if p9 != data.len() {
        return None;
    }
    let m = crate::solana::domain::HandshakeResponse {
        peer_pubkey,
        protocol_version,
        network_id,
        gossip_addr,
        capabilities,
        timestamp,
        success,
        error_message,
    };
    Some(m)
}

fn read_string_list(data: &[u8], pos: usize, count: u32) -> (r: Option<(Vec<String>, usize)>)
    requires
        pos <= data@.len(),
    ensures
        match r {
            Some((l, p)) => dec_str_list(data@, pos as int, count as int) == Some(
                (l.deep_view(), p as int),
            ) && pos <= p <= data@.len(),
            None => dec_str_list(data@, pos as int, count as int) is None,
        },
{
    let mut items: Vec<String> = Vec::new();
    let mut cur: usize = pos;
    let mut i: u32 = 0;
    while i < count
        invariant
            i <= count,
            pos <= cur <= data@.len(),
            items@.len() == i,
            ({
                let full = dec_str_list(data@, pos as int, count as int);
                let rest = dec_str_list(data@, cur as int, (count - i) as int);
                match rest {
                    Some((l, e)) => full == Some((items.deep_view() + l, e)),
                    None => full is None,
                }
            }),
        decreases count - i,
    {
        let (s, p) = match read_string(data, cur) {
            Some(x) => x,
            None => {
                proof {
                    assert(dec_str(data@, cur as int) is None);
                    assert(dec_str_list(data@, cur as int, (count - i) as int) is None);
                }
                return None;
            },
        };
        proof {
            let ghost rest_after = dec_str_list(data@, p as int, (count - i - 1) as int);
            assert(dec_str_list(data@, cur as int, (count - i) as int) == (match rest_after {
                Some((l, e)) => Some((seq![s@] + l, e)),
                None => None::<(Seq<Seq<char>>, int)>,
            }));
        }
        let ghost old_items = items.deep_view();
        items.push(s);
        proof {
            assert(items.deep_view() =~= old_items.push(s@));
            assert forall|l: Seq<Seq<char>>| true implies old_items + (seq![s@] + l)
                =~= items.deep_view() + l by {}
        }
        cur = p;
        i = i + 1;
    }
    proof {
        assert(dec_str_list(data@, cur as int, 0) == Some((Seq::<Seq<char>>::empty(), cur as int)));
        assert(items.deep_view() + Seq::<Seq<char>>::empty() =~= items.deep_view());
    }
    Some((items, cur))
}


// ---------------------------------------------------------------------
// Bounds carried by decoded values: every string a decoder yields came
// out of the packet, so its UTF-8 length is bounded by the packet size.
// ---------------------------------------------------------------------

pub proof fn lemma_dec_str_bound(b: Seq<u8>, i: int)
    ensures
        match dec_str(b, i) {
            Some((s, j)) => i + 4 <= j <= b.len() && encode_utf8(s).len() == j - i - 4,
            None => true,
        },
{
    if dec_str(b, i) is Some {
        let n = dec_u32(b, i).unwrap().0;
        let seg = dec_bytes(b, i + 4, n as int).unwrap().0;
        assert(valid_utf8(seg));
        vstd::utf8::decode_utf8_encode_utf8(seg);
        assert(encode_utf8(decode_utf8(seg)) == seg);
    }
}

pub proof fn lemma_dec_str_list_bound(b: Seq<u8>, i: int, count: int)
    requires
        0 <= i,
    ensures
        match dec_str_list(b, i, count) {
            Some((l, e)) => {
                &&& i <= e
                &&& l.len() == (if count >= 0 { count } else { 0 })
                &&& (count > 0 ==> e <= b.len())
                &&& forall|k: int|
                    0 <= k < l.len() ==> encode_utf8(#[trigger] l[k]).len() <= b.len()
            },
            None => true,
        },
    decreases count,
{
    if count <= 0 {
    } else {
        if dec_str(b, i) is Some {
            let (s, j) = dec_str(b, i).unwrap();
            lemma_dec_str_bound(b, i);
            if dec_str_list(b, j, count - 1) is Some {
                let (rest, e) = dec_str_list(b, j, count - 1).unwrap();
                lemma_dec_str_list_bound(b, j, count - 1);
                let l = seq![s] + rest;
                assert forall|k: int| 0 <= k < l.len() implies encode_utf8(
                    #[trigger] l[k],
                ).len() <= b.len() by {
                    if k == 0 {
                        assert(l[0] == s);
                    } else {
                        assert(l[k] == rest[k - 1]);
                    }
                }
            }
        }
    }
}

/// Every field of a request decoded from a packet of `n` bytes is
/// bounded by `n`.
pub open spec fn request_within(m: HandshakeRequestV, n: int) -> bool {
    &&& m.node_pubkey.len() == 32
    &&& encode_utf8(m.protocol_version).len() <= n
    &&& encode_utf8(m.network_id).len() <= n
    &&& m.capabilities.len() <= u32::MAX
    &&& forall|k: int|
        0 <= k < m.capabilities.len() ==> encode_utf8(#[trigger] m.capabilities[k]).len() <= n
}

pub proof fn lemma_decoded_request_within(data: Seq<u8>)
    requires
        spec_decode_request(data) is Some,
    ensures
        request_within(spec_decode_request(data).unwrap(), data.len() as int),
{
    let (pk, p1) = dec_bytes(data, 0, 32).unwrap();
    let (pv, p2) = dec_str(data, p1).unwrap();
    let (ts, p3) = dec_u64(data, p2).unwrap();
    let (net, p4) = dec_str(data, p3).unwrap();
    let (count, p5) = dec_u32(data, p4).unwrap();
    lemma_dec_str_bound(data, p1);
    lemma_dec_str_bound(data, p3);
    assert(0 <= p5);
    lemma_dec_str_list_bound(data, p5, count as int);
}

} // verus!
