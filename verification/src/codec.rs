//! STUN binding-message wire codec.
//!
//! A binding request is a bare 20-byte header; a binding response carries
//! one XOR-MAPPED-ADDRESS attribute whose port is XORed with the high
//! half of the magic cookie and whose IPv4 octets are XORed with the
//! cookie bytes.  The spec functions below define the wire format; the
//! executable functions are proved to produce and recognise exactly it.

use crate::endpoint::Endpoint;
use vstd::prelude::*;

verus! {

/// Message type of a binding request.
pub const BINDING_REQUEST: u16 = 0x0001;

/// Message type of a binding success response.
pub const BINDING_RESPONSE: u16 = 0x0101;

/// The four magic-cookie bytes, big-endian 0x2112A442.
pub const COOKIE_BYTE_0: u8 = 0x21;

pub const COOKIE_BYTE_1: u8 = 0x12;

pub const COOKIE_BYTE_2: u8 = 0xa4;

pub const COOKIE_BYTE_3: u8 = 0x42;

/// The high 16 bits of the magic cookie, used to XOR the mapped port.
pub const COOKIE_HIGH: u16 = 0x2112;

/// Attribute type of XOR-MAPPED-ADDRESS.
pub const ATTR_XOR_MAPPED_ADDRESS: u16 = 0x0020;

/// Address-family byte for IPv4 inside a mapped-address attribute.
pub const FAMILY_IPV4: u8 = 0x01;

/// Length of the fixed message header.
pub const HEADER_LEN: usize = 20;

/// Length of a transaction id.
pub const TRANSACTION_ID_LEN: usize = 12;

/// The 96-bit identifier that correlates a request with its response.
/// The bytes come from the caller (they must be fresh per request);
/// the codec only carries them through.
pub struct TransactionId {
    pub bytes: Vec<u8>,
}

impl View for TransactionId {
    type V = Seq<u8>;

    open spec fn view(&self) -> Seq<u8> {
        self.bytes@
    }
}

impl TransactionId {
    /// A transaction id is exactly twelve bytes.
    pub open spec fn wf(&self) -> bool {
        self.bytes@.len() == TRANSACTION_ID_LEN
    }

    /// Wraps twelve raw bytes as a transaction id.
    pub fn new(bytes: Vec<u8>) -> (t: TransactionId)
        requires
            bytes@.len() == TRANSACTION_ID_LEN,
        ensures
            t.wf(),
            t@ == bytes@,
    {
        TransactionId { bytes }
    }
}

/// The value of a big-endian 16-bit field.
pub open spec fn be16(hi: u8, lo: u8) -> int {
    hi * 256 + lo
}

/// Joins two bytes into a big-endian 16-bit value.
pub fn be16_join(hi: u8, lo: u8) -> (r: u16)
    ensures
        r as int == be16(hi, lo),
{
    (hi as u16) * 256 + (lo as u16)
}

/// The wire bytes of a binding request with the given transaction id:
/// type 0x0001, length 0, the magic cookie, then the id.
pub open spec fn spec_binding_request(tid: Seq<u8>) -> Seq<u8> {
    seq![0x00u8, 0x01u8, 0x00u8, 0x00u8, 0x21u8, 0x12u8, 0xa4u8, 0x42u8] + tid
}

/// A mapped port as it stands on the wire: XORed with the cookie's high half.
pub open spec fn spec_xor_port(port: u16) -> u16 {
    port ^ COOKIE_HIGH
}

/// The wire bytes of a binding response whose only attribute is an IPv4
/// XOR-MAPPED-ADDRESS for `ep`: type 0x0101, length 12, cookie, id, then
/// the attribute (type 0x0020, length 8, reserved byte, family, XORed
/// port, XORed address octets).
pub open spec fn spec_binding_response(tid: Seq<u8>, ep: Endpoint) -> Seq<u8> {
    seq![0x01u8, 0x01u8, 0x00u8, 0x0cu8, 0x21u8, 0x12u8, 0xa4u8, 0x42u8] + tid + seq![
        0x00u8,
        0x20u8,
        0x00u8,
        0x08u8,
        0x00u8,
        0x01u8,
        (spec_xor_port(ep.port) as int / 256) as u8,
        (spec_xor_port(ep.port) as int % 256) as u8,
        (ep.ip0 ^ COOKIE_BYTE_0),
        (ep.ip1 ^ COOKIE_BYTE_1),
        (ep.ip2 ^ COOKIE_BYTE_2),
        (ep.ip3 ^ COOKIE_BYTE_3),
    ]
}

/// Copies `src[start..end]` into a fresh vector.
pub fn copy_range(src: &Vec<u8>, start: usize, end: usize) -> (out: Vec<u8>)
    requires
        start <= end,
        end <= src@.len(),
    ensures
        out@ == src@.subrange(start as int, end as int),
{
    let mut out: Vec<u8> = Vec::new();
    let mut i: usize = start;
    while i < end
        invariant
            start <= i <= end,
            end <= src@.len(),
            out@ == src@.subrange(start as int, i as int),
        decreases end - i,
    {
        out.push(src[i]);
        proof {
            assert(out@ =~= src@.subrange(start as int, i + 1 as int));
        }
        i = i + 1;
    }
    out
}

/// Serialises a binding request carrying `tid`.
pub fn encode_binding_request(tid: &TransactionId) -> (out: Vec<u8>)
    requires
        tid.wf(),
    ensures
        out@ == spec_binding_request(tid@),
        out@.len() == HEADER_LEN,
{
    let mut out: Vec<u8> = Vec::new();
    out.push(0x00);
    out.push(0x01);
    out.push(0x00);
    out.push(0x00);
    out.push(0x21);
    out.push(0x12);
    out.push(0xa4);
    out.push(0x42);
    let mut body = copy_range(&tid.bytes, 0, tid.bytes.len());
    out.append(&mut body);
    proof {
        assert(tid.bytes@.subrange(0, tid.bytes@.len() as int) =~= tid@);
        assert(out@ =~= spec_binding_request(tid@));
    }
    out
}

/// Serialises a binding response that maps the sender to `ep`.
pub fn encode_binding_response(tid: &TransactionId, ep: Endpoint) -> (out: Vec<u8>)
    requires
        tid.wf(),
    ensures
        out@ == spec_binding_response(tid@, ep),
{
    let xport: u16 = ep.port ^ COOKIE_HIGH;
    let mut out: Vec<u8> = Vec::new();
    out.push(0x01);
    out.push(0x01);
    out.push(0x00);
    out.push(0x0c);
    out.push(0x21);
    out.push(0x12);
    out.push(0xa4);
    out.push(0x42);
    let mut body = copy_range(&tid.bytes, 0, tid.bytes.len());
    out.append(&mut body);
    out.push(0x00);
    out.push(0x20);
    out.push(0x00);
    out.push(0x08);
    out.push(0x00);
    out.push(0x01);
    out.push((xport / 256) as u8);
    out.push((xport % 256) as u8);
    out.push(ep.ip0 ^ COOKIE_BYTE_0);
    out.push(ep.ip1 ^ COOKIE_BYTE_1);
    out.push(ep.ip2 ^ COOKIE_BYTE_2);
    out.push(ep.ip3 ^ COOKIE_BYTE_3);
    proof {
        assert(tid.bytes@.subrange(0, tid.bytes@.len() as int) =~= tid@);
        assert(out@ =~= spec_binding_response(tid@, ep));
    }
    out
}

/// The declared body length of a message (its third and fourth bytes).
pub open spec fn spec_msg_len(buf: Seq<u8>) -> int {
    be16(buf[2], buf[3])
}

/// Whether a datagram has the shape of a STUN message: at least a full
/// header, the magic cookie in place, and a declared body length that is
/// a multiple of four and fits inside the datagram.  Trailing bytes past
/// the declared length are tolerated and ignored, as a receiver that
/// reads into an oversized buffer must do.
pub open spec fn spec_has_stun_shape(buf: Seq<u8>) -> bool {
    &&& buf.len() >= HEADER_LEN
    &&& buf[4] == COOKIE_BYTE_0
    &&& buf[5] == COOKIE_BYTE_1
    &&& buf[6] == COOKIE_BYTE_2
    &&& buf[7] == COOKIE_BYTE_3
    &&& spec_msg_len(buf) % 4 == 0
    &&& HEADER_LEN + spec_msg_len(buf) <= buf.len()
}

/// An attribute value is padded on the wire to the next multiple of four.
pub open spec fn pad4(n: int) -> int {
    if n % 4 == 0 {
        n
    } else {
        n + (4 - n % 4)
    }
}

/// Whether an attribute region is well formed: attribute after attribute,
/// each a four-byte header and a padded value, consumes it exactly.  A
/// region cut short inside an attribute is not a STUN message at all.
pub open spec fn spec_attrs_ok(attrs: Seq<u8>) -> bool
    decreases attrs.len(),
{
    if attrs.len() == 0 {
        true
    } else if attrs.len() < 4 {
        false
    } else {
        let alen = be16(attrs[2], attrs[3]);
        if attrs.len() < 4 + pad4(alen) {
            false
        } else {
            spec_attrs_ok(attrs.skip(4 + pad4(alen)))
        }
    }
}

/// The value bytes of the first XOR-MAPPED-ADDRESS attribute in an
/// attribute region, or `None` when the region holds none or is cut
/// short inside an attribute.
pub open spec fn spec_find_xma(attrs: Seq<u8>) -> Option<Seq<u8>>
    decreases attrs.len(),
{
    if attrs.len() < 4 {
        None
    } else {
        let alen = be16(attrs[2], attrs[3]);
        if attrs.len() < 4 + alen {
            None
        } else if be16(attrs[0], attrs[1]) == ATTR_XOR_MAPPED_ADDRESS {
            Some(attrs.subrange(4, 4 + alen))
        } else if attrs.len() < 4 + pad4(alen) {
            None
        } else {
            spec_find_xma(attrs.skip(4 + pad4(alen)))
        }
    }
}

/// The endpoint carried by an IPv4 XOR-MAPPED-ADDRESS value: the port
/// un-XORed with the cookie's high half, the octets un-XORed with the
/// cookie bytes.  Any other family or length decodes to nothing.
pub open spec fn spec_decode_xma(v: Seq<u8>) -> Option<Endpoint> {
    if v.len() == 8 && v[1] == FAMILY_IPV4 {
        Some(
            Endpoint {
                ip0: v[4] ^ COOKIE_BYTE_0,
                ip1: v[5] ^ COOKIE_BYTE_1,
                ip2: v[6] ^ COOKIE_BYTE_2,
                ip3: v[7] ^ COOKIE_BYTE_3,
                port: (be16(v[2], v[3]) as u16) ^ COOKIE_HIGH,
            },
        )
    } else {
        None
    }
}

/// The message type of a well-shaped message.
pub open spec fn spec_msg_type(buf: Seq<u8>) -> int {
    be16(buf[0], buf[1])
}

/// The transaction id of a well-shaped message.
pub open spec fn spec_tid(buf: Seq<u8>) -> Seq<u8> {
    buf.subrange(8, 20)
}

/// The attribute region of a well-shaped message: the declared body.
pub open spec fn spec_attr_region(buf: Seq<u8>) -> Seq<u8> {
    buf.subrange(HEADER_LEN as int, HEADER_LEN + spec_msg_len(buf))
}

/// Whether a datagram is a STUN message: a well-shaped header over a
/// well-formed attribute region.  Exactly these datagrams decode; every
/// other datagram is peer data to the multiplexed receiver.
pub open spec fn spec_is_stun(buf: Seq<u8>) -> bool {
    spec_has_stun_shape(buf) && spec_attrs_ok(spec_attr_region(buf))
}

/// The mapped endpoint of a STUN message, if its attribute region
/// carries a decodable XOR-MAPPED-ADDRESS.
pub open spec fn spec_mapped(buf: Seq<u8>) -> Option<Endpoint> {
    match spec_find_xma(spec_attr_region(buf)) {
        Some(v) => spec_decode_xma(v),
        None => None,
    }
}

/// A decoded STUN message: its type, its transaction id, and the mapped
/// endpoint if an IPv4 XOR-MAPPED-ADDRESS attribute was present.
pub struct StunMessage {
    pub msg_type: u16,
    pub tid: TransactionId,
    pub mapped: Option<Endpoint>,
}

/// Checks that an attribute region is well formed.
fn check_attrs(attrs: &Vec<u8>) -> (ok: bool)
    ensures
        ok == spec_attrs_ok(attrs@),
{
    let mut off: usize = 0;
    proof {
        assert(attrs@.skip(0) =~= attrs@);
    }
    loop
        invariant
            off <= attrs@.len(),
            spec_attrs_ok(attrs@) == spec_attrs_ok(attrs@.skip(off as int)),
        decreases attrs@.len() - off,
    {
        let ghost rest: Seq<u8> = attrs@.skip(off as int);
        if attrs.len() - off == 0 {
            return true;
        }
        if attrs.len() - off < 4 {
            return false;
        }
        let alen_field: u16 = be16_join(attrs[off + 2], attrs[off + 3]);
        let alen: usize = alen_field as usize;
        proof {
            assert(rest[2] == attrs@[off + 2]);
            assert(rest[3] == attrs@[off + 3]);
        }
        let rem: usize = alen % 4;
        let padded: usize = if rem == 0 {
            alen
        } else {
            alen + (4 - rem)
        };
        if attrs.len() - off - 4 < padded {
            return false;
        }
        proof {
            assert(padded as int == pad4(alen as int));
            assert(rest.skip(4 + pad4(alen as int)) =~= attrs@.skip(
                off as int + 4 + padded as int,
            ));
        }
        off = off + 4 + padded;
    }
}

/// Scans an attribute region for the first XOR-MAPPED-ADDRESS and decodes
/// its value.
fn find_mapped(attrs: &Vec<u8>) -> (r: Option<Endpoint>)
    ensures
        r == match spec_find_xma(attrs@) {
            Some(v) => spec_decode_xma(v),
            None => None,
        },
{
    let mut off: usize = 0;
    proof {
        assert(attrs@.skip(0) =~= attrs@);
    }
    loop
        invariant
            off <= attrs@.len(),
            spec_find_xma(attrs@) == spec_find_xma(attrs@.skip(off as int)),
        decreases attrs@.len() - off,
    {
        let ghost rest: Seq<u8> = attrs@.skip(off as int);
        if attrs.len() - off < 4 {
            return None;
        }
        let alen_field: u16 = be16_join(attrs[off + 2], attrs[off + 3]);
        let alen: usize = alen_field as usize;
        proof {
            assert(rest[2] == attrs@[off + 2]);
            assert(rest[3] == attrs@[off + 3]);
            assert(rest[0] == attrs@[off as int]);
            assert(rest[1] == attrs@[off + 1]);
        }
        if attrs.len() - off - 4 < alen {
            return None;
        }
        let atype: u16 = be16_join(attrs[off], attrs[off + 1]);
        if atype == ATTR_XOR_MAPPED_ADDRESS {
            let value = copy_range(attrs, off + 4, off + 4 + alen);
            proof {
                assert(value@ =~= rest.subrange(4, 4 + alen as int));
                assert(spec_find_xma(rest) == Some(value@));
            }
            if value.len() == 8 && value[1] == FAMILY_IPV4 {
                let port_raw: u16 = be16_join(value[2], value[3]);
                let ep = Endpoint {
                    ip0: value[4] ^ COOKIE_BYTE_0,
                    ip1: value[5] ^ COOKIE_BYTE_1,
                    ip2: value[6] ^ COOKIE_BYTE_2,
                    ip3: value[7] ^ COOKIE_BYTE_3,
                    port: port_raw ^ COOKIE_HIGH,
                };
                return Some(ep);
            } else {
                return None;
            }
        }
        let rem: usize = alen % 4;
        let padded: usize = if rem == 0 {
            alen
        } else {
            alen + (4 - rem)
        };
        if attrs.len() - off - 4 < padded {
            return None;
        }
        proof {
            assert(padded as int == pad4(alen as int));
            assert(rest.skip(4 + pad4(alen as int)) =~= attrs@.skip(
                off as int + 4 + padded as int,
            ));
        }
        off = off + 4 + padded;
    }
}

/// Decodes a datagram as a STUN message, or reports that it is none.
/// Exactly the STUN datagrams decode; the decoded fields are the ones
/// the wire-format spec functions read off the bytes.
pub fn parse_stun(buf: &Vec<u8>) -> (r: Option<StunMessage>)
    ensures
        r is Some <==> spec_is_stun(buf@),
        r matches Some(m) ==> {
            &&& m.msg_type as int == spec_msg_type(buf@)
            &&& m.tid.wf()
            &&& m.tid@ == spec_tid(buf@)
            &&& m.mapped == spec_mapped(buf@)
        },
{
    if buf.len() < HEADER_LEN {
        return None;
    }
    if !(buf[4] == COOKIE_BYTE_0 && buf[5] == COOKIE_BYTE_1 && buf[6] == COOKIE_BYTE_2 && buf[7]
        == COOKIE_BYTE_3) {
        return None;
    }
    let mlen_field: u16 = be16_join(buf[2], buf[3]);
    let mlen: usize = mlen_field as usize;
    if mlen % 4 != 0 {
        return None;
    }
    if mlen > buf.len() - HEADER_LEN {
        return None;
    }
    let msg_type: u16 = be16_join(buf[0], buf[1]);
    let tid_bytes = copy_range(buf, 8, HEADER_LEN);
    let attrs = copy_range(buf, HEADER_LEN, HEADER_LEN + mlen);
    proof {
        assert(attrs@ =~= spec_attr_region(buf@));
    }
    if !check_attrs(&attrs) {
        return None;
    }
    let mapped = find_mapped(&attrs);
    Some(StunMessage { msg_type, tid: TransactionId { bytes: tid_bytes }, mapped })
}

/// Law: a self-built binding request decodes back to the transaction id
/// it was built with — the message is well shaped, is a binding request,
/// carries exactly the given id, and maps no address.
pub proof fn lemma_request_round_trip(tid: Seq<u8>)
    requires
        tid.len() == TRANSACTION_ID_LEN,
    ensures
        spec_is_stun(spec_binding_request(tid)),
        spec_msg_type(spec_binding_request(tid)) == BINDING_REQUEST,
        spec_tid(spec_binding_request(tid)) == tid,
        spec_mapped(spec_binding_request(tid)) is None,
{
    let b = spec_binding_request(tid);
    assert(b.len() == 20);
    assert(spec_msg_len(b) == 0);
    assert(spec_tid(b) =~= tid);
    assert(b.subrange(20, 20) =~= Seq::<u8>::empty());
    assert(spec_attrs_ok(Seq::<u8>::empty()));
    assert(spec_find_xma(Seq::<u8>::empty()) is None);
}

/// Law: a binding response built for an endpoint decodes back to exactly
/// that endpoint, under the same transaction id.
pub proof fn lemma_response_round_trip(tid: Seq<u8>, ep: Endpoint)
    requires
        tid.len() == TRANSACTION_ID_LEN,
    ensures
        spec_is_stun(spec_binding_response(tid, ep)),
        spec_msg_type(spec_binding_response(tid, ep)) == BINDING_RESPONSE,
        spec_tid(spec_binding_response(tid, ep)) == tid,
        spec_mapped(spec_binding_response(tid, ep)) == Some(ep),
{
    let b = spec_binding_response(tid, ep);
    assert(b.len() == 32);
    assert(spec_msg_len(b) == 12);
    assert(spec_tid(b) =~= tid);
    let attrs = b.subrange(20, 32);
    assert(attrs =~= spec_attr_region(b));
    let px = spec_xor_port(ep.port);
    assert(attrs[0] == 0x00u8 && attrs[1] == 0x20u8 && attrs[2] == 0x00u8 && attrs[3] == 0x08u8);
    assert(be16(attrs[0], attrs[1]) == ATTR_XOR_MAPPED_ADDRESS);
    assert(be16(attrs[2], attrs[3]) == 8);
    assert(attrs.skip(12) =~= Seq::<u8>::empty());
    assert(pad4(8) == 8);
    assert(spec_attrs_ok(Seq::<u8>::empty()));
    assert(spec_attrs_ok(attrs));
    let v = attrs.subrange(4, 12);
    assert(spec_find_xma(attrs) == Some(v));
    assert(v.len() == 8);
    assert(v[0] == 0x00u8 && v[1] == FAMILY_IPV4);
    assert(v[2] == (px as int / 256) as u8 && v[3] == (px as int % 256) as u8);
    assert(0 <= px as int / 256 <= 255) by (nonlinear_arith);
    assert(be16(v[2], v[3]) == px as int);
    assert((be16(v[2], v[3]) as u16) == px);
    let p = ep.port;
    let i0 = ep.ip0;
    let i1 = ep.ip1;
    let i2 = ep.ip2;
    let i3 = ep.ip3;
    assert((px ^ 0x2112u16) == p) by (bit_vector)
        requires
            px == p ^ 0x2112u16,
    ;
    assert(((i0 ^ 0x21u8) ^ 0x21u8) == i0) by (bit_vector);
    assert(((i1 ^ 0x12u8) ^ 0x12u8) == i1) by (bit_vector);
    assert(((i2 ^ 0xa4u8) ^ 0xa4u8) == i2) by (bit_vector);
    assert(((i3 ^ 0x42u8) ^ 0x42u8) == i3) by (bit_vector);
    assert(v[4] == (ep.ip0 ^ COOKIE_BYTE_0) && v[5] == (ep.ip1 ^ COOKIE_BYTE_1) && v[6] == (
    ep.ip2 ^ COOKIE_BYTE_2) && v[7] == (ep.ip3 ^ COOKIE_BYTE_3));
    assert(spec_decode_xma(v) == Some(ep));
}

} // verus!
