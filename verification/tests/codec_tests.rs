use nat_punch::codec::{
    encode_binding_request, encode_binding_response, parse_stun, TransactionId, BINDING_REQUEST,
    BINDING_RESPONSE,
};
use nat_punch::endpoint::Endpoint;

fn tid_from(bytes: [u8; 12]) -> TransactionId {
    TransactionId::new(bytes.to_vec())
}

#[test]
fn request_round_trip_keeps_transaction_id() {
    let tid_bytes: [u8; 12] = [1, 2, 3, 4, 5, 6, 7, 8, 9, 10, 11, 12];
    let wire = encode_binding_request(&tid_from(tid_bytes));
    let msg = parse_stun(&wire).expect("a self-built request must parse");
    assert_eq!(msg.msg_type, BINDING_REQUEST);
    assert_eq!(msg.tid.bytes, tid_bytes.to_vec());
    assert!(msg.mapped.is_none());
}

#[test]
fn request_wire_bytes_are_exact() {
    let wire = encode_binding_request(&tid_from([0; 12]));
    let mut expected = vec![0x00, 0x01, 0x00, 0x00, 0x21, 0x12, 0xa4, 0x42];
    expected.extend_from_slice(&[0; 12]);
    assert_eq!(wire, expected);
}

#[test]
fn response_round_trip_keeps_endpoint() {
    let tid_bytes: [u8; 12] = [0xaa; 12];
    let ep = Endpoint::new(203, 0, 113, 7, 40000);
    let wire = encode_binding_response(&tid_from(tid_bytes), ep);
    let msg = parse_stun(&wire).expect("a self-built response must parse");
    assert_eq!(msg.msg_type, BINDING_RESPONSE);
    assert_eq!(msg.tid.bytes, tid_bytes.to_vec());
    assert_eq!(msg.mapped, Some(ep));
}

#[test]
fn reference_response_decodes_to_known_address() {
    // Binding response carrying 192.0.2.1:32853 as an IPv4
    // XOR-MAPPED-ADDRESS: the port on the wire is 32853 XOR 0x2112 =
    // 0xa147, the octets are XORed with the cookie bytes.
    let mut wire = vec![0x01, 0x01, 0x00, 0x0c, 0x21, 0x12, 0xa4, 0x42];
    wire.extend_from_slice(&[0xb7; 12]);
    wire.extend_from_slice(&[0x00, 0x20, 0x00, 0x08]);
    wire.extend_from_slice(&[
        0x00,
        0x01,
        0xa1,
        0x47,
        192 ^ 0x21,
        0 ^ 0x12,
        2 ^ 0xa4,
        1 ^ 0x42,
    ]);
    let msg = parse_stun(&wire).expect("the reference response must parse");
    let ep = msg.mapped.expect("the reference response maps an address");
    assert_eq!(ep.ip0, 192);
    assert_eq!(ep.ip1, 0);
    assert_eq!(ep.ip2, 2);
    assert_eq!(ep.ip3, 1);
    assert_eq!(ep.port, 32853);
}

#[test]
fn trailing_bytes_are_tolerated() {
    // A receiver that reads into an oversized buffer hands the decoder
    // the whole buffer; the declared length governs.
    let ep = Endpoint::new(198, 51, 100, 2, 3478);
    let mut wire = encode_binding_response(&tid_from([3; 12]), ep);
    wire.resize(1024, 0);
    let msg = parse_stun(&wire).expect("padding after the message is ignored");
    assert_eq!(msg.mapped, Some(ep));
}

#[test]
fn unknown_attributes_are_skipped() {
    // SOFTWARE (0x8022) with a 5-byte value padded to 8, then the
    // XOR-MAPPED-ADDRESS; the scan must step over the first attribute.
    let mut wire = vec![0x01, 0x01, 0x00, 0x18, 0x21, 0x12, 0xa4, 0x42];
    wire.extend_from_slice(&[0x01; 12]);
    wire.extend_from_slice(&[0x80, 0x22, 0x00, 0x05]);
    wire.extend_from_slice(&[b'h', b'e', b'l', b'l', b'o', 0x00, 0x00, 0x00]);
    wire.extend_from_slice(&[0x00, 0x20, 0x00, 0x08]);
    wire.extend_from_slice(&[0x00, 0x01, 0xa1, 0x47, 0xe1, 0x12, 0xa6, 0x43]);
    let msg = parse_stun(&wire).expect("the padded attribute list must parse");
    assert_eq!(msg.mapped, Some(Endpoint::new(192, 0, 2, 1, 32853)));
}

#[test]
fn wrong_cookie_is_not_stun() {
    let mut wire = encode_binding_request(&tid_from([9; 12]));
    wire[4] = 0x22;
    assert!(parse_stun(&wire).is_none());
}

#[test]
fn short_datagram_is_not_stun() {
    assert!(parse_stun(&vec![0x00, 0x01, 0x00, 0x00]).is_none());
}

#[test]
fn declared_length_beyond_datagram_is_not_stun() {
    // Header alone but a declared body of 12 bytes that is not there.
    let mut wire = vec![0x01, 0x01, 0x00, 0x0c, 0x21, 0x12, 0xa4, 0x42];
    wire.extend_from_slice(&[0x00; 12]);
    assert!(parse_stun(&wire).is_none());
}

#[test]
fn unaligned_declared_length_is_not_stun() {
    let mut wire = vec![0x01, 0x01, 0x00, 0x03, 0x21, 0x12, 0xa4, 0x42];
    wire.extend_from_slice(&[0x00; 15]);
    assert!(parse_stun(&wire).is_none());
}

#[test]
fn truncated_attribute_is_not_stun() {
    // The header is fine, but the attribute declares more value bytes
    // than the body holds: the whole message is refused, so the
    // multiplexed receiver will treat the datagram as peer data.
    let mut wire = vec![0x01, 0x01, 0x00, 0x04, 0x21, 0x12, 0xa4, 0x42];
    wire.extend_from_slice(&[0x02; 12]);
    wire.extend_from_slice(&[0x00, 0x20, 0x00, 0x08]);
    assert!(parse_stun(&wire).is_none());
}

#[test]
fn stun_without_mapped_address_parses_but_maps_nothing() {
    // A well-formed message whose only attribute is SOFTWARE.
    let mut wire = vec![0x01, 0x01, 0x00, 0x0c, 0x21, 0x12, 0xa4, 0x42];
    wire.extend_from_slice(&[0x05; 12]);
    wire.extend_from_slice(&[0x80, 0x22, 0x00, 0x05]);
    wire.extend_from_slice(&[b'h', b'e', b'l', b'l', b'o', 0x00, 0x00, 0x00]);
    let msg = parse_stun(&wire).expect("a mapping-free message still parses");
    assert!(msg.mapped.is_none());
}

#[test]
fn ipv6_family_yields_no_mapping() {
    let mut wire = vec![0x01, 0x01, 0x00, 0x0c, 0x21, 0x12, 0xa4, 0x42];
    wire.extend_from_slice(&[0x04; 12]);
    wire.extend_from_slice(&[0x00, 0x20, 0x00, 0x08]);
    wire.extend_from_slice(&[0x00, 0x02, 0xa1, 0x47, 0xe1, 0x12, 0xa6, 0x43]);
    let msg = parse_stun(&wire).expect("the shape is still a STUN message");
    assert!(msg.mapped.is_none());
}
