use p2p_solana_handshake::solana::domain::{
    HandshakeRequest, HandshakeResponse, Pubkey, SocketAddr,
};
use p2p_solana_handshake::solana::domain::SolanaNodeError;
use p2p_solana_handshake::solana::wire::{
    decode_request, decode_response, encode_request, encode_response,
};
use p2p_solana_handshake::GossipNode;

fn test_pubkey(seed: u8) -> Pubkey {
    Pubkey::from_bytes(vec![seed; 32]).unwrap()
}

fn sample_request() -> HandshakeRequest {
    HandshakeRequest {
        node_pubkey: test_pubkey(42),
        protocol_version: "1.18.0".to_string(),
        timestamp: 1_700_000_000,
        network_id: "localnet".to_string(),
        capabilities: vec!["gossip".to_string(), "handshake".to_string()],
    }
}

fn sample_response() -> HandshakeResponse {
    HandshakeResponse {
        peer_pubkey: test_pubkey(7),
        protocol_version: "1.18.0".to_string(),
        network_id: "localnet".to_string(),
        gossip_addr: SocketAddr::V4 {
            a: 127,
            b: 0,
            c: 0,
            d: 1,
            port: 8001,
        },
        capabilities: vec!["gossip".to_string()],
        timestamp: 1_700_000_005,
        success: true,
        error_message: None,
    }
}

#[test]
fn test_handshake_request_serialization() {
    let request = sample_request();

    let serialized = encode_request(&request).unwrap();
    let deserialized: HandshakeRequest = decode_request(&serialized).unwrap();

    assert_eq!(request.node_pubkey, deserialized.node_pubkey);
    assert_eq!(request.protocol_version, deserialized.protocol_version);
    assert_eq!(request.network_id, deserialized.network_id);
    assert_eq!(request.capabilities, deserialized.capabilities);
    assert_eq!(request.timestamp, deserialized.timestamp);
}

#[test]
fn test_handshake_response_serialization() {
    let response = sample_response();

    let serialized = encode_response(&response).unwrap();
    let deserialized: HandshakeResponse = decode_response(&serialized).unwrap();

    assert_eq!(response.peer_pubkey, deserialized.peer_pubkey);
    assert_eq!(response.protocol_version, deserialized.protocol_version);
    assert_eq!(response.network_id, deserialized.network_id);
    assert_eq!(response.gossip_addr, deserialized.gossip_addr);
    assert_eq!(response.capabilities, deserialized.capabilities);
    assert_eq!(response.timestamp, deserialized.timestamp);
    assert_eq!(response.success, deserialized.success);
    assert_eq!(response.error_message, deserialized.error_message);
}

#[test]
fn test_response_round_trip_v6_failure_message() {
    let response = HandshakeResponse {
        peer_pubkey: test_pubkey(8),
        protocol_version: "1.18.0".to_string(),
        network_id: "testnet".to_string(),
        gossip_addr: SocketAddr::V6 {
            s0: 0x2001,
            s1: 0x0db8,
            s2: 0,
            s3: 0,
            s4: 0,
            s5: 0,
            s6: 0,
            s7: 1,
            port: 9000,
        },
        capabilities: vec![],
        timestamp: 12,
        success: false,
        error_message: Some("Network ID mismatch: expected testnet, got localnet".to_string()),
    };

    let serialized = encode_response(&response).unwrap();
    let deserialized = decode_response(&serialized).unwrap();

    assert_eq!(response.gossip_addr, deserialized.gossip_addr);
    assert_eq!(response.success, deserialized.success);
    assert_eq!(response.error_message, deserialized.error_message);
}

/// The request layout agrees with the binary layout that derived
/// serialization of the same fields produces: raw 32-byte identity,
/// length-prefixed strings, little-endian integers, counted lists.
#[test]
fn test_request_bytes_match_derived_layout() {
    let request = sample_request();
    let mine = encode_request(&request).unwrap();

    let fields: ([u8; 32], String, u64, String, Vec<String>) = (
        [42u8; 32],
        "1.18.0".to_string(),
        1_700_000_000,
        "localnet".to_string(),
        vec!["gossip".to_string(), "handshake".to_string()],
    );
    let reference = borsh::to_vec(&fields).unwrap();

    assert_eq!(mine, reference);
}

/// Decoding the reference layout produced by derived serialization
/// yields the same field values back.
#[test]
fn test_request_decodes_from_derived_layout() {
    let fields: ([u8; 32], String, u64, String, Vec<String>) = (
        [9u8; 32],
        "2.0.1".to_string(),
        77,
        "devnet".to_string(),
        vec!["gossip".to_string()],
    );
    let reference = borsh::to_vec(&fields).unwrap();

    let decoded = decode_request(&reference).unwrap();
    assert_eq!(decoded.node_pubkey.as_bytes().as_slice(), &[9u8; 32]);
    assert_eq!(decoded.protocol_version, "2.0.1");
    assert_eq!(decoded.timestamp, 77);
    assert_eq!(decoded.network_id, "devnet");
    assert_eq!(decoded.capabilities, vec!["gossip".to_string()]);
}

#[test]
fn test_response_exact_bytes() {
    let response = HandshakeResponse {
        peer_pubkey: test_pubkey(1),
        protocol_version: "1".to_string(),
        network_id: "ab".to_string(),
        gossip_addr: SocketAddr::V4 {
            a: 10,
            b: 0,
            c: 0,
            d: 2,
            port: 0x1234,
        },
        capabilities: vec!["x".to_string()],
        timestamp: 5,
        success: true,
        error_message: None,
    };

    let mut expected: Vec<u8> = Vec::new();
    expected.extend_from_slice(&[1u8; 32]); // identity
    expected.extend_from_slice(&1u32.to_le_bytes()); // version length
    expected.extend_from_slice(b"1");
    expected.extend_from_slice(&2u32.to_le_bytes()); // network id length
    expected.extend_from_slice(b"ab");
    expected.push(0); // address tag: IPv4
    expected.extend_from_slice(&[10, 0, 0, 2]); // octets
    expected.extend_from_slice(&0x1234u16.to_le_bytes()); // port
    expected.extend_from_slice(&1u32.to_le_bytes()); // capability count
    expected.extend_from_slice(&1u32.to_le_bytes()); // capability length
    expected.extend_from_slice(b"x");
    expected.extend_from_slice(&5u64.to_le_bytes()); // timestamp
    expected.push(1); // success
    expected.push(0); // no error message

    assert_eq!(encode_response(&response).unwrap(), expected);
}

#[test]
fn test_decode_rejects_malformed_packets() {
    // Too short for an identity.
    assert!(decode_request(&[0u8; 31]).is_none());
    assert!(decode_response(&[]).is_none());

    let ok = encode_request(&sample_request()).unwrap();

    // Truncation anywhere breaks the decode.
    assert!(decode_request(&ok[..ok.len() - 1]).is_none());
    assert!(decode_request(&ok[..40]).is_none());

    // Trailing bytes are refused: a packet must decode whole.
    let mut padded = ok.clone();
    padded.push(0);
    assert!(decode_request(&padded).is_none());

    // A string length prefix pointing past the end is refused.
    let mut bad_len = ok.clone();
    bad_len[32] = 0xff;
    bad_len[33] = 0xff;
    assert!(decode_request(&bad_len).is_none());

    // Invalid UTF-8 in a string is refused.
    let mut bad_utf8 = ok.clone();
    bad_utf8[36] = 0xff; // first byte of the protocol version
    assert!(decode_request(&bad_utf8).is_none());
}

#[test]
fn test_decode_response_rejects_bad_tags() {
    let ok = encode_response(&sample_response()).unwrap();

    // The success flag must be 0 or 1.
    let mut bad_bool = ok.clone();
    let flag_pos = ok.len() - 2;
    assert_eq!(ok[flag_pos], 1);
    bad_bool[flag_pos] = 2;
    assert!(decode_response(&bad_bool).is_none());

    // The option tag must be 0 or 1.
    let mut bad_opt = ok.clone();
    let opt_pos = ok.len() - 1;
    assert_eq!(ok[opt_pos], 0);
    bad_opt[opt_pos] = 7;
    assert!(decode_response(&bad_opt).is_none());

    // The address tag must be 0 or 1.
    let mut bad_addr = ok.clone();
    let addr_tag_pos = 32 + 4 + 6 + 4 + 8; // identity, version, network id
    assert_eq!(ok[addr_tag_pos], 0);
    bad_addr[addr_tag_pos] = 9;
    assert!(decode_response(&bad_addr).is_none());
}

#[test]
fn test_encode_enforces_size_at_send_time() {
    let node = GossipNode::new(
        SocketAddr::V4 {
            a: 127,
            b: 0,
            c: 0,
            d: 1,
            port: 8000,
        },
        test_pubkey(3),
        "localnet".to_string(),
    );

    // An ordinary request fits.
    assert!(node.frame_request(&sample_request()).is_ok());

    // A request padded past the packet ceiling fails fast with the
    // explicit too-large error instead of being sent.
    let mut big = sample_request();
    big.capabilities = vec!["c".repeat(2000)];
    let encoded_len = p2p_solana_handshake::solana::wire::encode_request(&big)
        .unwrap()
        .len();
    match node.frame_request(&big) {
        Err(SolanaNodeError::InvalidPeerData { reason }) => {
            assert_eq!(reason, format!("Request too large: {} bytes", encoded_len));
        }
        other => panic!("expected the too-large error, got: {:?}", other),
    }
}
