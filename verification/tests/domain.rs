use p2p_solana_handshake::solana::domain::{
    ConnectionStatus, GossipNodeInfo, HandshakeRequest, HandshakeResponse, Pubkey, SocketAddr,
    SolanaNodeError,
};
use std::time::{SystemTime, UNIX_EPOCH};

fn test_pubkey(seed: u8) -> Pubkey {
    Pubkey::from_bytes(vec![seed; 32]).unwrap()
}

fn local_addr_8001() -> SocketAddr {
    SocketAddr::V4 {
        a: 127,
        b: 0,
        c: 0,
        d: 1,
        port: 8001,
    }
}

fn now_secs() -> u64 {
    SystemTime::now()
        .duration_since(UNIX_EPOCH)
        .unwrap()
        .as_secs()
}

#[test]
fn test_handshake_request_new_local() {
    let pubkey = test_pubkey(1);
    let request = HandshakeRequest::new_local(pubkey.clone());

    assert_eq!(request.node_pubkey, pubkey);
    assert_eq!(request.protocol_version, "1.18.0");
    assert_eq!(request.network_id, "localnet");
    assert!(request.capabilities.contains(&"gossip".to_string()));
    assert!(request.capabilities.contains(&"handshake".to_string()));

    // Verify a timestamp is recent (within last minute)
    let current_time = now_secs();
    assert!(current_time.saturating_sub(request.timestamp) < 60);
}

#[test]
fn test_handshake_request_new_testnet() {
    let pubkey = test_pubkey(2);
    let request = HandshakeRequest::new_testnet(pubkey.clone());

    assert_eq!(request.node_pubkey, pubkey);
    assert_eq!(request.network_id, "testnet");
    assert_eq!(request.protocol_version, "1.18.0");
}

#[test]
fn test_handshake_request_new_mainnet() {
    let pubkey = test_pubkey(3);
    let request = HandshakeRequest::new_mainnet(pubkey.clone());

    assert_eq!(request.node_pubkey, pubkey);
    assert_eq!(request.network_id, "mainnet-beta");
    assert_eq!(request.protocol_version, "1.18.0");
}

fn fresh_response(network_id: &str, success: bool, error_message: Option<String>) -> HandshakeResponse {
    HandshakeResponse {
        peer_pubkey: test_pubkey(4),
        protocol_version: "1.18.0".to_string(),
        network_id: network_id.to_string(),
        gossip_addr: local_addr_8001(),
        capabilities: vec!["gossip".to_string()],
        timestamp: now_secs(),
        success,
        error_message,
    }
}

#[test]
fn test_handshake_response_verify_success() {
    let response = fresh_response("localnet", true, None);
    assert!(response.verify("localnet").is_ok());
}

#[test]
fn test_handshake_response_verify_failure() {
    let response = fresh_response("localnet", false, Some("Test error".to_string()));

    let result = response.verify("localnet");
    assert!(result.is_err());
    assert!(matches!(
        result,
        Err(SolanaNodeError::HandshakeError { .. })
    ));
}

#[test]
fn test_handshake_response_verify_network_mismatch() {
    let response = fresh_response("testnet", true, None);

    let result = response.verify("localnet");
    assert!(result.is_err());
    assert!(matches!(
        result,
        Err(SolanaNodeError::ProtocolVersionMismatch { .. })
    ));
}

#[test]
fn test_handshake_response_verify_old_timestamp() {
    let old_timestamp = now_secs() - 400; // 400 seconds ago (over 5 minutes)

    let mut response = fresh_response("localnet", true, None);
    response.timestamp = old_timestamp;

    let result = response.verify("localnet");
    assert!(result.is_err());
    assert!(matches!(
        result,
        Err(SolanaNodeError::InvalidPeerData { .. })
    ));
}

#[test]
fn test_handshake_response_verify_staleness_boundary() {
    let now = now_secs();

    // Exactly 300 seconds old: still accepted (the boundary is inclusive).
    let mut response = fresh_response("localnet", true, None);
    response.timestamp = now - 300;
    assert!(response.verify_at("localnet", now).is_ok());

    // Exactly 301 seconds old: rejected as stale.
    response.timestamp = now - 301;
    let result = response.verify_at("localnet", now);
    assert!(matches!(
        result,
        Err(SolanaNodeError::InvalidPeerData { .. })
    ));

    // A timestamp in the future is not stale (the age clamps at zero).
    response.timestamp = now + 100;
    assert!(response.verify_at("localnet", now).is_ok());
}

#[test]
fn test_handshake_response_verify_priority() {
    // All three checks fail at once: the success flag wins.
    let now = now_secs();
    let mut response = fresh_response("testnet", false, Some("boom".to_string()));
    response.timestamp = now - 400;

    let result = response.verify_at("localnet", now);
    match result {
        Err(SolanaNodeError::HandshakeError { message }) => assert_eq!(message, "boom"),
        other => panic!("expected the failed-handshake error, got: {:?}", other),
    }

    // Without a message, the placeholder text is reported.
    let response = fresh_response("testnet", false, None);
    match response.verify_at("localnet", now) {
        Err(SolanaNodeError::HandshakeError { message }) => {
            assert_eq!(message, "Unknown handshake failure")
        }
        other => panic!("expected the failed-handshake error, got: {:?}", other),
    }
}

#[test]
fn test_gossip_node_info_from_handshake_response() {
    let response = HandshakeResponse {
        peer_pubkey: test_pubkey(5),
        protocol_version: "1.18.0".to_string(),
        network_id: "localnet".to_string(),
        gossip_addr: local_addr_8001(),
        capabilities: vec!["gossip".to_string(), "handshake".to_string()],
        timestamp: now_secs(),
        success: true,
        error_message: None,
    };

    let peer_info = GossipNodeInfo::from_handshake_response(response.clone());

    assert_eq!(peer_info.peer_pubkey, response.peer_pubkey);
    assert_eq!(peer_info.gossip_addr, response.gossip_addr);
    assert_eq!(peer_info.protocol_version, response.protocol_version);
    assert_eq!(peer_info.network_id, response.network_id);
    assert_eq!(peer_info.capabilities, response.capabilities);
    assert_eq!(peer_info.last_seen, response.timestamp);
    assert!(matches!(
        peer_info.connection_status,
        ConnectionStatus::Connected
    ));
}

#[test]
fn test_connection_status_variants() {
    let connected = ConnectionStatus::Connected;
    let connecting = ConnectionStatus::Connecting;
    let disconnected = ConnectionStatus::Disconnected;
    let verification_failed = ConnectionStatus::VerificationFailed;

    let connected_back = connected;
    assert!(matches!(connected_back, ConnectionStatus::Connected));

    // Ensure all variants exist
    assert!(matches!(connecting, ConnectionStatus::Connecting));
    assert!(matches!(disconnected, ConnectionStatus::Disconnected));
    assert!(matches!(
        verification_failed,
        ConnectionStatus::VerificationFailed
    ));
}

#[test]
fn test_error_display_formatting() {
    let network_error = SolanaNodeError::NetworkError {
        message: "Connection refused".to_string(),
    };
    let error_str = network_error.message();
    assert!(error_str.contains("Network connection failed"));

    let handshake_error = SolanaNodeError::HandshakeError {
        message: "Invalid signature".to_string(),
    };
    let error_str = handshake_error.message();
    assert!(error_str.contains("Invalid signature"));

    let protocol_mismatch = SolanaNodeError::ProtocolVersionMismatch {
        expected: "localnet".to_string(),
        received: "testnet".to_string(),
    };
    let error_str = protocol_mismatch.message();
    assert!(error_str.contains("localnet"));
    assert!(error_str.contains("testnet"));
}

#[test]
fn test_error_retryability() {
    assert!(SolanaNodeError::TimeoutError.is_retryable());
    assert!(SolanaNodeError::NetworkError {
        message: "down".to_string()
    }
    .is_retryable());
    assert!(SolanaNodeError::HandshakeError {
        message: "no".to_string()
    }
    .is_retryable());
    assert!(SolanaNodeError::InvalidPeerData {
        reason: "garbage".to_string()
    }
    .is_retryable());
    assert!(SolanaNodeError::SerializationFailed("oops".to_string()).is_retryable());
    assert!(SolanaNodeError::PeerVerificationFailed {
        peer_addr: local_addr_8001()
    }
    .is_retryable());
    assert!(!SolanaNodeError::ProtocolVersionMismatch {
        expected: "localnet".to_string(),
        received: "testnet".to_string(),
    }
    .is_retryable());
}

#[test]
fn test_error_message_texts() {
    assert_eq!(
        SolanaNodeError::TimeoutError.message(),
        "Timeout occurred during operation"
    );
    assert_eq!(
        SolanaNodeError::SerializationFailed("bad".to_string()).message(),
        "Serialization failed: bad"
    );
    assert_eq!(
        SolanaNodeError::InvalidPeerData {
            reason: "stale".to_string()
        }
        .message(),
        "Invalid peer data received: stale"
    );
    assert_eq!(
        SolanaNodeError::PeerVerificationFailed {
            peer_addr: local_addr_8001()
        }
        .message(),
        "Peer verification failed"
    );
}

#[test]
fn test_pubkey_from_bytes() {
    assert!(Pubkey::from_bytes(vec![0; 32]).is_some());
    assert!(Pubkey::from_bytes(vec![0; 31]).is_none());
    assert!(Pubkey::from_bytes(vec![0; 33]).is_none());
    assert!(Pubkey::from_bytes(Vec::new()).is_none());

    let pk = Pubkey::from_bytes((0u8..32).collect()).unwrap();
    assert_eq!(pk.as_bytes().len(), 32);
    assert_eq!(pk.as_bytes()[7], 7);
    assert_eq!(pk, pk.clone());
    assert_ne!(pk, test_pubkey(9));
}
