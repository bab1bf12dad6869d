use p2p_solana_handshake::solana::domain::{
    ConnectionStatus, GossipNodeInfo, Pubkey, SocketAddr, SolanaNodeError,
};
use p2p_solana_handshake::solana::handshake_client::{
    BatchHandshakes, ClientAction, ClientEvent, ExchangePhase, HandshakeClient,
};
use p2p_solana_handshake::solana::domain::HandshakeResponse;
use p2p_solana_handshake::solana::wire::{decode_request, decode_response, encode_response};
use p2p_solana_handshake::GossipNode;

fn test_pubkey(seed: u8) -> Pubkey {
    Pubkey::from_bytes(vec![seed; 32]).unwrap()
}

fn addr(d: u8, port: u16) -> SocketAddr {
    SocketAddr::V4 {
        a: 127,
        b: 0,
        c: 0,
        d,
        port,
    }
}

const NOW: u64 = 1_700_000_000;

/// One full exchange against a live listener on the same network, with
/// the datagrams carried by hand: the client ends in success on the
/// first attempt and the listener registers the client's observed
/// address.
#[test]
fn test_successful_handshake_localnet() {
    let mut listener = GossipNode::new(addr(1, 8000), test_pubkey(1), "localnet".to_string());
    let client = HandshakeClient::with_config(test_pubkey(2), "localnet".to_string(), 100, 2);
    let client_addr = addr(9, 5555);

    let (mut exchange, action) = client.start_exchange(NOW);
    let payload = match action {
        ClientAction::SendRequest { payload } => payload,
        other => panic!("expected a send, got: {:?}", other),
    };

    // The listener answers the request and registers the sender.
    let reply = listener
        .handle_datagram(&payload, client_addr, NOW)
        .expect("a request on the listener's own network is answered");

    match client.step(&mut exchange, ClientEvent::SendCompleted) {
        ClientAction::AwaitResponse { timeout_ms } => assert_eq!(timeout_ms, 100),
        other => panic!("expected to await a reply, got: {:?}", other),
    }

    let action = client.step(
        &mut exchange,
        ClientEvent::Received {
            data: reply,
            now: NOW,
        },
    );
    match action {
        ClientAction::Succeed { peer } => {
            assert_eq!(peer.network_id, "localnet");
            assert_eq!(peer.gossip_addr, addr(1, 8000));
            assert!(matches!(peer.connection_status, ConnectionStatus::Connected));
        }
        other => panic!("Handshake should succeed: {:?}", other),
    }
    assert_eq!(exchange.phase(), ExchangePhase::Finished);

    // The listener keyed the peer by the observed source address.
    let registered = listener.get_peer_info(&client_addr).unwrap();
    assert_eq!(registered.peer_pubkey, test_pubkey(2));
    assert_eq!(registered.network_id, "localnet");
}

/// A listener on another network answers with a failure response whose
/// message names both ids; the client reports the semantic rejection.
#[test]
fn test_handshake_network_mismatch() {
    let mut listener = GossipNode::new(addr(1, 8000), test_pubkey(1), "testnet".to_string());
    let client = HandshakeClient::with_config(test_pubkey(2), "localnet".to_string(), 100, 2);

    let (mut exchange, action) = client.start_exchange(NOW);
    let payload = match action {
        ClientAction::SendRequest { payload } => payload,
        other => panic!("expected a send, got: {:?}", other),
    };

    // The semantic rejection is retryable: drive the machine through
    // its whole attempt budget, answering each send from the listener.
    let mut payload = payload;
    let error = loop {
        let reply = listener
            .handle_datagram(&payload, addr(9, 5555), NOW)
            .expect("a mismatched request is still answered");

        // The mismatch earns no registry entry.
        assert!(listener.get_peers().is_empty());

        client.step(&mut exchange, ClientEvent::SendCompleted);
        match client.step(
            &mut exchange,
            ClientEvent::Received {
                data: reply,
                now: NOW,
            },
        ) {
            ClientAction::Backoff { .. } => {
                match client.step(&mut exchange, ClientEvent::Slept { now: NOW }) {
                    ClientAction::SendRequest { payload: next } => payload = next,
                    other => panic!("expected a resend, got: {:?}", other),
                }
            }
            ClientAction::Fail { error } => break error,
            other => panic!("unexpected action: {:?}", other),
        }
    };

    match error {
        SolanaNodeError::HandshakeError { message } => {
            assert!(message.contains("Network ID mismatch"));
            assert!(message.contains("testnet"));
            assert!(message.contains("localnet"));
        }
        other => panic!("Expected HandshakeError with network mismatch, got: {:?}", other),
    }
}

/// A success response whose network id does not match the client's is
/// the one non-retryable error: the exchange aborts after a single
/// attempt, with no backoff, whatever the retry budget.
#[test]
fn test_mismatched_network_is_not_retried() {
    // A devnet client sends the local-development request (devnet has no
    // dedicated request constructor), so a localnet listener accepts it
    // and answers success under "localnet" -- which the devnet client
    // then rejects as a non-retryable identity mismatch.
    let mut listener = GossipNode::new(addr(1, 8000), test_pubkey(1), "localnet".to_string());
    let client = HandshakeClient::with_config(test_pubkey(2), "devnet".to_string(), 100, 5);

    let (mut exchange, action) = client.start_exchange(NOW);
    let payload = match action {
        ClientAction::SendRequest { payload } => payload,
        other => panic!("expected a send, got: {:?}", other),
    };
    let request = decode_request(&payload).unwrap();
    assert_eq!(request.network_id, "localnet");

    let reply = listener.handle_datagram(&payload, addr(9, 5555), NOW).unwrap();
    let response = decode_response(&reply).unwrap();
    assert!(response.success);
    assert_eq!(response.network_id, "localnet");

    client.step(&mut exchange, ClientEvent::SendCompleted);
    let action = client.step(
        &mut exchange,
        ClientEvent::Received {
            data: reply,
            now: NOW,
        },
    );
    match action {
        ClientAction::Fail {
            error:
                SolanaNodeError::ProtocolVersionMismatch { expected, received },
        } => {
            assert_eq!(expected, "devnet");
            assert_eq!(received, "localnet");
        }
        other => panic!("expected the identity-mismatch error, got: {:?}", other),
    }
    // One attempt, no backoff: the exchange is already over.
    assert_eq!(exchange.phase(), ExchangePhase::Finished);
}

/// A target that never replies: with three attempts the machine backs
/// off one second after the first and two after the second, three
/// seconds in all, then reports the timeout.
#[test]
fn test_handshake_multiple_retries() {
    let client = HandshakeClient::with_config(test_pubkey(2), "localnet".to_string(), 500, 3);

    let (mut exchange, action) = client.start_exchange(NOW);
    assert!(matches!(action, ClientAction::SendRequest { .. }));

    let mut backoffs: Vec<u64> = Vec::new();
    let mut sends: u32 = 1;
    loop {
        let action = client.step(&mut exchange, ClientEvent::SendCompleted);
        assert!(matches!(action, ClientAction::AwaitResponse { .. }));
        match client.step(&mut exchange, ClientEvent::TimedOut) {
            ClientAction::Backoff { delay_secs } => {
                backoffs.push(delay_secs);
                let action = client.step(&mut exchange, ClientEvent::Slept { now: NOW + 1 });
                assert!(matches!(action, ClientAction::SendRequest { .. }));
                sends += 1;
            }
            ClientAction::Fail { error } => {
                assert!(matches!(error, SolanaNodeError::TimeoutError));
                break;
            }
            other => panic!("unexpected action: {:?}", other),
        }
    }

    assert_eq!(sends, 3, "three attempts are made");
    assert_eq!(backoffs, vec![1, 2], "exponential backoff between attempts");
    assert_eq!(backoffs.iter().sum::<u64>(), 3, "Should take time for retries");
}

/// A single attempt against a silent target reports the timeout without
/// any backoff.
#[test]
fn test_handshake_timeout() {
    let client = HandshakeClient::with_config(test_pubkey(2), "localnet".to_string(), 100, 1);

    let (mut exchange, _) = client.start_exchange(NOW);
    client.step(&mut exchange, ClientEvent::SendCompleted);
    let action = client.step(&mut exchange, ClientEvent::TimedOut);
    match action {
        ClientAction::Fail { error } => assert!(matches!(error, SolanaNodeError::TimeoutError)),
        other => panic!("Handshake should timeout, got: {:?}", other),
    }
}

/// A transport error is retryable; an undecodable reply is retryable;
/// each ends the exchange once the budget is spent.
#[test]
fn test_retryable_error_kinds() {
    let client = HandshakeClient::with_config(test_pubkey(2), "localnet".to_string(), 100, 1);

    let (mut exchange, _) = client.start_exchange(NOW);
    let action = client.step(
        &mut exchange,
        ClientEvent::IoFailed {
            message: "connection refused".to_string(),
        },
    );
    match action {
        ClientAction::Fail {
            error: SolanaNodeError::NetworkError { message },
        } => assert_eq!(message, "connection refused"),
        other => panic!("expected the network error, got: {:?}", other),
    }

    let (mut exchange, _) = client.start_exchange(NOW);
    client.step(&mut exchange, ClientEvent::SendCompleted);
    let action = client.step(
        &mut exchange,
        ClientEvent::Received {
            data: vec![1, 2, 3],
            now: NOW,
        },
    );
    match action {
        ClientAction::Fail {
            error: SolanaNodeError::InvalidPeerData { reason },
        } => assert!(reason.contains("deserialize")),
        other => panic!("expected the invalid-data error, got: {:?}", other),
    }
}

/// A zero retry budget fails at once with the generic exhaustion error.
#[test]
fn test_zero_retries_fails_immediately() {
    let client = HandshakeClient::with_config(test_pubkey(2), "localnet".to_string(), 100, 0);
    let (exchange, action) = client.start_exchange(NOW);
    assert_eq!(exchange.phase(), ExchangePhase::Finished);
    match action {
        ClientAction::Fail {
            error: SolanaNodeError::HandshakeError { message },
        } => assert_eq!(message, "Handshake failed after maximum retries"),
        other => panic!("expected the exhaustion error, got: {:?}", other),
    }
}

/// Batch bookkeeping: two targets, one success and one failure, exactly
/// two results, each tagged to its own address.
#[test]
fn test_batch_handshakes_mixed_results() {
    let good = addr(1, 8000);
    let bad = addr(2, 9999);
    let mut batch = BatchHandshakes::new(vec![good, bad]);

    assert_eq!(batch.next_target(), Some(good));
    let peer = GossipNodeInfo {
        peer_pubkey: test_pubkey(1),
        gossip_addr: good,
        protocol_version: "1.18.0".to_string(),
        network_id: "localnet".to_string(),
        capabilities: vec!["gossip".to_string()],
        last_seen: NOW,
        connection_status: ConnectionStatus::Connected,
    };
    batch.record(Ok(peer));

    assert_eq!(batch.next_target(), Some(bad));
    batch.record(Err(SolanaNodeError::TimeoutError));

    assert_eq!(batch.next_target(), None);
    let results = batch.into_results();

    assert_eq!(results.len(), 2);
    let successful_count = results.iter().filter(|(_, result)| result.is_ok()).count();
    let failed_count = results.iter().filter(|(_, result)| result.is_err()).count();
    assert_eq!(successful_count, 1, "One handshake should succeed");
    assert_eq!(failed_count, 1, "One handshake should fail");
    assert_eq!(results[0].0, good);
    assert!(results[0].1.is_ok());
    assert_eq!(results[1].0, bad);
    assert!(results[1].1.is_err());
}

/// The registry: insert, overwrite, list, look up.
#[test]
fn test_gossip_node_peer_registry() {
    let mut gossip_node = GossipNode::new(addr(1, 8000), test_pubkey(1), "localnet".to_string());

    // Initially no peers
    assert_eq!(gossip_node.get_peers().len(), 0);

    let peer_info = GossipNodeInfo {
        peer_pubkey: test_pubkey(5),
        gossip_addr: addr(1, 8001),
        protocol_version: "1.18.0".to_string(),
        network_id: "localnet".to_string(),
        capabilities: vec!["gossip".to_string()],
        last_seen: NOW,
        connection_status: ConnectionStatus::Connected,
    };

    let peer_addr = peer_info.gossip_addr;
    gossip_node.register_peer(peer_info.clone());

    // Verify peer is registered
    assert_eq!(gossip_node.get_peers().len(), 1);

    let registered_peer = gossip_node.get_peer_info(&peer_addr).unwrap();
    assert_eq!(registered_peer.peer_pubkey, peer_info.peer_pubkey);
    assert_eq!(registered_peer.gossip_addr, peer_info.gossip_addr);
    assert_eq!(registered_peer.network_id, peer_info.network_id);

    // Re-registering the same address overwrites, never duplicates.
    let mut updated = peer_info.clone();
    updated.last_seen = NOW + 10;
    gossip_node.register_peer(updated);
    assert_eq!(gossip_node.get_peers().len(), 1);
    assert_eq!(gossip_node.get_peer_info(&peer_addr).unwrap().last_seen, NOW + 10);

    // An unknown address has no entry.
    assert!(gossip_node.get_peer_info(&addr(3, 1)).is_none());
}

/// The listener keys an accepted request by the sender's observed UDP
/// source address -- requests carry no address of their own, and the
/// entry appears under the observed one.
#[test]
fn test_listener_registers_observed_address() {
    let mut listener = GossipNode::new(addr(1, 8000), test_pubkey(1), "localnet".to_string());
    let client = HandshakeClient::with_config(test_pubkey(2), "localnet".to_string(), 100, 1);

    let (_, action) = client.start_exchange(NOW);
    let payload = match action {
        ClientAction::SendRequest { payload } => payload,
        other => panic!("expected a send, got: {:?}", other),
    };

    let observed = addr(77, 4242);
    listener.handle_datagram(&payload, observed, NOW).unwrap();

    let entry = listener.get_peer_info(&observed).unwrap();
    assert_eq!(entry.peer_pubkey, test_pubkey(2));
    assert_eq!(entry.gossip_addr, observed);
    assert_eq!(entry.last_seen, NOW);
    assert!(matches!(entry.connection_status, ConnectionStatus::Connected));
}

/// An unsolicited valid response is registered under the gossip address
/// advertised in the payload, not under the datagram's source address;
/// an invalid one is dropped without a trace, and garbage is ignored.
#[test]
fn test_listener_response_handling() {
    let mut listener = GossipNode::new(addr(1, 8000), test_pubkey(1), "localnet".to_string());

    let advertised = addr(50, 6000);
    let response = HandshakeResponse {
        peer_pubkey: test_pubkey(9),
        protocol_version: "1.18.0".to_string(),
        network_id: "localnet".to_string(),
        gossip_addr: advertised,
        capabilities: vec!["gossip".to_string()],
        timestamp: NOW,
        success: true,
        error_message: None,
    };
    let bytes = encode_response(&response).unwrap();

    let source = addr(60, 7000);
    let reply = listener.handle_datagram(&bytes, source, NOW);
    assert!(reply.is_none(), "a response gets no reply");

    assert!(listener.get_peer_info(&advertised).is_some());
    assert!(listener.get_peer_info(&source).is_none());

    // A stale response is dropped.
    let mut stale = response.clone();
    stale.gossip_addr = addr(51, 6001);
    stale.timestamp = NOW - 301;
    let bytes = encode_response(&stale).unwrap();
    assert!(listener.handle_datagram(&bytes, source, NOW).is_none());
    assert!(listener.get_peer_info(&addr(51, 6001)).is_none());

    // A packet that decodes as neither shape is dropped silently.
    assert!(listener.handle_datagram(&[0xde, 0xad], source, NOW).is_none());
    assert_eq!(listener.get_peers().len(), 1);
}

/// Handshakes succeed for each network type when both sides agree.
#[test]
fn test_different_network_types() {
    for network_id in ["localnet", "testnet"] {
        let mut listener =
            GossipNode::new(addr(1, 8000), test_pubkey(1), network_id.to_string());
        let client =
            HandshakeClient::with_config(test_pubkey(2), network_id.to_string(), 100, 2);

        let (mut exchange, action) = client.start_exchange(NOW);
        let payload = match action {
            ClientAction::SendRequest { payload } => payload,
            other => panic!("expected a send, got: {:?}", other),
        };
        let reply = listener.handle_datagram(&payload, addr(9, 5555), NOW).unwrap();
        client.step(&mut exchange, ClientEvent::SendCompleted);
        let action = client.step(
            &mut exchange,
            ClientEvent::Received {
                data: reply,
                now: NOW,
            },
        );
        match action {
            ClientAction::Succeed { peer } => assert_eq!(peer.network_id, network_id),
            other => panic!(
                "Handshake should succeed for network: {}, error: {:?}",
                network_id, other
            ),
        }
    }
}
