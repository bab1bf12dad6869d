//! Domain models for the handshake protocol: message shapes, peer
//! metadata, error kinds, and response validation.

use vstd::prelude::*;

pub use crate::solana::network;

verus! {

use vstd::string::StringExecFns;
use crate::strutil::str_eq;

/// Protocol version advertised by this implementation.
pub const DEFAULT_PROTOCOL_VERSION: &'static str = "1.18.0";

/// Staleness window for response timestamps, in seconds.
pub const MAX_RESPONSE_AGE_SECS: u64 = 300;

/// Relies on `std::time::SystemTime`: seconds of the system clock since
/// the Unix epoch (zero if the clock reads before the epoch).
#[verifier::external_body]
pub(crate) fn unix_now() -> u64 {
    match std::time::SystemTime::now().duration_since(std::time::UNIX_EPOCH) {
        Ok(d) => d.as_secs(),
        Err(_) => 0,
    }
}

/// A peer's network endpoint, as plain numbers: either an IPv4 address
/// and port, or an IPv6 address (eight 16-bit segments) and port.
#[derive(Clone, Copy, Debug, PartialEq, Eq, Structural)]
pub enum SocketAddr {
    V4 { a: u8, b: u8, c: u8, d: u8, port: u16 },
    V6 {
        s0: u16,
        s1: u16,
        s2: u16,
        s3: u16,
        s4: u16,
        s5: u16,
        s6: u16,
        s7: u16,
        port: u16,
    },
}

/// A node's public-key identity: exactly 32 bytes.
#[derive(Debug)]
pub struct Pubkey {
    bytes: Vec<u8>,
}

impl View for Pubkey {
    type V = Seq<u8>;

    closed spec fn view(&self) -> Seq<u8> {
        self.bytes@
    }
}

impl Pubkey {
    /// Every identity value holds exactly 32 bytes.
    #[verifier::type_invariant]
    pub open spec fn type_inv(&self) -> bool {
        self.wf()
    }

    /// Builds an identity from its 32 bytes; any other length is refused.
    pub fn from_bytes(bytes: Vec<u8>) -> (r: Option<Pubkey>)
        ensures
            match r {
                Some(p) => p@ == bytes@ && bytes@.len() == 32,
                None => bytes@.len() != 32,
            },
    {
        if bytes.len() == 32 {
            Some(Pubkey { bytes })
        } else {
            None
        }
    }

    /// The raw bytes of the identity.
    pub fn as_bytes(&self) -> (r: &Vec<u8>)
        ensures
            r@ == self@,
    {
        &self.bytes
    }

    pub open spec fn wf(&self) -> bool {
        self@.len() == 32
    }
}

impl Clone for Pubkey {
    fn clone(&self) -> (r: Self)
        ensures
            r@ == self@,
    {
        proof {
            use_type_invariant(self);
        }
        Pubkey { bytes: crate::strutil::clone_bytes(&self.bytes) }
    }
}

impl PartialEq for Pubkey {
    fn eq(&self, other: &Self) -> (r: bool) {
        crate::strutil::bytes_eq(self.bytes.as_slice(), other.bytes.as_slice())
    }
}

impl vstd::std_specs::cmp::PartialEqSpecImpl for Pubkey {
    open spec fn obeys_eq_spec() -> bool {
        true
    }

    open spec fn eq_spec(&self, other: &Self) -> bool {
        self@ == other@
    }
}

/// Status of the connection with a peer.
#[derive(Clone, Copy, Debug, PartialEq, Eq, Structural)]
pub enum ConnectionStatus {
    /// Successfully connected and verified.
    Connected,
    /// Connection in progress.
    Connecting,
    /// Connection failed or lost.
    Disconnected,
    /// Peer failed verification.
    VerificationFailed,
}

/// Outgoing handshake request.
#[derive(Debug)]
pub struct HandshakeRequest {
    /// Public key of the requesting node.
    pub node_pubkey: Pubkey,
    /// Protocol version supported by this node.
    pub protocol_version: String,
    /// Timestamp of the request (seconds since the Unix epoch).
    pub timestamp: u64,
    /// Network ID (mainnet-beta, testnet, devnet, localnet).
    pub network_id: String,
    /// Additional node capabilities and features.
    pub capabilities: Vec<String>,
}

/// Mathematical value of a [`HandshakeRequest`].
pub ghost struct HandshakeRequestV {
    pub node_pubkey: Seq<u8>,
    pub protocol_version: Seq<char>,
    pub timestamp: u64,
    pub network_id: Seq<char>,
    pub capabilities: Seq<Seq<char>>,
}

impl View for HandshakeRequest {
    type V = HandshakeRequestV;

    open spec fn view(&self) -> HandshakeRequestV {
        HandshakeRequestV {
            node_pubkey: self.node_pubkey@,
            protocol_version: self.protocol_version@,
            timestamp: self.timestamp,
            network_id: self.network_id@,
            capabilities: self.capabilities.deep_view(),
        }
    }
}

impl Clone for HandshakeRequest {
    fn clone(&self) -> (r: Self)
        ensures
            r@ == self@,
    {
        HandshakeRequest {
            node_pubkey: self.node_pubkey.clone(),
            protocol_version: self.protocol_version.clone(),
            timestamp: self.timestamp,
            network_id: self.network_id.clone(),
            capabilities: crate::strutil::clone_strings(&self.capabilities),
        }
    }
}

/// Incoming handshake response.
#[derive(Debug)]
pub struct HandshakeResponse {
    /// Public key of the responding peer.
    pub peer_pubkey: Pubkey,
    /// Protocol version of the peer.
    pub protocol_version: String,
    /// Network ID of the peer.
    pub network_id: String,
    /// Peer's advertised socket address for gossip.
    pub gossip_addr: SocketAddr,
    /// Peer capabilities and supported features.
    pub capabilities: Vec<String>,
    /// Response timestamp (seconds since the Unix epoch).
    pub timestamp: u64,
    /// Success status of the handshake.
    pub success: bool,
    /// Optional error message if the handshake failed.
    pub error_message: Option<String>,
}

/// Mathematical value of a [`HandshakeResponse`].
pub ghost struct HandshakeResponseV {
    pub peer_pubkey: Seq<u8>,
    pub protocol_version: Seq<char>,
    pub network_id: Seq<char>,
    pub gossip_addr: SocketAddr,
    pub capabilities: Seq<Seq<char>>,
    pub timestamp: u64,
    pub success: bool,
    pub error_message: Option<Seq<char>>,
}

impl View for HandshakeResponse {
    type V = HandshakeResponseV;

    open spec fn view(&self) -> HandshakeResponseV {
        HandshakeResponseV {
            peer_pubkey: self.peer_pubkey@,
            protocol_version: self.protocol_version@,
            network_id: self.network_id@,
            gossip_addr: self.gossip_addr,
            capabilities: self.capabilities.deep_view(),
            timestamp: self.timestamp,
            success: self.success,
            error_message: self.error_message.deep_view(),
        }
    }
}

impl Clone for HandshakeResponse {
    fn clone(&self) -> (r: Self)
        ensures
            r@ == self@,
    {
        let error_message = match &self.error_message {
            Some(m) => Some(m.clone()),
            None => None,
        };
        HandshakeResponse {
            peer_pubkey: self.peer_pubkey.clone(),
            protocol_version: self.protocol_version.clone(),
            network_id: self.network_id.clone(),
            gossip_addr: self.gossip_addr,
            capabilities: crate::strutil::clone_strings(&self.capabilities),
            timestamp: self.timestamp,
            success: self.success,
            error_message,
        }
    }
}

/// Information about a known gossip peer.
#[derive(Debug)]
pub struct GossipNodeInfo {
    /// Peer's public key identifier.
    pub peer_pubkey: Pubkey,
    /// Network address for gossip communication.
    pub gossip_addr: SocketAddr,
    /// Protocol version supported by the peer.
    pub protocol_version: String,
    /// Network identifier.
    pub network_id: String,
    /// Peer capabilities and features.
    pub capabilities: Vec<String>,
    /// When this peer was last seen or verified.
    pub last_seen: u64,
    /// Connection status with this peer.
    pub connection_status: ConnectionStatus,
}

/// Mathematical value of a [`GossipNodeInfo`].
pub ghost struct GossipNodeInfoV {
    pub peer_pubkey: Seq<u8>,
    pub gossip_addr: SocketAddr,
    pub protocol_version: Seq<char>,
    pub network_id: Seq<char>,
    pub capabilities: Seq<Seq<char>>,
    pub last_seen: u64,
    pub connection_status: ConnectionStatus,
}

impl View for GossipNodeInfo {
    type V = GossipNodeInfoV;

    open spec fn view(&self) -> GossipNodeInfoV {
        GossipNodeInfoV {
            peer_pubkey: self.peer_pubkey@,
            gossip_addr: self.gossip_addr,
            protocol_version: self.protocol_version@,
            network_id: self.network_id@,
            capabilities: self.capabilities.deep_view(),
            last_seen: self.last_seen,
            connection_status: self.connection_status,
        }
    }
}

impl DeepView for GossipNodeInfo {
    type V = GossipNodeInfoV;

    open spec fn deep_view(&self) -> GossipNodeInfoV {
        self.view()
    }
}

impl Clone for GossipNodeInfo {
    fn clone(&self) -> (r: Self)
        ensures
            r@ == self@,
    {
        GossipNodeInfo {
            peer_pubkey: self.peer_pubkey.clone(),
            gossip_addr: self.gossip_addr,
            protocol_version: self.protocol_version.clone(),
            network_id: self.network_id.clone(),
            capabilities: crate::strutil::clone_strings(&self.capabilities),
            last_seen: self.last_seen,
            connection_status: self.connection_status,
        }
    }
}

/// Error kinds for node operations.
#[derive(Debug)]
pub enum SolanaNodeError {
    /// I/O or socket failure; carries the transport error's text.
    NetworkError { message: String },
    /// Semantic rejection of a handshake.
    HandshakeError { message: String },
    /// Malformed, undecodable or stale peer data.
    InvalidPeerData { reason: String },
    /// Encoding failure; treated as an internal error.
    SerializationFailed(String),
    /// A peer failed verification.
    PeerVerificationFailed { peer_addr: SocketAddr },
    /// Expected vs. received network id (or protocol version).
    ProtocolVersionMismatch { expected: String, received: String },
    /// A deadline elapsed with no data.
    TimeoutError,
}

/// Mathematical value of a [`SolanaNodeError`].
pub ghost enum SolanaNodeErrorV {
    NetworkError { message: Seq<char> },
    HandshakeError { message: Seq<char> },
    InvalidPeerData { reason: Seq<char> },
    SerializationFailed(Seq<char>),
    PeerVerificationFailed { peer_addr: SocketAddr },
    ProtocolVersionMismatch { expected: Seq<char>, received: Seq<char> },
    TimeoutError,
}

impl View for SolanaNodeError {
    type V = SolanaNodeErrorV;

    open spec fn view(&self) -> SolanaNodeErrorV {
        match self {
            SolanaNodeError::NetworkError { message } => SolanaNodeErrorV::NetworkError {
                message: message@,
            },
            SolanaNodeError::HandshakeError { message } => SolanaNodeErrorV::HandshakeError {
                message: message@,
            },
            SolanaNodeError::InvalidPeerData { reason } => SolanaNodeErrorV::InvalidPeerData {
                reason: reason@,
            },
            SolanaNodeError::SerializationFailed(m) => SolanaNodeErrorV::SerializationFailed(m@),
            SolanaNodeError::PeerVerificationFailed { peer_addr } => (
                SolanaNodeErrorV::PeerVerificationFailed { peer_addr: *peer_addr }
            ),
            SolanaNodeError::ProtocolVersionMismatch { expected, received } => (
                SolanaNodeErrorV::ProtocolVersionMismatch {
                    expected: expected@,
                    received: received@,
                }
            ),
            SolanaNodeError::TimeoutError => SolanaNodeErrorV::TimeoutError,
        }
    }
}

impl Clone for SolanaNodeError {
    fn clone(&self) -> (r: Self)
        ensures
            r@ == self@,
    {
        match self {
            SolanaNodeError::NetworkError { message } => SolanaNodeError::NetworkError {
                message: message.clone(),
            },
            SolanaNodeError::HandshakeError { message } => SolanaNodeError::HandshakeError {
                message: message.clone(),
            },
            SolanaNodeError::InvalidPeerData { reason } => SolanaNodeError::InvalidPeerData {
                reason: reason.clone(),
            },
            SolanaNodeError::SerializationFailed(m) => (
                SolanaNodeError::SerializationFailed(m.clone())
            ),
            SolanaNodeError::PeerVerificationFailed { peer_addr } => (
                SolanaNodeError::PeerVerificationFailed { peer_addr: *peer_addr }
            ),
            SolanaNodeError::ProtocolVersionMismatch { expected, received } => (
                SolanaNodeError::ProtocolVersionMismatch {
                    expected: expected.clone(),
                    received: received.clone(),
                }
            ),
            SolanaNodeError::TimeoutError => SolanaNodeError::TimeoutError,
        }
    }
}

/// The descriptive text of each error kind.
pub open spec fn spec_error_message(e: SolanaNodeErrorV) -> Seq<char> {
    match e {
        SolanaNodeErrorV::NetworkError { message } => "Network connection failed: "@ + message,
        SolanaNodeErrorV::HandshakeError { message } => "Handshake protocol error: "@ + message,
        SolanaNodeErrorV::InvalidPeerData { reason } => "Invalid peer data received: "@ + reason,
        SolanaNodeErrorV::SerializationFailed(m) => "Serialization failed: "@ + m,
        SolanaNodeErrorV::PeerVerificationFailed { .. } => "Peer verification failed"@,
        SolanaNodeErrorV::ProtocolVersionMismatch { expected, received } => (
            "Protocol version mismatch. Expected: "@ + expected + ", Got: "@ + received
        ),
        SolanaNodeErrorV::TimeoutError => "Timeout occurred during operation"@,
    }
}

impl SolanaNodeError {
    /// The descriptive text of this error.
    pub fn message(&self) -> (r: String)
        ensures
            r@ == spec_error_message(self@),
    {
        match self {
            SolanaNodeError::NetworkError { message } => (
                "Network connection failed: ".to_owned().concat(message.as_str())
            ),
            SolanaNodeError::HandshakeError { message } => (
                "Handshake protocol error: ".to_owned().concat(message.as_str())
            ),
            SolanaNodeError::InvalidPeerData { reason } => (
                "Invalid peer data received: ".to_owned().concat(reason.as_str())
            ),
            SolanaNodeError::SerializationFailed(m) => (
                "Serialization failed: ".to_owned().concat(m.as_str())
            ),
            SolanaNodeError::PeerVerificationFailed { peer_addr: _ } => (
                "Peer verification failed".to_owned()
            ),
            SolanaNodeError::ProtocolVersionMismatch { expected, received } => (
                "Protocol version mismatch. Expected: ".to_owned().concat(
                    expected.as_str(),
                ).concat(", Got: ").concat(received.as_str())
            ),
            SolanaNodeError::TimeoutError => "Timeout occurred during operation".to_owned(),
        }
    }

    /// True for error kinds on which a handshake attempt may be retried;
    /// a network-identity mismatch is not recoverable by retrying.
    pub fn is_retryable(&self) -> (r: bool)
        ensures
            r == spec_retryable(self@),
    {
        !matches!(self, SolanaNodeError::ProtocolVersionMismatch { .. })
    }
}

/// A retry may succeed for every error kind except an identity mismatch.
pub open spec fn spec_retryable(e: SolanaNodeErrorV) -> bool {
    !(e is ProtocolVersionMismatch)
}

/// Result type for handshake operations.
pub type HandshakeResult<T> = Result<T, SolanaNodeError>;

/// View of a unit result carrying a node error.
pub open spec fn unit_result_view(r: Result<(), SolanaNodeError>) -> Result<(), SolanaNodeErrorV> {
    match r {
        Ok(()) => Ok(()),
        Err(e) => Err(e@),
    }
}

/// The age of a timestamp at time `now`, clamped below at zero.
pub open spec fn spec_age(now: u64, timestamp: u64) -> u64 {
    if now >= timestamp {
        (now - timestamp) as u64
    } else {
        0
    }
}

/// What `verify` decides at time `now`: the success flag is checked
/// first, then the network identity, then staleness; the first failing
/// check wins.
pub open spec fn spec_verify(
    r: HandshakeResponseV,
    expected: Seq<char>,
    now: u64,
) -> Result<(), SolanaNodeErrorV> {
    if !r.success {
        Err(SolanaNodeErrorV::HandshakeError {
            message: match r.error_message {
                Some(m) => m,
                None => "Unknown handshake failure"@,
            },
        })
    } else if r.network_id != expected {
        Err(SolanaNodeErrorV::ProtocolVersionMismatch {
            expected: expected,
            received: r.network_id,
        })
    } else if spec_age(now, r.timestamp) > MAX_RESPONSE_AGE_SECS {
        Err(SolanaNodeErrorV::InvalidPeerData { reason: "Response timestamp too old"@ })
    } else {
        Ok(())
    }
}

impl HandshakeResponse {
    /// Validates this response against the expected network id, judging
    /// staleness at the given time.
    pub fn verify_at(&self, expected_network: &str, now: u64) -> (r: Result<(), SolanaNodeError>)
        ensures
            unit_result_view(r) == spec_verify(self@, expected_network@, now),
    {
        if !self.success {
            let message = match &self.error_message {
                Some(m) => m.clone(),
                None => "Unknown handshake failure".to_owned(),
            };
            return Err(SolanaNodeError::HandshakeError { message });
        }
        if !str_eq(self.network_id.as_str(), expected_network) {
            return Err(SolanaNodeError::ProtocolVersionMismatch {
                expected: expected_network.to_owned(),
                received: self.network_id.clone(),
            });
        }
        let age: u64 = if now >= self.timestamp {
            now - self.timestamp
        } else {
            0
        };
        if age > MAX_RESPONSE_AGE_SECS {
            return Err(SolanaNodeError::InvalidPeerData {
                reason: "Response timestamp too old".to_owned(),
            });
        }
        Ok(())
    }

    /// Validates this response against the expected network id, judging
    /// staleness by the system clock.  The success-flag and identity
    /// checks do not depend on the clock and are pinned exactly; the
    /// staleness check holds for the instant the clock returned.
    pub fn verify(&self, expected_network: &str) -> (r: Result<(), SolanaNodeError>)
        ensures
            exists|now: u64| unit_result_view(r) == spec_verify(self@, expected_network@, now),
            !(self.success && self.network_id@ == expected_network@) ==> unit_result_view(r)
                == spec_verify(self@, expected_network@, 0),
    {
        let now = unix_now();
        let r = self.verify_at(expected_network, now);
        proof {
            assert(unit_result_view(r) == spec_verify(self@, expected_network@, now));
        }
        r
    }
}

/// LAW: the validation checks are ordered.  A response whose success
/// flag is false reports the failed-handshake error and no other, even
/// when its network id also mismatches and its timestamp is also stale:
/// the flag check wins, then identity, then staleness.
pub proof fn lemma_verify_priority(r: HandshakeResponseV, expected: Seq<char>, now: u64)
    requires
        !r.success,
        r.network_id != expected,
        spec_age(now, r.timestamp) > MAX_RESPONSE_AGE_SECS,
    ensures
        spec_verify(r, expected, now) == Err::<(), SolanaNodeErrorV>(
            SolanaNodeErrorV::HandshakeError {
                message: match r.error_message {
                    Some(m) => m,
                    None => "Unknown handshake failure"@,
                },
            },
        ),
{
}

/// LAW: a fresh, matching, successful response validates.  Success flag
/// set, network id equal to the expected one, and a timestamp at most
/// the staleness window in the past (the window boundary included)
/// always pass validation.
pub proof fn lemma_verify_accepts_fresh(r: HandshakeResponseV, expected: Seq<char>, now: u64)
    requires
        r.success,
        r.network_id == expected,
        spec_age(now, r.timestamp) <= MAX_RESPONSE_AGE_SECS,
    ensures
        spec_verify(r, expected, now) is Ok,
{
}

/// The peer record produced by a successful handshake response: the
/// registry entry takes the peer's advertised gossip address, its
/// identity, version, network id and capabilities, the response
/// timestamp as last-seen, and status `Connected`.
pub open spec fn spec_info_from_response(r: HandshakeResponseV) -> GossipNodeInfoV {
    GossipNodeInfoV {
        peer_pubkey: r.peer_pubkey,
        gossip_addr: r.gossip_addr,
        protocol_version: r.protocol_version,
        network_id: r.network_id,
        capabilities: r.capabilities,
        last_seen: r.timestamp,
        connection_status: ConnectionStatus::Connected,
    }
}

impl GossipNodeInfo {
    /// Creates the peer record of a successful handshake response.
    pub fn from_handshake_response(response: HandshakeResponse) -> (r: Self)
        ensures
            r@ == spec_info_from_response(response@),
    {
        GossipNodeInfo {
            peer_pubkey: response.peer_pubkey,
            gossip_addr: response.gossip_addr,
            protocol_version: response.protocol_version,
            network_id: response.network_id,
            capabilities: response.capabilities,
            last_seen: response.timestamp,
            connection_status: ConnectionStatus::Connected,
        }
    }
}

/// The default capability strings advertised by a node.
pub fn default_capabilities() -> (r: Vec<String>)
    ensures
        r.deep_view() =~= seq!["gossip"@, "handshake"@],
{
    let mut caps: Vec<String> = Vec::new();
    caps.push("gossip".to_owned());
    caps.push("handshake".to_owned());
    caps
}

/// The request a node on the local development network sends: default
/// protocol version and capabilities, network id `localnet`.
pub open spec fn spec_local_request(pk: Seq<u8>, timestamp: u64) -> HandshakeRequestV {
    HandshakeRequestV {
        node_pubkey: pk,
        protocol_version: DEFAULT_PROTOCOL_VERSION@,
        timestamp: timestamp,
        network_id: network::LOCALNET@,
        capabilities: seq!["gossip"@, "handshake"@],
    }
}

impl HandshakeRequest {
    /// Builds a local-development handshake request carrying the given
    /// timestamp.
    pub fn new_local_at(node_pubkey: Pubkey, timestamp: u64) -> (r: Self)
        ensures
            r@ == spec_local_request(node_pubkey@, timestamp),
    {
        let r = HandshakeRequest {
            node_pubkey,
            protocol_version: DEFAULT_PROTOCOL_VERSION.to_owned(),
            timestamp,
            network_id: network::LOCALNET.to_owned(),
            capabilities: default_capabilities(),
        };
        proof {
            assert(r@ =~= spec_local_request(r.node_pubkey@, timestamp));
        }
        r
    }

    /// Builds a local-development handshake request stamped with the
    /// system clock.
    pub fn new_local(node_pubkey: Pubkey) -> (r: Self)
        ensures
            r@ == spec_local_request(r@.node_pubkey, r@.timestamp),
            r@.node_pubkey == node_pubkey@,
    {
        let now = unix_now();
        Self::new_local_at(node_pubkey, now)
    }

    /// Builds a testnet handshake request stamped with the system clock.
    pub fn new_testnet(node_pubkey: Pubkey) -> (r: Self)
        ensures
            r@ == spec_request_for(r@.node_pubkey, r@.timestamp, network::TESTNET@),
            r@.node_pubkey == node_pubkey@,
    {
        let mut request = Self::new_local(node_pubkey);
        request.network_id = network::TESTNET.to_owned();
        proof {
            assert(request@ =~= spec_request_for(
                request@.node_pubkey,
                request@.timestamp,
                network::TESTNET@,
            ));
        }
        request
    }

    /// Builds a mainnet-beta handshake request stamped with the system
    /// clock.
    pub fn new_mainnet(node_pubkey: Pubkey) -> (r: Self)
        ensures
            r@ == spec_request_for(r@.node_pubkey, r@.timestamp, network::MAINNET_BETA@),
            r@.node_pubkey == node_pubkey@,
    {
        let mut request = Self::new_local(node_pubkey);
        request.network_id = network::MAINNET_BETA.to_owned();
        proof {
            assert(request@ =~= spec_request_for(
                request@.node_pubkey,
                request@.timestamp,
                network::MAINNET_BETA@,
            ));
        }
        request
    }
}

/// The request a node sends on the given network: default protocol
/// version and capabilities, the given network id.
pub open spec fn spec_request_for(pk: Seq<u8>, timestamp: u64, net: Seq<char>) -> (
    HandshakeRequestV
) {
    HandshakeRequestV {
        node_pubkey: pk,
        protocol_version: DEFAULT_PROTOCOL_VERSION@,
        timestamp: timestamp,
        network_id: net,
        capabilities: seq!["gossip"@, "handshake"@],
    }
}

} // verus!
