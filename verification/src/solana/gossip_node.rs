//! Gossip listener: classifies incoming datagrams as handshake requests
//! or responses, answers requests, validates responses, and maintains
//! the peer registry.  The embedding application owns the UDP socket and
//! hands each received datagram, with its observed source address and
//! the current time, to [`GossipNode::handle_datagram`].

use vstd::prelude::*;

verus! {

use vstd::utf8::encode_utf8;
use crate::solana::domain::{
    ConnectionStatus,
    GossipNodeInfo,
    GossipNodeInfoV,
    HandshakeRequest,
    HandshakeRequestV,
    HandshakeResponse,
    HandshakeResponseV,
    Pubkey,
    SocketAddr,
    SolanaNodeError,
    SolanaNodeErrorV,
    spec_info_from_response,
    spec_verify,
};
use crate::solana::wire;
use crate::solana::wire::{
    MAX_GOSSIP_PACKET_SIZE,
    request_encodable,
    response_encodable,
    spec_decode_request,
    spec_decode_response,
    spec_encode_request,
    spec_encode_response,
    str_list_ok,
};
use crate::strutil::{str_eq, lemma_encode_utf8_concat, lemma_encode_utf8_len};

// ---------------------------------------------------------------------
// The peer registry as a mathematical map.
// ---------------------------------------------------------------------

/// The registry entries as a map keyed by gossip address; a later entry
/// for the same address wins.
pub open spec fn reg_map(s: Seq<GossipNodeInfoV>) -> Map<SocketAddr, GossipNodeInfoV>
    decreases s.len(),
{
    if s.len() == 0 {
        Map::empty()
    } else {
        reg_map(s.drop_last()).insert(s.last().gossip_addr, s.last())
    }
}

/// No two registry entries share a gossip address.
pub open spec fn unique_addrs(s: Seq<GossipNodeInfoV>) -> bool {
    forall|i: int, j: int|
        0 <= i < j < s.len() ==> (#[trigger] s[i].gossip_addr) != (#[trigger] s[j].gossip_addr)
}

proof fn lemma_unique_drop_last(s: Seq<GossipNodeInfoV>)
    requires
        unique_addrs(s),
        s.len() > 0,
    ensures
        unique_addrs(s.drop_last()),
{
    assert forall|i: int, j: int| 0 <= i < j < s.drop_last().len() implies (
    #[trigger] s.drop_last()[i].gossip_addr) != (#[trigger] s.drop_last()[j].gossip_addr) by {
        assert(s.drop_last()[i] == s[i]);
        assert(s.drop_last()[j] == s[j]);
    }
}

proof fn lemma_reg_map_contains(s: Seq<GossipNodeInfoV>, a: SocketAddr)
    ensures
        reg_map(s).contains_key(a) <==> exists|k: int|
            0 <= k < s.len() && (#[trigger] s[k].gossip_addr) == a,
    decreases s.len(),
{
    if s.len() == 0 {
    } else {
        lemma_reg_map_contains(s.drop_last(), a);
        if s.last().gossip_addr == a {
            assert(s[s.len() - 1].gossip_addr == a);
        } else {
            if reg_map(s).contains_key(a) {
                let k = choose|k: int|
                    0 <= k < s.drop_last().len() && (#[trigger] s.drop_last()[k].gossip_addr) == a;
                assert(s[k].gossip_addr == a);
            }
            if exists|k: int| 0 <= k < s.len() && (#[trigger] s[k].gossip_addr) == a {
                let k = choose|k: int| 0 <= k < s.len() && (#[trigger] s[k].gossip_addr) == a;
                assert(k < s.len() - 1);
                assert(s.drop_last()[k].gossip_addr == a);
            }
        }
    }
}

proof fn lemma_reg_map_index(s: Seq<GossipNodeInfoV>, k: int)
    requires
        unique_addrs(s),
        0 <= k < s.len(),
    ensures
        reg_map(s).contains_key(s[k].gossip_addr),
        reg_map(s)[s[k].gossip_addr] == s[k],
    decreases s.len(),
{
    if k == s.len() - 1 {
    } else {
        lemma_unique_drop_last(s);
        assert(s.drop_last()[k] == s[k]);
        lemma_reg_map_index(s.drop_last(), k);
        assert(s[k].gossip_addr != s.last().gossip_addr);
    }
}

proof fn lemma_reg_map_push(s: Seq<GossipNodeInfoV>, v: GossipNodeInfoV)
    ensures
        reg_map(s.push(v)) == reg_map(s).insert(v.gossip_addr, v),
{
    assert(s.push(v).drop_last() =~= s);
    assert(s.push(v).last() == v);
}

proof fn lemma_reg_map_update(s: Seq<GossipNodeInfoV>, k: int, v: GossipNodeInfoV)
    requires
        unique_addrs(s),
        0 <= k < s.len(),
        s[k].gossip_addr == v.gossip_addr,
    ensures
        reg_map(s.update(k, v)) == reg_map(s).insert(v.gossip_addr, v),
    decreases s.len(),
{
    let t = s.update(k, v);
    if k == s.len() - 1 {
        assert(t.drop_last() =~= s.drop_last());
        assert(t.last() == v);
        assert(reg_map(t) == reg_map(s.drop_last()).insert(v.gossip_addr, v));
        assert(reg_map(s.drop_last()).insert(s.last().gossip_addr, s.last()).insert(
            v.gossip_addr,
            v,
        ) =~= reg_map(s.drop_last()).insert(v.gossip_addr, v));
    } else {
        lemma_unique_drop_last(s);
        assert(t.drop_last() =~= s.drop_last().update(k, v));
        assert(t.last() == s.last());
        assert(s.drop_last()[k] == s[k]);
        lemma_reg_map_update(s.drop_last(), k, v);
        assert(s[k].gossip_addr != s.last().gossip_addr);
        assert(reg_map(t) == reg_map(s.drop_last()).insert(v.gossip_addr, v).insert(
            s.last().gossip_addr,
            s.last(),
        ));
        assert(reg_map(s.drop_last()).insert(v.gossip_addr, v).insert(
            s.last().gossip_addr,
            s.last(),
        ) =~= reg_map(s.drop_last()).insert(s.last().gossip_addr, s.last()).insert(
            v.gossip_addr,
            v,
        ));
    }
}

// ---------------------------------------------------------------------
// What the listener does with one datagram, as a mathematical function.
// ---------------------------------------------------------------------

/// Mathematical value of a [`GossipNode`].
pub ghost struct GossipNodeV {
    pub node_pubkey: Seq<u8>,
    pub network_id: Seq<char>,
    pub local_addr: SocketAddr,
    pub peers: Seq<GossipNodeInfoV>,
}

/// The text a listener answers with when a request names another
/// network.
pub open spec fn spec_mismatch_message(expected: Seq<char>, got: Seq<char>) -> Seq<char> {
    "Network ID mismatch: expected "@ + expected + ", got "@ + got
}

/// The registry entry an accepted request produces: keyed by the
/// sender's observed address, never by anything the payload claims.
pub open spec fn spec_peer_from_request(req: HandshakeRequestV, sender: SocketAddr) -> (
    GossipNodeInfoV
) {
    GossipNodeInfoV {
        peer_pubkey: req.node_pubkey,
        gossip_addr: sender,
        protocol_version: req.protocol_version,
        network_id: req.network_id,
        capabilities: req.capabilities,
        last_seen: req.timestamp,
        connection_status: ConnectionStatus::Connected,
    }
}

/// The response a listener sends for a request on its own network.
pub open spec fn spec_success_response(s: GossipNodeV, req: HandshakeRequestV, now: u64) -> (
    HandshakeResponseV
) {
    HandshakeResponseV {
        peer_pubkey: s.node_pubkey,
        protocol_version: req.protocol_version,
        network_id: s.network_id,
        gossip_addr: s.local_addr,
        capabilities: seq!["gossip"@, "handshake"@],
        timestamp: now,
        success: true,
        error_message: None,
    }
}

/// The response a listener sends for a request on another network.
pub open spec fn spec_failure_response(s: GossipNodeV, req: HandshakeRequestV, now: u64) -> (
    HandshakeResponseV
) {
    HandshakeResponseV {
        peer_pubkey: s.node_pubkey,
        protocol_version: crate::solana::domain::DEFAULT_PROTOCOL_VERSION@,
        network_id: s.network_id,
        gossip_addr: s.local_addr,
        capabilities: seq!["gossip"@],
        timestamp: now,
        success: false,
        error_message: Some(spec_mismatch_message(s.network_id, req.network_id)),
    }
}

/// How one datagram changes the registry and what reply it produces.
/// A packet is classified by attempting the request decode first, then
/// the response decode; packets matching neither are dropped.
pub open spec fn spec_handle(s: GossipNodeV, data: Seq<u8>, sender: SocketAddr, now: u64) -> (
    Map<SocketAddr, GossipNodeInfoV>,
    Option<Seq<u8>>,
) {
    let m = reg_map(s.peers);
    match spec_decode_request(data) {
        Some(req) => {
            if req.network_id == s.network_id {
                (
                    m.insert(sender, spec_peer_from_request(req, sender)),
                    Some(spec_encode_response(spec_success_response(s, req, now))),
                )
            } else {
                (m, Some(spec_encode_response(spec_failure_response(s, req, now))))
            }
        },
        None => match spec_decode_response(data) {
            Some(resp) => {
                if spec_verify(resp, s.network_id, now) is Ok {
                    (m.insert(resp.gossip_addr, spec_info_from_response(resp)), None)
                } else {
                    (m, None)
                }
            },
            None => (m, None),
        },
    }
}

// ---------------------------------------------------------------------
// The listener.
// ---------------------------------------------------------------------

/// Gossip listener state: this node's identity, its network, the
/// address it advertises, and the registry of known peers.
pub struct GossipNode {
    node_pubkey: Pubkey,
    network_id: String,
    local_addr: SocketAddr,
    peer_registry: Vec<GossipNodeInfo>,
}

impl View for GossipNode {
    type V = GossipNodeV;

    closed spec fn view(&self) -> GossipNodeV {
        GossipNodeV {
            node_pubkey: self.node_pubkey@,
            network_id: self.network_id@,
            local_addr: self.local_addr,
            peers: self.peer_registry.deep_view(),
        }
    }
}

impl GossipNode {
    /// Well-formed listener state: the network id fits in a packet (so
    /// every reply this node builds can be encoded), the node identity
    /// is a full key, and registry addresses are unique.
    pub open spec fn wf(&self) -> bool {
        &&& encode_utf8(self@.network_id).len() <= MAX_GOSSIP_PACKET_SIZE
        &&& self@.node_pubkey.len() == 32
        &&& unique_addrs(self@.peers)
    }

    /// The registry as a map from gossip address to peer record.
    pub open spec fn peers_map(&self) -> Map<SocketAddr, GossipNodeInfoV> {
        reg_map(self@.peers)
    }

    /// Creates a listener with an empty registry.  The caller supplies
    /// the address the node is reachable at.
    pub fn new(local_addr: SocketAddr, node_pubkey: Pubkey, network_id: String) -> (r: Self)
        requires
            encode_utf8(network_id@).len() <= MAX_GOSSIP_PACKET_SIZE,
        ensures
            r.wf(),
            r@.node_pubkey == node_pubkey@,
            r@.network_id == network_id@,
            r@.local_addr == local_addr,
            r@.peers == Seq::<GossipNodeInfoV>::empty(),
    {
        proof {
            use_type_invariant(&node_pubkey);
        }
        let r = GossipNode { node_pubkey, network_id, local_addr, peer_registry: Vec::new() };
        proof {
            assert(r@.peers =~= Seq::<GossipNodeInfoV>::empty());
        }
        r
    }

    /// The address this node advertises for gossip.
    pub fn local_addr(&self) -> (r: SocketAddr)
        ensures
            r == self@.local_addr,
    {
        self.local_addr
    }

    /// Adds a peer to the registry or overwrites the entry that shares
    /// its gossip address.
    pub fn register_peer(&mut self, peer_info: GossipNodeInfo)
        requires
            old(self).wf(),
        ensures
            final(self).wf(),
            final(self)@.node_pubkey == old(self)@.node_pubkey,
            final(self)@.network_id == old(self)@.network_id,
            final(self)@.local_addr == old(self)@.local_addr,
            final(self).peers_map() == old(self).peers_map().insert(
                peer_info@.gossip_addr,
                peer_info@,
            ),
    {
        let n = self.peer_registry.len();
        let mut i: usize = 0;
        while i < n
            invariant
                old(self).wf(),
                *self == *old(self),
                i <= n,
                n == self.peer_registry@.len(),
                forall|j: int|
                    0 <= j < i ==> (#[trigger] self.peer_registry.deep_view()[j].gossip_addr)
                        != peer_info@.gossip_addr,
            decreases n - i,
        {
            if self.peer_registry[i].gossip_addr == peer_info.gossip_addr {
                let ghost olds = self.peer_registry.deep_view();
                proof {
                    assert(olds[i as int].gossip_addr == peer_info@.gossip_addr);
                }
                self.peer_registry.set(i, peer_info);
                proof {
                    assert(self.peer_registry.deep_view() =~= olds.update(
                        i as int,
                        peer_info@,
                    ));
                    lemma_reg_map_update(olds, i as int, peer_info@);
                    assert forall|p: int, q: int|
                        0 <= p < q < self.peer_registry.deep_view().len() implies (
                    #[trigger] self.peer_registry.deep_view()[p].gossip_addr) != (
                    #[trigger] self.peer_registry.deep_view()[q].gossip_addr) by {
                        assert(olds[p].gossip_addr != olds[q].gossip_addr);
                    }
                }
                return ;
            }
            i += 1;
        }
        let ghost olds = self.peer_registry.deep_view();
        self.peer_registry.push(peer_info);
        proof {
            assert(self.peer_registry.deep_view() =~= olds.push(peer_info@));
            lemma_reg_map_push(olds, peer_info@);
            assert forall|p: int, q: int|
                0 <= p < q < self.peer_registry.deep_view().len() implies (
            #[trigger] self.peer_registry.deep_view()[p].gossip_addr) != (
            #[trigger] self.peer_registry.deep_view()[q].gossip_addr) by {
                if q < olds.len() {
                    assert(olds[p].gossip_addr != olds[q].gossip_addr);
                } else {
                    assert(olds[p].gossip_addr != peer_info@.gossip_addr);
                }
            }
        }
    }

    /// All registered peers, in registry order.
    pub fn get_peers(&self) -> (r: Vec<GossipNodeInfo>)
        ensures
            r.deep_view() == self@.peers,
    {
        let n = self.peer_registry.len();
        let mut r: Vec<GossipNodeInfo> = Vec::new();
        let mut i: usize = 0;
        while i < n
            invariant
                i <= n,
                n == self.peer_registry@.len(),
                r@.len() == i,
                forall|j: int| 0 <= j < i ==> (#[trigger] r@[j]@) == self.peer_registry@[j]@,
            decreases n - i,
        {
            r.push(self.peer_registry[i].clone());
            i += 1;
        }
        proof {
            assert(r.deep_view() =~= self.peer_registry.deep_view());
        }
        r
    }

    /// The registry entry for an address, if any.
    pub fn get_peer_info(&self, addr: &SocketAddr) -> (r: Option<&GossipNodeInfo>)
        requires
            self.wf(),
        ensures
            match r {
                Some(info) => self.peers_map().contains_key(*addr) && info@ == self.peers_map().index(*addr),
                None => !self.peers_map().contains_key(*addr),
            },
    {
        let n = self.peer_registry.len();
        let mut i: usize = 0;
        while i < n
            invariant
                self.wf(),
                i <= n,
                n == self.peer_registry@.len(),
                forall|j: int|
                    0 <= j < i ==> (#[trigger] self.peer_registry.deep_view()[j].gossip_addr)
                        != *addr,
            decreases n - i,
        {
            if self.peer_registry[i].gossip_addr == *addr {
                proof {
                    lemma_reg_map_index(self.peer_registry.deep_view(), i as int);
                }
                return Some(&self.peer_registry[i]);
            }
            i += 1;
        }
        proof {
            lemma_reg_map_contains(self.peer_registry.deep_view(), *addr);
        }
        None
    }

    /// Encodes a handshake request for sending, enforcing the packet
    /// ceiling: an oversized request is refused with an explicit error
    /// rather than sent.
    pub fn frame_request(&self, request: &HandshakeRequest) -> (r: Result<Vec<u8>, SolanaNodeError>)
        ensures
            match r {
                Ok(v) => request_encodable(request@) && v@ == spec_encode_request(request@)
                    && v@.len() <= MAX_GOSSIP_PACKET_SIZE,
                Err(e) => match e@ {
                    SolanaNodeErrorV::SerializationFailed(m) => !request_encodable(request@) && m
                        == "message does not fit the wire format"@,
                    SolanaNodeErrorV::InvalidPeerData { reason } => request_encodable(request@)
                        && spec_encode_request(request@).len() > MAX_GOSSIP_PACKET_SIZE && reason
                        == "Request too large: "@ + crate::strutil::spec_decimal(
                        spec_encode_request(request@).len(),
                    ) + " bytes"@,
                    _ => false,
                },
            },
    {
        match wire::encode_request(request) {
            Ok(bytes) => {
                if bytes.len() > MAX_GOSSIP_PACKET_SIZE {
                    let reason = "Request too large: ".to_owned().concat(
                        crate::strutil::u64_to_string(bytes.len() as u64).as_str(),
                    ).concat(" bytes");
                    Err(SolanaNodeError::InvalidPeerData { reason })
                } else {
                    Ok(bytes)
                }
            },
            Err(e) => Err(e),
        }
    }

    /// Handles one received datagram at the given time: a decodable
    /// request is answered (and, when it names this node's network, the
    /// sender is registered under its observed address); a decodable
    /// response is validated and, when valid, its sender is registered
    /// under the address advertised in the payload; anything else is
    /// dropped.  The returned bytes, if any, are the reply to send to
    /// the datagram's source.
    pub fn handle_datagram(&mut self, data: &[u8], sender_addr: SocketAddr, now: u64) -> (reply:
        Option<Vec<u8>>)
        requires
            old(self).wf(),
            data@.len() <= MAX_GOSSIP_PACKET_SIZE,
        ensures
            final(self).wf(),
            final(self)@.node_pubkey == old(self)@.node_pubkey,
            final(self)@.network_id == old(self)@.network_id,
            final(self)@.local_addr == old(self)@.local_addr,
            reg_map(final(self)@.peers) == spec_handle(old(self)@, data@, sender_addr, now).0,
            reply.deep_view() == spec_handle(old(self)@, data@, sender_addr, now).1,
    {
        match wire::decode_request(data) {
            Some(request) => {
                proof {
                    wire::lemma_decoded_request_within(data@);
                }
                let reply = self.handle_handshake_request(sender_addr, request, now);
                Some(reply)
            },
            None => {
                match wire::decode_response(data) {
                    Some(response) => {
                        self.handle_handshake_response(response, now);
                        None
                    },
                    None => None,
                }
            },
        }
    }

    /// Answers one decoded request: a matching network id earns a
    /// success response and a registry entry for the sender's observed
    /// address; any other network id earns a failure response naming
    /// both ids, and no registry entry.
    fn handle_handshake_request(
        &mut self,
        sender_addr: SocketAddr,
        request: HandshakeRequest,
        now: u64,
    ) -> (reply: Vec<u8>)
        requires
            old(self).wf(),
            wire::request_within(request@, MAX_GOSSIP_PACKET_SIZE as int),
        ensures
            final(self).wf(),
            final(self)@.node_pubkey == old(self)@.node_pubkey,
            final(self)@.network_id == old(self)@.network_id,
            final(self)@.local_addr == old(self)@.local_addr,
            (if request@.network_id == old(self)@.network_id {
                &&& reg_map(final(self)@.peers) == reg_map(old(self)@.peers).insert(
                    sender_addr,
                    spec_peer_from_request(request@, sender_addr),
                )
                &&& reply@ == spec_encode_response(
                    spec_success_response(old(self)@, request@, now),
                )
            } else {
                &&& reg_map(final(self)@.peers) == reg_map(old(self)@.peers)
                &&& reply@ == spec_encode_response(
                    spec_failure_response(old(self)@, request@, now),
                )
            }),
    {
        proof {
            use_type_invariant(&self.node_pubkey);
            reveal_strlit("1.18.0");
            reveal_strlit("gossip");
            reveal_strlit("handshake");
            reveal_strlit("Network ID mismatch: expected ");
            reveal_strlit(", got ");
            lemma_encode_utf8_len("1.18.0"@);
            lemma_encode_utf8_len("gossip"@);
            lemma_encode_utf8_len("handshake"@);
            lemma_encode_utf8_len("Network ID mismatch: expected "@);
            lemma_encode_utf8_len(", got "@);
        }
        if !str_eq(request.network_id.as_str(), self.network_id.as_str()) {
            let message = "Network ID mismatch: expected ".to_owned().concat(
                self.network_id.as_str(),
            ).concat(", got ").concat(request.network_id.as_str());
            proof {
                assert(message@ == spec_mismatch_message(self@.network_id, request@.network_id));
                lemma_encode_utf8_concat("Network ID mismatch: expected "@, self@.network_id);
                lemma_encode_utf8_concat(
                    "Network ID mismatch: expected "@ + self@.network_id,
                    ", got "@,
                );
                lemma_encode_utf8_concat(
                    "Network ID mismatch: expected "@ + self@.network_id + ", got "@,
                    request@.network_id,
                );
            }
            let mut failure_caps: Vec<String> = Vec::new();
            failure_caps.push("gossip".to_owned());
            let error_response = HandshakeResponse {
                peer_pubkey: self.node_pubkey.clone(),
                protocol_version: crate::solana::domain::DEFAULT_PROTOCOL_VERSION.to_owned(),
                network_id: self.network_id.clone(),
                gossip_addr: self.local_addr,
                capabilities: failure_caps,
                timestamp: now,
                success: false,
                error_message: Some(message),
            };
            proof {
                assert(error_response@.capabilities =~= seq!["gossip"@]);
                assert(error_response@ =~= spec_failure_response(old(self)@, request@, now));
                assert(str_list_ok(error_response@.capabilities)) by {
                    assert(error_response@.capabilities[0] == "gossip"@);
                }
                assert(response_encodable(error_response@));
            }
            let reply = match wire::encode_response(&error_response) {
                Ok(v) => v,
                Err(_) => {
                    proof {
                        assert(false);
                    }
                    Vec::new()
                },
            };
            return reply;
        }
        let response = HandshakeResponse {
            peer_pubkey: self.node_pubkey.clone(),
            protocol_version: request.protocol_version.clone(),
            network_id: self.network_id.clone(),
            gossip_addr: self.local_addr,
            capabilities: crate::solana::domain::default_capabilities(),
            timestamp: now,
            success: true,
            error_message: None,
        };
        proof {
            assert(response@ =~= spec_success_response(old(self)@, request@, now));
            assert(str_list_ok(response@.capabilities)) by {
                assert(response@.capabilities[0] == "gossip"@);
                assert(response@.capabilities[1] == "handshake"@);
            }
            assert(response_encodable(response@));
        }
        let peer_info = GossipNodeInfo {
            peer_pubkey: request.node_pubkey,
            gossip_addr: sender_addr,
            protocol_version: request.protocol_version,
            network_id: request.network_id,
            capabilities: request.capabilities,
            last_seen: request.timestamp,
            connection_status: ConnectionStatus::Connected,
        };
        proof {
            assert(peer_info@ == spec_peer_from_request(request@, sender_addr));
        }
        self.register_peer(peer_info);
        match wire::encode_response(&response) {
            Ok(v) => v,
            Err(_) => {
                proof {
                    assert(false);
                }
                Vec::new()
            },
        }
    }

    /// Validates one decoded response against this node's network id
    /// and, when it validates, registers the peer under the gossip
    /// address advertised in the payload; an invalid response changes
    /// nothing (the listener drops it and carries on).
    fn handle_handshake_response(&mut self, response: HandshakeResponse, now: u64)
        requires
            old(self).wf(),
        ensures
            final(self).wf(),
            final(self)@.node_pubkey == old(self)@.node_pubkey,
            final(self)@.network_id == old(self)@.network_id,
            final(self)@.local_addr == old(self)@.local_addr,
            reg_map(final(self)@.peers) == (if spec_verify(
                response@,
                old(self)@.network_id,
                now,
            ) is Ok {
                reg_map(old(self)@.peers).insert(
                    response@.gossip_addr,
                    spec_info_from_response(response@),
                )
            } else {
                reg_map(old(self)@.peers)
            }),
    {
        let verdict = response.verify_at(self.network_id.as_str(), now);
        if verdict.is_ok() {
            let info = GossipNodeInfo::from_handshake_response(response);
            self.register_peer(info);
        }
    }
}

} // verus!
