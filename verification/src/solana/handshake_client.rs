//! Handshake client: a state machine that runs one request/response
//! exchange per target with per-attempt timeout, bounded retries,
//! exponential backoff, and early exit on non-retryable errors.
//!
//! The machine is pure: the embedding application performs each returned
//! action (send, await, sleep) on its socket and clock, and feeds the
//! outcome back as the next event.  Batch bookkeeping pairs each target
//! address with exactly one result.

use vstd::prelude::*;

verus! {

use crate::solana::domain::{
    GossipNodeInfo,
    GossipNodeInfoV,
    HandshakeRequest,
    HandshakeRequestV,
    Pubkey,
    SocketAddr,
    SolanaNodeError,
    SolanaNodeErrorV,
    spec_info_from_response,
    spec_request_for,
    spec_retryable,
    spec_verify,
};
use crate::solana::network;
use crate::solana::wire;
use crate::solana::wire::{
    request_encodable,
    spec_decode_response,
    spec_encode_request,
    str_list_ok,
};
use crate::solana::gossip_node::{
    reg_map,
    spec_handle,
    spec_peer_from_request,
    spec_success_response,
    GossipNodeV,
};
use crate::strutil::{str_eq, lemma_encode_utf8_len};

/// Result type for handshake operations.
pub type HandshakeResult<T> = Result<T, SolanaNodeError>;

/// Default timeout for handshake operations (15 seconds).
pub const HANDSHAKE_TIMEOUT_MS: u64 = 15000;

/// Default maximum number of handshake attempts.
pub const MAX_HANDSHAKE_RETRIES: u8 = 3;

// ---------------------------------------------------------------------
// The client and its exchange state machine.
// ---------------------------------------------------------------------

/// Handshake client configuration: this node's identity, the network it
/// speaks for, the per-operation timeout, and the attempt budget.
pub struct HandshakeClient {
    node_pubkey: Pubkey,
    network_id: String,
    operation_timeout_ms: u64,
    max_retries: u8,
}

/// Mathematical value of a [`HandshakeClient`].
pub ghost struct HandshakeClientV {
    pub node_pubkey: Seq<u8>,
    pub network_id: Seq<char>,
    pub operation_timeout_ms: u64,
    pub max_retries: u8,
}

impl View for HandshakeClient {
    type V = HandshakeClientV;

    closed spec fn view(&self) -> HandshakeClientV {
        HandshakeClientV {
            node_pubkey: self.node_pubkey@,
            network_id: self.network_id@,
            operation_timeout_ms: self.operation_timeout_ms,
            max_retries: self.max_retries,
        }
    }
}

/// Where an exchange stands.
#[derive(Clone, Copy, Debug, PartialEq, Eq, Structural)]
pub enum ExchangePhase {
    /// A request is being sent.
    Sending,
    /// A reply is awaited.
    AwaitingResponse,
    /// The machine sleeps before the next attempt.
    BackingOff,
    /// The exchange ended, in success or failure.
    Finished,
}

/// Progress of one exchange against one target.
pub struct HandshakeExchange {
    attempt: u8,
    phase: ExchangePhase,
    last_error: Option<SolanaNodeError>,
}

/// Mathematical value of a [`HandshakeExchange`].
pub ghost struct HandshakeExchangeV {
    pub attempt: u8,
    pub phase: ExchangePhase,
    pub last_error: Option<SolanaNodeErrorV>,
}

impl View for HandshakeExchange {
    type V = HandshakeExchangeV;

    closed spec fn view(&self) -> HandshakeExchangeV {
        HandshakeExchangeV {
            attempt: self.attempt,
            phase: self.phase,
            last_error: match self.last_error {
                Some(ref e) => Some(e@),
                None => None,
            },
        }
    }
}

impl HandshakeExchange {
    /// The phase this exchange is in.
    pub fn phase(&self) -> (r: ExchangePhase)
        ensures
            r == self@.phase,
    {
        self.phase
    }
}

/// What the outside world reports back to the machine.
#[derive(Debug)]
pub enum ClientEvent {
    /// The request datagram went out.
    SendCompleted,
    /// A datagram arrived; `now` is the clock at arrival.
    Received { data: Vec<u8>, now: u64 },
    /// Sending or receiving failed with a transport error.
    IoFailed { message: String },
    /// The operation timeout elapsed.
    TimedOut,
    /// The backoff sleep finished; `now` is the clock after it.
    Slept { now: u64 },
}

/// Mathematical value of a [`ClientEvent`].
pub ghost enum ClientEventV {
    SendCompleted,
    Received { data: Seq<u8>, now: u64 },
    IoFailed { message: Seq<char> },
    TimedOut,
    Slept { now: u64 },
}

impl View for ClientEvent {
    type V = ClientEventV;

    open spec fn view(&self) -> ClientEventV {
        match self {
            ClientEvent::SendCompleted => ClientEventV::SendCompleted,
            ClientEvent::Received { data, now } => ClientEventV::Received {
                data: data@,
                now: *now,
            },
            ClientEvent::IoFailed { message } => ClientEventV::IoFailed { message: message@ },
            ClientEvent::TimedOut => ClientEventV::TimedOut,
            ClientEvent::Slept { now } => ClientEventV::Slept { now: *now },
        }
    }
}

/// What the machine asks the outside world to do next.
#[derive(Debug)]
pub enum ClientAction {
    /// Send this request datagram to the target.
    SendRequest { payload: Vec<u8> },
    /// Await a reply for at most this long.
    AwaitResponse { timeout_ms: u64 },
    /// Sleep this long before the next attempt.
    Backoff { delay_secs: u64 },
    /// The exchange succeeded with this peer record.
    Succeed { peer: GossipNodeInfo },
    /// The exchange failed for good with this error.
    Fail { error: SolanaNodeError },
}

/// Mathematical value of a [`ClientAction`].
pub ghost enum ClientActionV {
    SendRequest { payload: Seq<u8> },
    AwaitResponse { timeout_ms: u64 },
    Backoff { delay_secs: u64 },
    Succeed { peer: GossipNodeInfoV },
    Fail { error: SolanaNodeErrorV },
}

impl View for ClientAction {
    type V = ClientActionV;

    open spec fn view(&self) -> ClientActionV {
        match self {
            ClientAction::SendRequest { payload } => ClientActionV::SendRequest {
                payload: payload@,
            },
            ClientAction::AwaitResponse { timeout_ms } => ClientActionV::AwaitResponse {
                timeout_ms: *timeout_ms,
            },
            ClientAction::Backoff { delay_secs } => ClientActionV::Backoff {
                delay_secs: *delay_secs,
            },
            ClientAction::Succeed { peer } => ClientActionV::Succeed { peer: peer@ },
            ClientAction::Fail { error } => ClientActionV::Fail { error: error@ },
        }
    }
}

// ---------------------------------------------------------------------
// The transition function, as mathematics.
// ---------------------------------------------------------------------

/// The request a client sends: the canonical request of the network it
/// is configured for; any network other than testnet or mainnet-beta
/// gets the local-development request.
pub open spec fn spec_client_request(c: HandshakeClientV, now: u64) -> HandshakeRequestV {
    if c.network_id == network::MAINNET_BETA@ {
        spec_request_for(c.node_pubkey, now, network::MAINNET_BETA@)
    } else if c.network_id == network::TESTNET@ {
        spec_request_for(c.node_pubkey, now, network::TESTNET@)
    } else {
        spec_request_for(c.node_pubkey, now, network::LOCALNET@)
    }
}

/// Exponential backoff: one second after the first attempt, doubling
/// with each further attempt.
pub open spec fn spec_backoff_secs(attempt: u8) -> u64
    recommends
        1 <= attempt <= 64,
{
    1u64 << ((attempt - 1) as u64)
}

/// A valid exchange state for a client: attempt numbers start at one
/// and never pass the attempt budget.
pub open spec fn exchange_inv(c: HandshakeClientV, s: HandshakeExchangeV) -> bool {
    &&& c.max_retries <= 64
    &&& (s.phase != ExchangePhase::Finished ==> 1 <= s.attempt <= c.max_retries)
    &&& (s.phase == ExchangePhase::BackingOff ==> s.attempt < c.max_retries)
}

/// Which events fit which phase: the driver answers a send with its
/// outcome, a wait with a datagram or a timeout, a backoff with a wake.
pub open spec fn event_fits(s: HandshakeExchangeV, ev: ClientEventV) -> bool {
    match s.phase {
        ExchangePhase::Sending => ev is SendCompleted || ev is IoFailed || ev is TimedOut,
        ExchangePhase::AwaitingResponse => ev is Received || ev is IoFailed || ev is TimedOut,
        ExchangePhase::BackingOff => ev is Slept,
        ExchangePhase::Finished => false,
    }
}

/// How a failed attempt proceeds: a non-retryable error, or one on the
/// last allowed attempt, ends the exchange with that error; otherwise
/// the machine records the error and backs off exponentially.
pub open spec fn spec_attempt_failed(
    c: HandshakeClientV,
    s: HandshakeExchangeV,
    e: SolanaNodeErrorV,
) -> (HandshakeExchangeV, ClientActionV) {
    if !spec_retryable(e) || s.attempt >= c.max_retries {
        (
            HandshakeExchangeV {
                attempt: s.attempt,
                phase: ExchangePhase::Finished,
                last_error: Some(e),
            },
            ClientActionV::Fail { error: e },
        )
    } else {
        (
            HandshakeExchangeV {
                attempt: s.attempt,
                phase: ExchangePhase::BackingOff,
                last_error: Some(e),
            },
            ClientActionV::Backoff { delay_secs: spec_backoff_secs(s.attempt) },
        )
    }
}

/// The transition function of the exchange: what one event does to the
/// state and which action follows.
pub open spec fn spec_step(c: HandshakeClientV, s: HandshakeExchangeV, ev: ClientEventV) -> (
    HandshakeExchangeV,
    ClientActionV,
)
    recommends
        event_fits(s, ev),
{
    match ev {
        ClientEventV::SendCompleted => (
            HandshakeExchangeV {
                attempt: s.attempt,
                phase: ExchangePhase::AwaitingResponse,
                last_error: s.last_error,
            },
            ClientActionV::AwaitResponse { timeout_ms: c.operation_timeout_ms },
        ),
        ClientEventV::IoFailed { message } => spec_attempt_failed(
            c,
            s,
            SolanaNodeErrorV::NetworkError { message },
        ),
        ClientEventV::TimedOut => spec_attempt_failed(c, s, SolanaNodeErrorV::TimeoutError),
        ClientEventV::Received { data, now } => match spec_decode_response(data) {
            None => spec_attempt_failed(
                c,
                s,
                SolanaNodeErrorV::InvalidPeerData {
                    reason: "Failed to deserialize response"@,
                },
            ),
            Some(resp) => match spec_verify(resp, c.network_id, now) {
                Ok(_) => (
                    HandshakeExchangeV {
                        attempt: s.attempt,
                        phase: ExchangePhase::Finished,
                        last_error: s.last_error,
                    },
                    ClientActionV::Succeed { peer: spec_info_from_response(resp) },
                ),
                Err(e) => spec_attempt_failed(c, s, e),
            },
        },
        ClientEventV::Slept { now } => (
            HandshakeExchangeV {
                attempt: (s.attempt + 1) as u8,
                phase: ExchangePhase::Sending,
                last_error: s.last_error,
            },
            ClientActionV::SendRequest {
                payload: spec_encode_request(spec_client_request(c, now)),
            },
        ),
    }
}

/// How an exchange starts: with no attempts allowed it fails at once
/// with the generic exhaustion error; otherwise attempt one sends the
/// request stamped `now`.
pub open spec fn spec_start(c: HandshakeClientV, now: u64) -> (
    HandshakeExchangeV,
    ClientActionV,
) {
    if c.max_retries == 0 {
        (
            HandshakeExchangeV {
                attempt: 0,
                phase: ExchangePhase::Finished,
                last_error: None,
            },
            ClientActionV::Fail {
                error: SolanaNodeErrorV::HandshakeError {
                    message: "Handshake failed after maximum retries"@,
                },
            },
        )
    } else {
        (
            HandshakeExchangeV { attempt: 1, phase: ExchangePhase::Sending, last_error: None },
            ClientActionV::SendRequest {
                payload: spec_encode_request(spec_client_request(c, now)),
            },
        )
    }
}


// ---------------------------------------------------------------------
// The client, executable.
// ---------------------------------------------------------------------

impl HandshakeClient {
    /// A usable client: the attempt budget fits the 64-bit backoff.
    pub open spec fn wf(&self) -> bool {
        self@.max_retries <= 64
    }

    /// Creates a client with the default timeout and retry budget.
    pub fn new(node_pubkey: Pubkey, network_id: String) -> (r: Self)
        ensures
            r.wf(),
            r@.node_pubkey == node_pubkey@,
            r@.network_id == network_id@,
            r@.operation_timeout_ms == HANDSHAKE_TIMEOUT_MS,
            r@.max_retries == MAX_HANDSHAKE_RETRIES,
    {
        HandshakeClient {
            node_pubkey,
            network_id,
            operation_timeout_ms: HANDSHAKE_TIMEOUT_MS,
            max_retries: MAX_HANDSHAKE_RETRIES,
        }
    }

    /// Creates a client with a custom timeout and retry budget.  The
    /// budget is capped at 64 attempts: the backoff doubles with each
    /// attempt and is held in 64 bits.
    pub fn with_config(
        node_pubkey: Pubkey,
        network_id: String,
        operation_timeout_ms: u64,
        max_retries: u8,
    ) -> (r: Self)
        requires
            max_retries <= 64,
        ensures
            r.wf(),
            r@.node_pubkey == node_pubkey@,
            r@.network_id == network_id@,
            r@.operation_timeout_ms == operation_timeout_ms,
            r@.max_retries == max_retries,
    {
        HandshakeClient { node_pubkey, network_id, operation_timeout_ms, max_retries }
    }

    /// The request this client sends, stamped with the given time.
    fn build_request(&self, now: u64) -> (r: HandshakeRequest)
        ensures
            r@ == spec_client_request(self@, now),
    {
        if str_eq(self.network_id.as_str(), network::MAINNET_BETA) {
            let mut request = HandshakeRequest::new_local_at(self.node_pubkey.clone(), now);
            request.network_id = network::MAINNET_BETA.to_owned();
            proof {
                assert(request@ =~= spec_request_for(
                    self@.node_pubkey,
                    now,
                    network::MAINNET_BETA@,
                ));
            }
            request
        } else if str_eq(self.network_id.as_str(), network::TESTNET) {
            let mut request = HandshakeRequest::new_local_at(self.node_pubkey.clone(), now);
            request.network_id = network::TESTNET.to_owned();
            proof {
                assert(request@ =~= spec_request_for(self@.node_pubkey, now, network::TESTNET@));
            }
            request
        } else {
            let request = HandshakeRequest::new_local_at(self.node_pubkey.clone(), now);
            proof {
                assert(request@ =~= spec_request_for(self@.node_pubkey, now, network::LOCALNET@));
            }
            request
        }
    }

    /// The encoded request this client sends, stamped with the given
    /// time.  A client request always fits the wire format: its strings
    /// are the fixed protocol constants.
    fn request_payload(&self, now: u64) -> (r: Vec<u8>)
        ensures
            r@ == spec_encode_request(spec_client_request(self@, now)),
    {
        let request = self.build_request(now);
        proof {
            use_type_invariant(&request.node_pubkey);
            reveal_strlit("1.18.0");
            reveal_strlit("gossip");
            reveal_strlit("handshake");
            reveal_strlit("localnet");
            reveal_strlit("testnet");
            reveal_strlit("mainnet-beta");
            lemma_encode_utf8_len("1.18.0"@);
            lemma_encode_utf8_len("gossip"@);
            lemma_encode_utf8_len("handshake"@);
            lemma_encode_utf8_len("localnet"@);
            lemma_encode_utf8_len("testnet"@);
            lemma_encode_utf8_len("mainnet-beta"@);
            assert(str_list_ok(request@.capabilities)) by {
                assert(request@.capabilities[0] == "gossip"@);
                assert(request@.capabilities[1] == "handshake"@);
            }
            assert(request_encodable(request@));
        }
        match wire::encode_request(&request) {
            Ok(v) => v,
            Err(_) => {
                proof {
                    assert(false);
                }
                Vec::new()
            },
        }
    }

    /// Starts one exchange at the given time: the machine either sends
    /// the first request, or fails at once when no attempts are allowed.
    pub fn start_exchange(&self, now: u64) -> (r: (HandshakeExchange, ClientAction))
        requires
            self.wf(),
        ensures
            r.0@ == spec_start(self@, now).0,
            r.1@ == spec_start(self@, now).1,
            exchange_inv(self@, r.0@),
    {
        if self.max_retries == 0 {
            (
                HandshakeExchange {
                    attempt: 0,
                    phase: ExchangePhase::Finished,
                    last_error: None,
                },
                ClientAction::Fail {
                    error: SolanaNodeError::HandshakeError {
                        message: "Handshake failed after maximum retries".to_owned(),
                    },
                },
            )
        } else {
            let payload = self.request_payload(now);
            (
                HandshakeExchange {
                    attempt: 1,
                    phase: ExchangePhase::Sending,
                    last_error: None,
                },
                ClientAction::SendRequest { payload },
            )
        }
    }

    /// Moves one exchange forward by one event and says what to do
    /// next.  The transition is exactly [`spec_step`].
    pub fn step(&self, state: &mut HandshakeExchange, event: ClientEvent) -> (action: ClientAction)
        requires
            self.wf(),
            exchange_inv(self@, old(state)@),
            old(state)@.phase != ExchangePhase::Finished,
            event_fits(old(state)@, event@),
        ensures
            final(state)@ == spec_step(self@, old(state)@, event@).0,
            action@ == spec_step(self@, old(state)@, event@).1,
            exchange_inv(self@, final(state)@),
    {
        match event {
            ClientEvent::SendCompleted => {
                state.phase = ExchangePhase::AwaitingResponse;
                ClientAction::AwaitResponse { timeout_ms: self.operation_timeout_ms }
            },
            ClientEvent::IoFailed { message } => self.attempt_failed(
                state,
                SolanaNodeError::NetworkError { message },
            ),
            ClientEvent::TimedOut => self.attempt_failed(state, SolanaNodeError::TimeoutError),
            ClientEvent::Received { data, now } => {
                match wire::decode_response(data.as_slice()) {
                    None => self.attempt_failed(
                        state,
                        SolanaNodeError::InvalidPeerData {
                            reason: "Failed to deserialize response".to_owned(),
                        },
                    ),
                    Some(response) => {
                        match response.verify_at(self.network_id.as_str(), now) {
                            Ok(_) => {
                                state.phase = ExchangePhase::Finished;
                                ClientAction::Succeed {
                                    peer: GossipNodeInfo::from_handshake_response(response),
                                }
                            },
                            Err(e) => self.attempt_failed(state, e),
                        }
                    },
                }
            },
            ClientEvent::Slept { now } => {
                state.attempt = state.attempt + 1;
                state.phase = ExchangePhase::Sending;
                ClientAction::SendRequest { payload: self.request_payload(now) }
            },
        }
    }

    /// Books one failed attempt: ends the exchange on a non-retryable
    /// error or on the last allowed attempt, else backs off.
    fn attempt_failed(&self, state: &mut HandshakeExchange, error: SolanaNodeError) -> (action:
        ClientAction)
        requires
            self.wf(),
            exchange_inv(self@, old(state)@),
            old(state)@.phase != ExchangePhase::Finished,
        ensures
            final(state)@ == spec_attempt_failed(self@, old(state)@, error@).0,
            action@ == spec_attempt_failed(self@, old(state)@, error@).1,
            exchange_inv(self@, final(state)@),
    {
        let retryable = error.is_retryable();
        if !retryable || state.attempt >= self.max_retries {
            state.phase = ExchangePhase::Finished;
            state.last_error = Some(error.clone());
            ClientAction::Fail { error }
        } else {
            let delay_secs: u64 = 1u64 << ((state.attempt - 1) as u64);
            state.phase = ExchangePhase::BackingOff;
            state.last_error = Some(error.clone());
            ClientAction::Backoff { delay_secs }
        }
    }
}

// ---------------------------------------------------------------------
// Batch bookkeeping: one result per target address.
// ---------------------------------------------------------------------

/// View of one recorded outcome.
pub open spec fn result_view(r: Result<GossipNodeInfo, SolanaNodeError>) -> Result<
    GossipNodeInfoV,
    SolanaNodeErrorV,
> {
    match r {
        Ok(p) => Ok(p@),
        Err(e) => Err(e@),
    }
}

/// View of a sequence of recorded (address, outcome) pairs.
pub open spec fn pairs_view(s: Seq<(SocketAddr, Result<GossipNodeInfo, SolanaNodeError>)>) -> Seq<
    (SocketAddr, Result<GossipNodeInfoV, SolanaNodeErrorV>),
> {
    Seq::new(s.len(), |i: int| (s[i].0, result_view(s[i].1)))
}

/// Bookkeeping for a batch of handshakes: each target address of the
/// batch ends up paired with exactly one result, in input order, and
/// one target's failure never disturbs another's entry.
pub struct BatchHandshakes {
    targets: Vec<SocketAddr>,
    results: Vec<(SocketAddr, Result<GossipNodeInfo, SolanaNodeError>)>,
}

impl BatchHandshakes {
    /// The target addresses, in input order.
    pub closed spec fn targets_view(&self) -> Seq<SocketAddr> {
        self.targets@
    }

    /// The outcomes recorded so far, each tagged with its address.
    pub closed spec fn results_view(&self) -> Seq<
        (SocketAddr, Result<GossipNodeInfoV, SolanaNodeErrorV>),
    > {
        pairs_view(self.results@)
    }

    /// Results never outnumber targets, and the i-th result is tagged
    /// with the i-th target address.
    pub open spec fn wf(&self) -> bool {
        &&& self.results_view().len() <= self.targets_view().len()
        &&& forall|i: int|
            0 <= i < self.results_view().len() ==> (#[trigger] self.results_view()[i]).0
                == self.targets_view()[i]
    }

    /// All targets have a result.
    pub open spec fn done(&self) -> bool {
        self.results_view().len() == self.targets_view().len()
    }

    /// Starts a batch over the given targets, with no results yet.
    pub fn new(targets: Vec<SocketAddr>) -> (r: Self)
        ensures
            r.wf(),
            r.targets_view() == targets@,
            r.results_view() == Seq::<
                (SocketAddr, Result<GossipNodeInfoV, SolanaNodeErrorV>),
            >::empty(),
    {
        let r = BatchHandshakes { targets, results: Vec::new() };
        proof {
            assert(r.results_view() =~= Seq::<
                (SocketAddr, Result<GossipNodeInfoV, SolanaNodeErrorV>),
            >::empty());
        }
        r
    }

    /// The next address to exchange with, in input order; nothing when
    /// every target has its result.
    pub fn next_target(&self) -> (r: Option<SocketAddr>)
        requires
            self.wf(),
        ensures
            match r {
                Some(a) => !self.done() && a == self.targets_view()[
                    self.results_view().len() as int
                ],
                None => self.done(),
            },
    {
        if self.results.len() < self.targets.len() {
            Some(self.targets[self.results.len()])
        } else {
            None
        }
    }

    /// Records the outcome of the exchange with the next address.
    pub fn record(&mut self, result: Result<GossipNodeInfo, SolanaNodeError>)
        requires
            old(self).wf(),
            !old(self).done(),
        ensures
            final(self).wf(),
            final(self).targets_view() == old(self).targets_view(),
            final(self).results_view() == old(self).results_view().push(
                (
                    old(self).targets_view()[old(self).results_view().len() as int],
                    result_view(result),
                ),
            ),
    {
        let addr = self.targets[self.results.len()];
        self.results.push((addr, result));
        proof {
            assert(self.results_view() =~= old(self).results_view().push(
                (
                    old(self).targets_view()[old(self).results_view().len() as int],
                    result_view(self.results@[self.results@.len() - 1].1),
                ),
            ));
        }
    }

    /// Hands out the recorded (address, result) pairs: when the batch
    /// ran to completion, exactly one per input address, in input order.
    pub fn into_results(self) -> (r: Vec<(SocketAddr, Result<GossipNodeInfo, SolanaNodeError>)>)
        ensures
            pairs_view(r@) == self.results_view(),
    {
        self.results
    }
}

// ---------------------------------------------------------------------
// Laws of the exchange.
// ---------------------------------------------------------------------

/// The total backoff a run sleeps when its first `n` attempts all fail
/// with retryable errors: the sum of the per-attempt backoffs.
pub open spec fn spec_backoff_total(n: int) -> int
    decreases n,
{
    if n <= 0 {
        0
    } else {
        spec_backoff_total(n - 1) + spec_backoff_secs(n as u8)
    }
}

/// LAW: a network-identity mismatch is terminal.  Whatever the attempt
/// number, when the awaited datagram decodes to a response whose
/// validation fails with the identity-mismatch error, the machine ends
/// the exchange with that error at once: no backoff, no retry.
pub proof fn lemma_mismatch_aborts(
    c: HandshakeClientV,
    s: HandshakeExchangeV,
    data: Seq<u8>,
    now: u64,
)
    requires
        exchange_inv(c, s),
        s.phase == ExchangePhase::AwaitingResponse,
        spec_decode_response(data) is Some,
        spec_verify(spec_decode_response(data).unwrap(), c.network_id, now) is Err,
        spec_verify(spec_decode_response(data).unwrap(), c.network_id, now)->Err_0
            is ProtocolVersionMismatch,
    ensures
        spec_step(c, s, ClientEventV::Received { data, now }).0.phase == ExchangePhase::Finished,
        spec_step(c, s, ClientEventV::Received { data, now }).1 == (ClientActionV::Fail {
            error: spec_verify(spec_decode_response(data).unwrap(), c.network_id, now)->Err_0,
        }),
{
}

/// LAW: the backoff schedule is exponential.  A retryable failure on
/// attempt `k`, with attempts left, makes the machine sleep exactly
/// `2^(k-1)` seconds before attempt `k+1`.
pub proof fn lemma_backoff_on_retry(
    c: HandshakeClientV,
    s: HandshakeExchangeV,
    e: SolanaNodeErrorV,
)
    requires
        exchange_inv(c, s),
        s.phase != ExchangePhase::Finished,
        spec_retryable(e),
        s.attempt < c.max_retries,
    ensures
        spec_attempt_failed(c, s, e).1 == (ClientActionV::Backoff {
            delay_secs: spec_backoff_secs(s.attempt),
        }),
        spec_attempt_failed(c, s, e).0.phase == ExchangePhase::BackingOff,
{
}

/// LAW: a run of three attempts that all fail retryably sleeps one
/// second after the first attempt and two after the second, three
/// seconds of backoff in all, before the final error is returned.
pub proof fn lemma_three_attempt_backoff()
    ensures
        spec_backoff_secs(1) == 1,
        spec_backoff_secs(2) == 2,
        spec_backoff_total(2) == 3,
{
    assert(1u64 << 0u64 == 1) by (bit_vector);
    assert(1u64 << 1u64 == 2) by (bit_vector);
    assert(spec_backoff_secs(1) == 1u64 << 0u64);
    assert(spec_backoff_secs(2) == 1u64 << 1u64);
    assert(spec_backoff_total(0) == 0);
    assert(spec_backoff_total(1) == spec_backoff_total(0) + spec_backoff_secs(1));
    assert(spec_backoff_total(2) == spec_backoff_total(1) + spec_backoff_secs(2));
}

/// LAW: closed form of the total backoff.  When every one of the first
/// `n` attempts fails with a retryable error, the machine sleeps
/// `2^n - 1` seconds in all.
pub proof fn lemma_backoff_total_closed(n: u64)
    requires
        n <= 63,
    ensures
        spec_backoff_total(n as int) == (1u64 << n) - 1,
    decreases n,
{
    if n == 0 {
        assert(1u64 << 0u64 == 1) by (bit_vector);
    } else {
        lemma_backoff_total_closed((n - 1) as u64);
        let k = n;
        assert(1 <= k <= 63 ==> 1u64 << ((k - 1) as u64) == (1u64 << k) / 2 && (1u64 << k) >= 2 && (
        1u64 << k) == 2 * (1u64 << ((k - 1) as u64))) by (bit_vector);
        assert(spec_backoff_secs(n as u8) == 1u64 << ((n - 1) as u64));
    }
}


/// LAW: peers that agree on a recognised network id complete a
/// handshake.  Take a client and a listener configured for the same
/// network id, one of `localnet`, `testnet` or `mainnet-beta`.  The
/// packet the client sends, handled by the listener at some instant,
/// registers the client's observed address in the listener's registry
/// and produces a reply; and that reply, received by the client's
/// machine while it is still fresh, ends the exchange in success with
/// the listener's peer record.
pub proof fn lemma_agreeing_peers_shake_hands(
    c: HandshakeClientV,
    s: GossipNodeV,
    exchange: HandshakeExchangeV,
    sender: SocketAddr,
    send_time: u64,
    handle_time: u64,
    reply_time: u64,
)
    requires
        exchange_inv(c, exchange),
        exchange.phase == ExchangePhase::AwaitingResponse,
        c.network_id == s.network_id,
        c.network_id == "localnet"@ || c.network_id == "testnet"@ || c.network_id
            == "mainnet-beta"@,
        c.node_pubkey.len() == 32,
        s.node_pubkey.len() == 32,
        vstd::utf8::encode_utf8(s.network_id).len() <= u32::MAX,
        crate::solana::domain::spec_age(reply_time, handle_time)
            <= crate::solana::domain::MAX_RESPONSE_AGE_SECS,
    ensures
        ({
            let req = spec_client_request(c, send_time);
            let packet = spec_encode_request(req);
            let handled = spec_handle(s, packet, sender, handle_time);
            let resp = spec_success_response(s, req, handle_time);
            &&& handled.0 == reg_map(s.peers).insert(sender, spec_peer_from_request(req, sender))
            &&& handled.1 == Some(wire::spec_encode_response(resp))
            &&& spec_step(
                c,
                exchange,
                ClientEventV::Received { data: wire::spec_encode_response(resp), now: reply_time },
            ).0.phase == ExchangePhase::Finished
            &&& spec_step(
                c,
                exchange,
                ClientEventV::Received { data: wire::spec_encode_response(resp), now: reply_time },
            ).1 == (ClientActionV::Succeed { peer: spec_info_from_response(resp) })
        }),
{
    reveal_strlit("1.18.0");
    reveal_strlit("gossip");
    reveal_strlit("handshake");
    reveal_strlit("localnet");
    reveal_strlit("testnet");
    reveal_strlit("mainnet-beta");
    lemma_encode_utf8_len("1.18.0"@);
    lemma_encode_utf8_len("gossip"@);
    lemma_encode_utf8_len("handshake"@);
    lemma_encode_utf8_len("localnet"@);
    lemma_encode_utf8_len("testnet"@);
    lemma_encode_utf8_len("mainnet-beta"@);
    let req = spec_client_request(c, send_time);
    assert(req.network_id == c.network_id);
    assert(request_encodable(req)) by {
        assert(req.capabilities[0] == "gossip"@);
        assert(req.capabilities[1] == "handshake"@);
    }
    let packet = spec_encode_request(req);
    wire::lemma_request_round_trip(req);
    assert(wire::spec_decode_request(packet) == Some(req));
    let resp = spec_success_response(s, req, handle_time);
    assert(wire::response_encodable(resp)) by {
        assert(resp.capabilities[0] == "gossip"@);
        assert(resp.capabilities[1] == "handshake"@);
    }
    wire::lemma_response_round_trip(resp);
    assert(spec_decode_response(wire::spec_encode_response(resp)) == Some(resp));
    assert(spec_verify(resp, c.network_id, reply_time) is Ok);
}

} // verus!
