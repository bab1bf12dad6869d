//! Configuration for the handshake application: the argument record,
//! its validation rules, and the enumerations the arguments parse into.
//! The embedding application owns the actual command line; this module
//! holds the rules it must apply.

use vstd::prelude::*;

verus! {

use vstd::string::StringSliceAdditionalSpecFns;
use vstd::string::StringExecFns;
use vstd::string::StrSliceExecFns;
use vstd::utf8::encode_utf8;
use crate::strutil::{eq_ignore_ascii_case, token_eq};

/// Arguments of the handshake application, already parsed into plain
/// values.
#[derive(Debug, Clone)]
pub struct Args {
    /// Local address to bind for UDP communication.
    pub bind_address: String,
    /// Network to connect to.
    pub network_id: NetworkId,
    /// Remote peer addresses to perform handshakes with.
    pub peer_addresses: Vec<String>,
    /// Timeout for network operations, in seconds.
    pub timeout_secs: u16,
    /// Maximum number of retry attempts for failed handshakes.
    pub max_retries: u8,
    /// Application mode: client or server.
    pub mode: ApplicationMode,
    /// Log level for application output.
    pub log_level: LogLevel,
    /// Log output format.
    pub log_format: LogFormat,
    /// Keep the application running, repeating the handshakes.
    pub continuous: bool,
    /// Interval between handshake attempts in continuous mode, seconds.
    pub interval_secs: u16,
}

/// Whether a string holds a colon, as an address with a port must.
pub open spec fn has_colon(s: Seq<char>) -> bool {
    exists|i: int| 0 <= i < s.len() && s[i] == ':'
}

/// The first check that fails over the peer addresses: each must name a
/// port after a colon.
pub open spec fn spec_check_addrs(l: Seq<Seq<char>>) -> Result<(), Seq<char>>
    decreases l.len(),
{
    if l.len() == 0 {
        Ok(())
    } else if !has_colon(l[0]) {
        Err(
            "Invalid peer address format '"@ + l[0]
                + "'. Must include port (e.g., host:8000)"@,
        )
    } else {
        spec_check_addrs(l.drop_first())
    }
}

/// What validation decides: the first failing rule wins.
pub open spec fn spec_validate(a: Args) -> Result<(), Seq<char>> {
    if a.timeout_secs == 0 {
        Err("Timeout must be greater than 0 seconds"@)
    } else if a.timeout_secs > 300 {
        Err("Timeout cannot exceed 300 seconds (5 minutes)"@)
    } else if a.max_retries > 10 {
        Err("Maximum retries cannot exceed 10"@)
    } else if a.mode == ApplicationMode::Client && a.peer_addresses@.len() == 0 {
        Err("Client mode requires at least one peer address (--peers)"@)
    } else if spec_check_addrs(a.peer_addresses.deep_view()) is Err {
        spec_check_addrs(a.peer_addresses.deep_view())
    } else if a.continuous && a.interval_secs < 10 {
        Err("Continuous mode interval must be at least 10 seconds"@)
    } else {
        Ok(())
    }
}

fn str_has_colon(s: &str) -> (r: bool)
    ensures
        r == has_colon(s@),
{
    let n = s.unicode_len();
    let mut i: usize = 0;
    while i < n
        invariant
            i <= n,
            n == s@.len(),
            forall|j: int| 0 <= j < i ==> s@[j] != ':',
        decreases n - i,
    {
        if s.get_char(i) == ':' {
            return true;
        }
        i += 1;
    }
    false
}

impl Args {
    /// The network timeout, in whole seconds.
    pub fn network_timeout(&self) -> (r: u64)
        ensures
            r == self.timeout_secs as u64,
    {
        self.timeout_secs as u64
    }

    /// The continuous-mode interval, in whole seconds.
    pub fn continuous_interval(&self) -> (r: u64)
        ensures
            r == self.interval_secs as u64,
    {
        self.interval_secs as u64
    }

    /// Validates the arguments: the timeout must be positive and at
    /// most five minutes, retries capped at ten, client mode needs at
    /// least one peer, every peer address needs a port, and a
    /// continuous-mode interval is at least ten seconds.  The first
    /// failing rule's message is returned.
    pub fn validate(&self) -> (r: Result<(), String>)
        ensures
            match r {
                Ok(()) => spec_validate(*self) is Ok,
                Err(m) => spec_validate(*self) == Err::<(), Seq<char>>(m@),
            },
    {
        if self.timeout_secs == 0 {
            return Err("Timeout must be greater than 0 seconds".to_owned());
        }
        if self.timeout_secs > 300 {
            return Err("Timeout cannot exceed 300 seconds (5 minutes)".to_owned());
        }
        if self.max_retries > 10 {
            return Err("Maximum retries cannot exceed 10".to_owned());
        }
        let is_client = matches!(self.mode, ApplicationMode::Client);
        if is_client && self.peer_addresses.len() == 0 {
            return Err("Client mode requires at least one peer address (--peers)".to_owned());
        }
        let ghost addrs = self.peer_addresses.deep_view();
        let n = self.peer_addresses.len();
        let mut i: usize = 0;
        proof {
            assert(addrs.skip(0) =~= addrs);
        }
        while i < n
            invariant
                i <= n,
                addrs == self.peer_addresses.deep_view(),
                n == self.peer_addresses@.len(),
                spec_check_addrs(addrs.skip(i as int)) == spec_check_addrs(addrs),
                self.timeout_secs > 0,
                self.timeout_secs <= 300,
                self.max_retries <= 10,
                self.mode == ApplicationMode::Client ==> self.peer_addresses@.len() > 0,
            decreases n - i,
        {
            proof {
                assert(addrs.skip(i as int)[0] == addrs[i as int]);
            }
            let addr = &self.peer_addresses[i];
            if !str_has_colon(addr.as_str()) {
                let message = "Invalid peer address format '".to_owned().concat(
                    addr.as_str(),
                ).concat("'. Must include port (e.g., host:8000)");
                proof {
                    assert(spec_check_addrs(addrs.skip(i as int)) == Err::<(), Seq<char>>(
                        message@,
                    ));
                }
                return Err(message);
            }
            proof {
                assert(addrs.skip(i as int).drop_first() =~= addrs.skip(i + 1));
            }
            i += 1;
        }
        proof {
            assert(addrs.skip(n as int) =~= Seq::<Seq<char>>::empty());
            assert(spec_check_addrs(addrs) is Ok);
        }
        proof {
            assert(!(spec_validate(*self) is Err && spec_check_addrs(
                self.peer_addresses.deep_view(),
            ) is Err));
        }
        if self.continuous && self.interval_secs < 10 {
            return Err("Continuous mode interval must be at least 10 seconds".to_owned());
        }
        Ok(())
    }
}

/// Supported network identifiers.
#[derive(Debug, Clone, PartialEq, Eq)]
pub enum NetworkId {
    /// Local development network.
    Localnet,
    /// Test network.
    Testnet,
    /// Development network.
    Devnet,
    /// The main network.
    MainnetBeta,
}

/// What parsing a network id decides: matching is ASCII-case-insensitive
/// and each network also answers to a short alias.
pub open spec fn spec_parse_network_id(s: Seq<char>) -> Result<NetworkId, Seq<char>> {
    let b = encode_utf8(s);
    if token_eq(b, encode_utf8("localnet"@)) || token_eq(b, encode_utf8("local"@)) {
        Ok(NetworkId::Localnet)
    } else if token_eq(b, encode_utf8("testnet"@)) || token_eq(b, encode_utf8("test"@)) {
        Ok(NetworkId::Testnet)
    } else if token_eq(b, encode_utf8("devnet"@)) || token_eq(b, encode_utf8("dev"@)) {
        Ok(NetworkId::Devnet)
    } else if token_eq(b, encode_utf8("mainnet-beta"@)) || token_eq(b, encode_utf8("mainnet"@)) {
        Ok(NetworkId::MainnetBeta)
    } else {
        Err(
            "Invalid network ID: '"@ + s
                + "'. Valid options: localnet, testnet, devnet, mainnet-beta"@,
        )
    }
}

impl NetworkId {
    /// Parses a network id, ASCII-case-insensitively, accepting each
    /// network's short alias too.
    pub fn parse(s: &str) -> (r: Result<NetworkId, String>)
        ensures
            match r {
                Ok(v) => spec_parse_network_id(s@) == Ok::<NetworkId, Seq<char>>(v),
                Err(m) => spec_parse_network_id(s@) == Err::<NetworkId, Seq<char>>(m@),
            },
    {
        if eq_ignore_ascii_case(s, "localnet") || eq_ignore_ascii_case(s, "local") {
            Ok(NetworkId::Localnet)
        } else if eq_ignore_ascii_case(s, "testnet") || eq_ignore_ascii_case(s, "test") {
            Ok(NetworkId::Testnet)
        } else if eq_ignore_ascii_case(s, "devnet") || eq_ignore_ascii_case(s, "dev") {
            Ok(NetworkId::Devnet)
        } else if eq_ignore_ascii_case(s, "mainnet-beta") || eq_ignore_ascii_case(s, "mainnet") {
            Ok(NetworkId::MainnetBeta)
        } else {
            Err(
                "Invalid network ID: '".to_owned().concat(s).concat(
                    "'. Valid options: localnet, testnet, devnet, mainnet-beta",
                ),
            )
        }
    }

    /// The canonical spelling of this network id.
    pub fn as_str(&self) -> (r: &'static str)
        ensures
            r@ == spec_network_id_str(*self),
    {
        match self {
            NetworkId::Localnet => crate::solana::network::LOCALNET,
            NetworkId::Testnet => crate::solana::network::TESTNET,
            NetworkId::Devnet => crate::solana::network::DEVNET,
            NetworkId::MainnetBeta => crate::solana::network::MAINNET_BETA,
        }
    }
}

/// The canonical spelling of each network id.
pub open spec fn spec_network_id_str(n: NetworkId) -> Seq<char> {
    match n {
        NetworkId::Localnet => crate::solana::network::LOCALNET@,
        NetworkId::Testnet => crate::solana::network::TESTNET@,
        NetworkId::Devnet => crate::solana::network::DEVNET@,
        NetworkId::MainnetBeta => crate::solana::network::MAINNET_BETA@,
    }
}

impl core::str::FromStr for NetworkId {
    type Err = String;

    fn from_str(s: &str) -> Result<Self, String> {
        Self::parse(s)
    }
}

/// Application operating mode.
#[derive(Debug, Clone, PartialEq, Eq)]
pub enum ApplicationMode {
    /// Client mode: initiate handshakes with peers.
    Client,
    /// Server mode: listen and respond to handshakes.
    Server,
}

/// What parsing a mode decides: `client`/`c` and `server`/`s`/`listen`,
/// ASCII-case-insensitively.
pub open spec fn spec_parse_mode(s: Seq<char>) -> Result<ApplicationMode, Seq<char>> {
    let b = encode_utf8(s);
    if token_eq(b, encode_utf8("client"@)) || token_eq(b, encode_utf8("c"@)) {
        Ok(ApplicationMode::Client)
    } else if token_eq(b, encode_utf8("server"@)) || token_eq(b, encode_utf8("s"@)) || token_eq(
        b,
        encode_utf8("listen"@),
    ) {
        Ok(ApplicationMode::Server)
    } else {
        Err("Invalid application mode: '"@ + s + "'. Valid options: client, server"@)
    }
}

impl ApplicationMode {
    /// Parses an application mode, ASCII-case-insensitively.
    pub fn parse(s: &str) -> (r: Result<ApplicationMode, String>)
        ensures
            match r {
                Ok(v) => spec_parse_mode(s@) == Ok::<ApplicationMode, Seq<char>>(v),
                Err(m) => spec_parse_mode(s@) == Err::<ApplicationMode, Seq<char>>(m@),
            },
    {
        if eq_ignore_ascii_case(s, "client") || eq_ignore_ascii_case(s, "c") {
            Ok(ApplicationMode::Client)
        } else if eq_ignore_ascii_case(s, "server") || eq_ignore_ascii_case(s, "s")
            || eq_ignore_ascii_case(s, "listen") {
            Ok(ApplicationMode::Server)
        } else {
            Err(
                "Invalid application mode: '".to_owned().concat(s).concat(
                    "'. Valid options: client, server",
                ),
            )
        }
    }
}

impl core::str::FromStr for ApplicationMode {
    type Err = String;

    fn from_str(s: &str) -> Result<Self, String> {
        Self::parse(s)
    }
}

/// Log level configuration.
#[derive(Debug, Clone, PartialEq, Eq)]
pub enum LogLevel {
    Trace,
    Debug,
    Info,
    Warn,
    Error,
}

/// What parsing a log level decides, ASCII-case-insensitively; `warn`
/// also answers to `warning`.
pub open spec fn spec_parse_log_level(s: Seq<char>) -> Result<LogLevel, Seq<char>> {
    let b = encode_utf8(s);
    if token_eq(b, encode_utf8("trace"@)) {
        Ok(LogLevel::Trace)
    } else if token_eq(b, encode_utf8("debug"@)) {
        Ok(LogLevel::Debug)
    } else if token_eq(b, encode_utf8("info"@)) {
        Ok(LogLevel::Info)
    } else if token_eq(b, encode_utf8("warn"@)) || token_eq(b, encode_utf8("warning"@)) {
        Ok(LogLevel::Warn)
    } else if token_eq(b, encode_utf8("error"@)) {
        Ok(LogLevel::Error)
    } else {
        Err(
            "Invalid log level: '"@ + s + "'. Valid options: trace, debug, info, warn, error"@,
        )
    }
}

impl LogLevel {
    /// Parses a log level, ASCII-case-insensitively.
    pub fn parse(s: &str) -> (r: Result<LogLevel, String>)
        ensures
            match r {
                Ok(v) => spec_parse_log_level(s@) == Ok::<LogLevel, Seq<char>>(v),
                Err(m) => spec_parse_log_level(s@) == Err::<LogLevel, Seq<char>>(m@),
            },
    {
        if eq_ignore_ascii_case(s, "trace") {
            Ok(LogLevel::Trace)
        } else if eq_ignore_ascii_case(s, "debug") {
            Ok(LogLevel::Debug)
        } else if eq_ignore_ascii_case(s, "info") {
            Ok(LogLevel::Info)
        } else if eq_ignore_ascii_case(s, "warn") || eq_ignore_ascii_case(s, "warning") {
            Ok(LogLevel::Warn)
        } else if eq_ignore_ascii_case(s, "error") {
            Ok(LogLevel::Error)
        } else {
            Err(
                "Invalid log level: '".to_owned().concat(s).concat(
                    "'. Valid options: trace, debug, info, warn, error",
                ),
            )
        }
    }
}

impl core::str::FromStr for LogLevel {
    type Err = String;

    fn from_str(s: &str) -> Result<Self, String> {
        Self::parse(s)
    }
}

/// Log output format.
#[derive(Debug, Clone, PartialEq, Eq)]
pub enum LogFormat {
    /// Pretty formatted logs for development.
    Pretty,
    /// JSON formatted logs for production.
    Json,
}

/// What parsing a log format decides, ASCII-case-insensitively; the
/// pretty format also answers to `text` and `human`.
pub open spec fn spec_parse_log_format(s: Seq<char>) -> Result<LogFormat, Seq<char>> {
    let b = encode_utf8(s);
    if token_eq(b, encode_utf8("pretty"@)) || token_eq(b, encode_utf8("text"@)) || token_eq(
        b,
        encode_utf8("human"@),
    ) {
        Ok(LogFormat::Pretty)
    } else if token_eq(b, encode_utf8("json"@)) {
        Ok(LogFormat::Json)
    } else {
        Err("Invalid log format: '"@ + s + "'. Valid options: pretty, json"@)
    }
}

impl LogFormat {
    /// Parses a log format, ASCII-case-insensitively.
    pub fn parse(s: &str) -> (r: Result<LogFormat, String>)
        ensures
            match r {
                Ok(v) => spec_parse_log_format(s@) == Ok::<LogFormat, Seq<char>>(v),
                Err(m) => spec_parse_log_format(s@) == Err::<LogFormat, Seq<char>>(m@),
            },
    {
        if eq_ignore_ascii_case(s, "pretty") || eq_ignore_ascii_case(s, "text")
            || eq_ignore_ascii_case(s, "human") {
            Ok(LogFormat::Pretty)
        } else if eq_ignore_ascii_case(s, "json") {
            Ok(LogFormat::Json)
        } else {
            Err(
                "Invalid log format: '".to_owned().concat(s).concat(
                    "'. Valid options: pretty, json",
                ),
            )
        }
    }
}

impl core::str::FromStr for LogFormat {
    type Err = String;

    fn from_str(s: &str) -> Result<Self, String> {
        Self::parse(s)
    }
}

} // verus!
