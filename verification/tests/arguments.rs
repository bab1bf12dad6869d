use p2p_solana_handshake::arguments_parser::{ApplicationMode, Args, LogFormat, LogLevel, NetworkId};
use p2p_solana_handshake::telemetry::{level_to_str, TelemetryConfig};

fn create_valid_args() -> Args {
    Args {
        bind_address: "0.0.0.0:8000".to_string(),
        network_id: NetworkId::Localnet,
        peer_addresses: vec!["127.0.0.1:8001".to_string()],
        timeout_secs: 30,
        max_retries: 3,
        mode: ApplicationMode::Client,
        log_level: LogLevel::Info,
        log_format: LogFormat::Pretty,
        continuous: false,
        interval_secs: 60,
    }
}

#[test]
fn test_network_id_parsing() {
    assert_eq!(
        "localnet".parse::<NetworkId>().unwrap(),
        NetworkId::Localnet
    );
    assert_eq!("testnet".parse::<NetworkId>().unwrap(), NetworkId::Testnet);
    assert_eq!(
        "mainnet-beta".parse::<NetworkId>().unwrap(),
        NetworkId::MainnetBeta
    );
    assert!("invalid".parse::<NetworkId>().is_err());
}

#[test]
fn test_application_mode_parsing() {
    assert_eq!(
        "client".parse::<ApplicationMode>().unwrap(),
        ApplicationMode::Client
    );
    assert_eq!(
        "server".parse::<ApplicationMode>().unwrap(),
        ApplicationMode::Server
    );
    assert!("invalid".parse::<ApplicationMode>().is_err());
}

#[test]
fn test_args_validation() {
    let mut args = Args {
        bind_address: "0.0.0.0:8000".to_string(),
        network_id: NetworkId::Localnet,
        peer_addresses: vec!["127.0.0.1:8001".to_string()],
        timeout_secs: 30,
        max_retries: 3,
        mode: ApplicationMode::Client,
        log_level: LogLevel::Info,
        log_format: LogFormat::Pretty,
        continuous: false,
        interval_secs: 60,
    };

    assert!(args.validate().is_ok());

    // Test timeout validation
    args.timeout_secs = 0;
    assert!(args.validate().is_err());

    args.timeout_secs = 400;
    assert!(args.validate().is_err());

    // Test client mode peer validation
    args.timeout_secs = 30;
    args.peer_addresses.clear();
    assert!(args.validate().is_err());
}

#[test]
fn test_args_validation_max_retries() {
    let mut args = create_valid_args();

    // Test max retries validation
    args.max_retries = 11; // Over the limit
    let result = args.validate();
    assert!(result.is_err());
    assert!(result
        .unwrap_err()
        .contains("Maximum retries cannot exceed 10"));

    // Valid retry count
    args.max_retries = 5;
    assert!(args.validate().is_ok());
}

#[test]
fn test_args_validation_server_mode() {
    let mut args = create_valid_args();
    args.mode = ApplicationMode::Server;
    args.peer_addresses.clear(); // Server doesn't need peer addresses

    assert!(args.validate().is_ok());
}

#[test]
fn test_args_validation_continuous_mode() {
    let mut args = create_valid_args();
    args.continuous = true;
    args.interval_secs = 5; // Too short

    let result = args.validate();
    assert!(result.is_err());
    assert!(result
        .unwrap_err()
        .contains("Continuous mode interval must be at least 10 seconds"));

    // Valid interval
    args.interval_secs = 30;
    assert!(args.validate().is_ok());
}

#[test]
fn test_args_validation_peer_address_format() {
    let mut args = create_valid_args();
    args.peer_addresses = vec!["no-port-here".to_string()];

    let result = args.validate();
    assert!(result.is_err());
    assert!(result.unwrap_err().contains("Invalid peer address format"));
}

#[test]
fn test_network_timeout_conversion() {
    let args = create_valid_args();
    let timeout = args.network_timeout();
    assert_eq!(timeout, 30);
}

#[test]
fn test_continuous_interval_conversion() {
    let args = create_valid_args();
    let interval = args.continuous_interval();
    assert_eq!(interval, 60);
}

#[test]
fn test_log_level_from_str() {
    assert_eq!("trace".parse::<LogLevel>().unwrap(), LogLevel::Trace);
    assert_eq!("debug".parse::<LogLevel>().unwrap(), LogLevel::Debug);
    assert_eq!("info".parse::<LogLevel>().unwrap(), LogLevel::Info);
    assert_eq!("warn".parse::<LogLevel>().unwrap(), LogLevel::Warn);
    assert_eq!("warning".parse::<LogLevel>().unwrap(), LogLevel::Warn);
    assert_eq!("error".parse::<LogLevel>().unwrap(), LogLevel::Error);

    assert!("invalid".parse::<LogLevel>().is_err());
}

#[test]
fn test_log_format_from_str() {
    assert_eq!("pretty".parse::<LogFormat>().unwrap(), LogFormat::Pretty);
    assert_eq!("text".parse::<LogFormat>().unwrap(), LogFormat::Pretty);
    assert_eq!("human".parse::<LogFormat>().unwrap(), LogFormat::Pretty);
    assert_eq!("json".parse::<LogFormat>().unwrap(), LogFormat::Json);

    assert!("invalid".parse::<LogFormat>().is_err());
}

#[test]
fn test_network_id_display() {
    assert_eq!(NetworkId::Localnet.as_str(), "localnet");
    assert_eq!(NetworkId::Testnet.as_str(), "testnet");
    assert_eq!(NetworkId::Devnet.as_str(), "devnet");
    assert_eq!(NetworkId::MainnetBeta.as_str(), "mainnet-beta");
}

#[test]
fn test_all_enum_variants_covered() {
    // Ensure we handle all NetworkId variants
    for network in [
        NetworkId::Localnet,
        NetworkId::Testnet,
        NetworkId::Devnet,
        NetworkId::MainnetBeta,
    ] {
        let network_str = network.as_str().to_string();
        assert!(!network_str.is_empty());
        assert_eq!(network_str.parse::<NetworkId>().unwrap(), network);
    }

    // Ensure we handle all ApplicationMode variants
    for mode in [ApplicationMode::Client, ApplicationMode::Server] {
        match mode {
            ApplicationMode::Client => {
                assert_eq!("client".parse::<ApplicationMode>().unwrap(), mode);
            }
            ApplicationMode::Server => {
                assert_eq!("server".parse::<ApplicationMode>().unwrap(), mode);
            }
        }
    }

    // Ensure we handle all LogLevel variants
    for level in [
        LogLevel::Trace,
        LogLevel::Debug,
        LogLevel::Info,
        LogLevel::Warn,
        LogLevel::Error,
    ] {
        let level_str = match level {
            LogLevel::Trace => "trace",
            LogLevel::Debug => "debug",
            LogLevel::Info => "info",
            LogLevel::Warn => "warn",
            LogLevel::Error => "error",
        };
        assert_eq!(level_str.parse::<LogLevel>().unwrap(), level);
    }
}

#[test]
fn test_case_insensitive_parsing() {
    assert_eq!(
        "LOCALNET".parse::<NetworkId>().unwrap(),
        NetworkId::Localnet
    );
    assert_eq!("Mainnet".parse::<NetworkId>().unwrap(), NetworkId::MainnetBeta);
    assert_eq!("SERVER".parse::<ApplicationMode>().unwrap(), ApplicationMode::Server);
    assert_eq!("Listen".parse::<ApplicationMode>().unwrap(), ApplicationMode::Server);
    assert_eq!("WARNING".parse::<LogLevel>().unwrap(), LogLevel::Warn);
}

#[test]
fn test_telemetry_config_recommendations() {
    let prod = TelemetryConfig::new(
        "svc".to_string(),
        "1.0".to_string(),
        "production".to_string(),
    );
    assert!(prod.is_production());
    assert_eq!(prod.recommended_log_format(), LogFormat::Json);
    assert_eq!(prod.recommended_log_level(), LogLevel::Info);

    let prod_short = TelemetryConfig::new("svc".to_string(), "1.0".to_string(), "prod".to_string());
    assert!(prod_short.is_production());

    let dev = TelemetryConfig::new(
        "svc".to_string(),
        "1.0".to_string(),
        "development".to_string(),
    );
    assert!(!dev.is_production());
    assert_eq!(dev.recommended_log_format(), LogFormat::Pretty);
    assert_eq!(dev.recommended_log_level(), LogLevel::Debug);

    assert_eq!(level_to_str(&LogLevel::Warn), "warn");
    assert_eq!(level_to_str(&LogLevel::Trace), "trace");
}
