use autodns::config::{
    default_timeout_seconds, Config, ConfigError, ConfigWarning, DnsServer, OperationMode,
};

fn server(name: &str, address: &str) -> DnsServer {
    DnsServer { name: name.to_string(), address: address.to_string() }
}

fn sound_config() -> Config {
    Config {
        dns_servers: vec![server("Cloudflare-1", "1.1.1.1"), server("Google-1", "8.8.8.8")],
        mode: OperationMode::FirstOnline,
        execution_interval_seconds: 120,
        timeout_seconds: 2,
        resolv_conf_path: None,
    }
}

#[test]
fn default_timeout_is_two_seconds() {
    assert_eq!(default_timeout_seconds(), 2);
}

#[test]
fn sound_configuration_passes_without_warnings() {
    let (result, warnings) = sound_config().validate();
    assert_eq!(result, Ok(()));
    assert_eq!(warnings, Vec::<ConfigWarning>::new());
}

#[test]
fn no_servers_is_rejected() {
    let mut config = sound_config();
    config.dns_servers = Vec::new();
    let (result, _) = config.validate();
    assert_eq!(result, Err(ConfigError::NoServers));
}

#[test]
fn a_single_server_is_rejected() {
    let mut config = sound_config();
    config.dns_servers = vec![server("Cloudflare-1", "1.1.1.1")];
    let (result, _) = config.validate();
    assert_eq!(result, Err(ConfigError::TooFewServers));
}

#[test]
fn zero_interval_is_rejected() {
    let mut config = sound_config();
    config.execution_interval_seconds = 0;
    let (result, warnings) = config.validate();
    assert_eq!(result, Err(ConfigError::ZeroInterval));
    assert_eq!(warnings, Vec::<ConfigWarning>::new());
}

#[test]
fn zero_timeout_is_rejected_after_interval_warning() {
    let mut config = sound_config();
    config.execution_interval_seconds = 10;
    config.timeout_seconds = 0;
    let (result, warnings) = config.validate();
    assert_eq!(result, Err(ConfigError::ZeroTimeout));
    assert_eq!(warnings, vec![ConfigWarning::ShortInterval]);
}

#[test]
fn duplicate_addresses_are_rejected() {
    let mut config = sound_config();
    config.dns_servers = vec![
        server("Cloudflare-1", "1.1.1.1"),
        server("Cloudflare-2", "1.1.1.1"),
    ];
    let (result, _) = config.validate();
    assert_eq!(result, Err(ConfigError::DuplicateAddress));
}

#[test]
fn empty_resolv_conf_path_is_rejected() {
    let mut config = sound_config();
    config.resolv_conf_path = Some(String::new());
    let (result, _) = config.validate();
    assert_eq!(result, Err(ConfigError::EmptyResolvConfPath));
}

#[test]
fn duplicate_names_only_warn() {
    let mut config = sound_config();
    config.dns_servers = vec![server("Anycast", "1.1.1.1"), server("Anycast", "8.8.8.8")];
    let (result, warnings) = config.validate();
    assert_eq!(result, Ok(()));
    assert_eq!(warnings, vec![ConfigWarning::DuplicateNames]);
}

#[test]
fn long_timeout_only_warns() {
    let mut config = sound_config();
    config.timeout_seconds = 30;
    let (result, warnings) = config.validate();
    assert_eq!(result, Ok(()));
    assert_eq!(warnings, vec![ConfigWarning::LongTimeout]);
}

#[test]
fn first_online_mode_warns_on_long_intervals() {
    let mut config = sound_config();
    config.execution_interval_seconds = 600;
    let (result, warnings) = config.validate();
    assert_eq!(result, Ok(()));
    assert_eq!(warnings, vec![ConfigWarning::LongIntervalFirstOnline]);
}

#[test]
fn benchmark_mode_warns_on_short_intervals() {
    let mut config = sound_config();
    config.mode = OperationMode::Benchmark;
    config.execution_interval_seconds = 120;
    let (result, warnings) = config.validate();
    assert_eq!(result, Ok(()));
    assert_eq!(warnings, vec![ConfigWarning::ShortIntervalBenchmark]);
}

#[test]
fn warnings_accumulate_in_check_order() {
    let mut config = sound_config();
    config.mode = OperationMode::Benchmark;
    config.execution_interval_seconds = 10;
    config.timeout_seconds = 12;
    config.dns_servers = vec![server("Anycast", "1.1.1.1"), server("Anycast", "8.8.8.8")];
    let (result, warnings) = config.validate();
    assert_eq!(result, Ok(()));
    assert_eq!(
        warnings,
        vec![
            ConfigWarning::ShortInterval,
            ConfigWarning::LongTimeout,
            ConfigWarning::DuplicateNames,
            ConfigWarning::ShortIntervalBenchmark,
        ]
    );
}

#[test]
fn resolv_conf_path_defaults_to_the_system_file() {
    let config = sound_config();
    assert_eq!(config.resolv_conf_path(), "/etc/resolv.conf");
    let mut custom = sound_config();
    custom.resolv_conf_path = Some("/tmp/resolv.conf".to_string());
    assert_eq!(custom.resolv_conf_path(), "/tmp/resolv.conf");
}

#[test]
fn interval_warning_threshold_is_thirty_seconds() {
    let mut config = sound_config();
    config.execution_interval_seconds = 30;
    assert_eq!(config.validate().1, Vec::<ConfigWarning>::new());
    config.execution_interval_seconds = 29;
    assert_eq!(config.validate().1, vec![ConfigWarning::ShortInterval]);
}

#[test]
fn timeout_warning_threshold_is_ten_seconds() {
    let mut config = sound_config();
    config.timeout_seconds = 10;
    assert_eq!(config.validate().1, Vec::<ConfigWarning>::new());
    config.timeout_seconds = 11;
    assert_eq!(config.validate().1, vec![ConfigWarning::LongTimeout]);
}

#[test]
fn mode_warning_thresholds_sit_at_five_minutes() {
    let mut first_online = sound_config();
    first_online.execution_interval_seconds = 300;
    assert_eq!(first_online.validate().1, Vec::<ConfigWarning>::new());
    first_online.execution_interval_seconds = 301;
    assert_eq!(first_online.validate().1, vec![ConfigWarning::LongIntervalFirstOnline]);

    let mut benchmark = sound_config();
    benchmark.mode = OperationMode::Benchmark;
    benchmark.execution_interval_seconds = 300;
    assert_eq!(benchmark.validate().1, Vec::<ConfigWarning>::new());
    benchmark.execution_interval_seconds = 299;
    assert_eq!(benchmark.validate().1, vec![ConfigWarning::ShortIntervalBenchmark]);
}
