use std::time::Duration;

use horus::config::{default_timeout_secs, Config, ConfigError, ListenAddr, ServiceConfig};

#[test]
fn defaults_listen_everywhere_on_the_dashboard_port() {
    let config = Config::default();
    assert_eq!(config.listen, ListenAddr::V4 { ip: [0, 0, 0, 0], port: 5067 });
    assert_eq!(config.listen.port(), 5067);
    assert_eq!(config.poll_interval(), Duration::from_secs(30));
    assert_eq!(config.history_len, 2880);
    assert!(config.runtime.socket.is_none());
    assert!(config.services.is_empty());
    assert_eq!(config.validate(), Ok(()));
}

#[test]
fn rejects_zero_poll_interval_first() {
    let mut config = Config::default();
    config.poll_interval_secs = 0;
    assert_eq!(config.validate(), Err(ConfigError::ZeroPollInterval));
    config.history_len = 0;
    assert_eq!(config.validate(), Err(ConfigError::ZeroPollInterval));
    assert_eq!(ConfigError::ZeroPollInterval.to_string(), "poll_interval_secs must be > 0");
}

#[test]
fn rejects_zero_history_len() {
    let mut config = Config::default();
    config.history_len = 0;
    assert_eq!(config.validate(), Err(ConfigError::ZeroHistoryLen));
    assert_eq!(ConfigError::ZeroHistoryLen.to_string(), "history_len must be > 0");
}

#[test]
fn poll_interval_is_the_configured_seconds() {
    let mut config = Config::default();
    config.poll_interval_secs = 10;
    assert_eq!(config.poll_interval(), Duration::from_secs(10));
}

#[test]
fn service_timeout_defaults_to_five_seconds() {
    assert_eq!(default_timeout_secs(), 5);
    let s = ServiceConfig { url: "http://localhost:5230/healthz".into(), timeout_secs: default_timeout_secs() };
    assert_eq!(s.timeout(), Duration::from_secs(5));
}

#[test]
fn a_v6_address_reports_its_port() {
    let a = ListenAddr::V6 { ip: [0; 8], port: 8080, flowinfo: 0, scope_id: 0 };
    assert_eq!(a.port(), 8080);
}
