//! Everything the monitor needs to start, and the rules a configuration must
//! meet. Loading (defaults, then a TOML file, then the environment) happens
//! at the program's edge; the values land here.

use vstd::prelude::*;
use std::collections::BTreeMap;
use std::time::Duration;

verus! {

/// Names the duration of `secs` whole seconds.
pub uninterp spec fn duration_of_secs(secs: u64) -> Duration;

/// `Duration::from_secs`: the duration of `secs` whole seconds. The contract
/// only names the result; two calls with the same count give the same value.
#[verifier::external_body]
fn duration_from_secs(secs: u64) -> (d: Duration)
    ensures
        d == duration_of_secs(secs),
{
    Duration::from_secs(secs)
}

/// An address and port to listen on.
#[derive(Debug, Clone, Copy, PartialEq, Eq)]
pub enum ListenAddr {
    V4 { ip: [u8; 4], port: u16 },
    V6 { ip: [u16; 8], port: u16, flowinfo: u32, scope_id: u32 },
}

impl ListenAddr {
    pub fn port(&self) -> (p: u16)
        ensures
            p == match *self {
                ListenAddr::V4 { port, .. } => port,
                ListenAddr::V6 { port, .. } => port,
            },
    {
        match self {
            ListenAddr::V4 { port, .. } => *port,
            ListenAddr::V6 { port, .. } => *port,
        }
    }
}

/// Where the container runtime is reached.
#[derive(Debug, Clone, PartialEq, Eq)]
pub struct RuntimeConfig {
    /// Unix socket of the container runtime. `None` falls back to the runtime
    /// client's defaults, which honour `DOCKER_HOST`.
    pub socket: Option<String>,
}

/// A service to health-check.
#[derive(Debug, Clone, PartialEq, Eq)]
pub struct ServiceConfig {
    /// URL to GET when checking whether the app behind the container responds.
    pub url: String,
    /// Seconds a check may take.
    pub timeout_secs: u64,
}

/// The check timeout of a service whose configuration names none, in seconds.
pub fn default_timeout_secs() -> (r: u64)
    ensures
        r == 5,
{
    5
}

impl ServiceConfig {
    pub fn timeout(&self) -> (d: Duration)
        ensures
            d == duration_of_secs(self.timeout_secs),
    {
        duration_from_secs(self.timeout_secs)
    }
}

/// Why a configuration was refused.
#[derive(Debug, Clone, Copy, PartialEq, Eq)]
pub enum ConfigError {
    ZeroPollInterval,
    ZeroHistoryLen,
}

impl ConfigError {
    /// The text the error is reported with.
    pub fn to_string(&self) -> (r: String)
        ensures
            r@ == match self {
                ConfigError::ZeroPollInterval => "poll_interval_secs must be > 0"@,
                ConfigError::ZeroHistoryLen => "history_len must be > 0"@,
            },
    {
        match self {
            ConfigError::ZeroPollInterval => "poll_interval_secs must be > 0".to_owned(),
            ConfigError::ZeroHistoryLen => "history_len must be > 0".to_owned(),
        }
    }
}

/// The port the dashboard listens on unless configured otherwise.
pub const DEFAULT_PORT: u16 = 5067;

/// Seconds between two samples unless configured otherwise.
pub const DEFAULT_POLL_INTERVAL_SECS: u64 = 30;

/// Samples kept per container unless configured otherwise: a day at the
/// default interval.
pub const DEFAULT_HISTORY_LEN: usize = 2880;

/// What validation answers for a configuration with this interval and
/// history length: the interval is checked first.
pub open spec fn check_config(poll_interval_secs: u64, history_len: usize) -> Result<(), ConfigError> {
    if poll_interval_secs == 0 {
        Err(ConfigError::ZeroPollInterval)
    } else if history_len == 0 {
        Err(ConfigError::ZeroHistoryLen)
    } else {
        Ok(())
    }
}

/// Everything the monitor needs to start.
#[derive(Debug, Clone)]
pub struct Config {
    /// Address the dashboard binds to. Must be 0.0.0.0 to be reachable off-host.
    pub listen: ListenAddr,
    /// How often the poller samples the container runtime, in seconds.
    pub poll_interval_secs: u64,
    /// Samples kept per container by the in-memory store.
    pub history_len: usize,
    pub runtime: RuntimeConfig,
    /// Services to health-check, keyed by the name shown in the dashboard.
    pub services: BTreeMap<String, ServiceConfig>,
}

impl Config {
    /// Refuses a configuration that would stop the monitor from sampling or
    /// from keeping any history. The interval is checked first.
    pub fn validate(&self) -> (r: Result<(), ConfigError>)
        ensures
            r == check_config(self.poll_interval_secs, self.history_len),
            r is Ok <==> (self.poll_interval_secs > 0 && self.history_len > 0),
            self.poll_interval_secs == 0 ==> r == Err::<(), ConfigError>(ConfigError::ZeroPollInterval),
            self.poll_interval_secs > 0 && self.history_len == 0 ==> r == Err::<(), ConfigError>(
                ConfigError::ZeroHistoryLen,
            ),
    {
        if self.poll_interval_secs == 0 {
            return Err(ConfigError::ZeroPollInterval);
        }
        if self.history_len == 0 {
            return Err(ConfigError::ZeroHistoryLen);
        }
        Ok(())
    }

    pub fn poll_interval(&self) -> (d: Duration)
        ensures
            d == duration_of_secs(self.poll_interval_secs),
    {
        duration_from_secs(self.poll_interval_secs)
    }
}

impl Default for Config {
    fn default() -> (r: Config)
        ensures
            r.listen == (ListenAddr::V4 { ip: [0u8, 0u8, 0u8, 0u8], port: DEFAULT_PORT }),
            r.poll_interval_secs == DEFAULT_POLL_INTERVAL_SECS,
            r.history_len == DEFAULT_HISTORY_LEN,
            r.runtime.socket is None,
            r.services@ == Map::<String, ServiceConfig>::empty(),
    {
        Config {
            listen: ListenAddr::V4 { ip: [0, 0, 0, 0], port: DEFAULT_PORT },
            poll_interval_secs: DEFAULT_POLL_INTERVAL_SECS,
            history_len: DEFAULT_HISTORY_LEN,
            runtime: RuntimeConfig { socket: None },
            services: BTreeMap::new(),
        }
    }
}

/// Validation accepts exactly the configurations with a positive interval and
/// a positive history length; a zero interval is reported before a zero
/// history length.
pub proof fn lemma_check_config(poll_interval_secs: u64, history_len: usize)
    ensures
        (poll_interval_secs > 0 && history_len > 0) ==> check_config(poll_interval_secs, history_len)
            == Ok::<(), ConfigError>(()),
        poll_interval_secs == 0 ==> check_config(poll_interval_secs, history_len) == Err::<(), ConfigError>(
            ConfigError::ZeroPollInterval,
        ),
        (poll_interval_secs > 0 && history_len == 0) ==> check_config(poll_interval_secs, history_len)
            == Err::<(), ConfigError>(ConfigError::ZeroHistoryLen),
{
}

/// The defaults pass validation.
pub proof fn lemma_defaults_are_valid()
    ensures
        check_config(DEFAULT_POLL_INTERVAL_SECS, DEFAULT_HISTORY_LEN) == Ok::<(), ConfigError>(()),
{
}

} // verus!
