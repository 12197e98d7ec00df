//! Server settings, each of which may be left out.

use vstd::prelude::*;

verus! {

/// Entries held when `max_capacity` is not set.
pub const DEFAULT_MAX_CAPACITY: u64 = 1_000_000;

/// Seconds between metrics panels when `metrics_interval_secs` is not set.
pub const DEFAULT_METRICS_INTERVAL: u64 = 5;

/// Port listened on when `port` is not set.
pub const DEFAULT_PORT: u16 = 6380;

/// The settings read from the configuration file.
#[derive(Debug, Clone, PartialEq)]
pub struct AppConfig {
    pub host: Option<String>,
    pub port: Option<u16>,
    pub max_capacity: Option<u64>,
    pub metrics_interval_secs: Option<u64>,
    pub single_thread_mode: Option<bool>,
    pub debug: Option<bool>,
}

impl AppConfig {
    /// The address's host part: `host`, or `0.0.0.0`.
    pub fn bind_host(&self) -> (h: &str)
        ensures
            h@ == match self.host {
                Some(host) => host@,
                None => "0.0.0.0"@,
            },
    {
        match &self.host {
            Some(host) => host.as_str(),
            None => "0.0.0.0",
        }
    }

    /// The address's port: `port`, or 6380.
    pub fn bind_port(&self) -> (p: u16)
        ensures
            p == match self.port {
                Some(port) => port,
                None => DEFAULT_PORT,
            },
    {
        match self.port {
            Some(port) => port,
            None => DEFAULT_PORT,
        }
    }

    /// The most entries the cache holds: `max_capacity`, or 1 000 000.
    pub fn max_capacity(&self) -> (c: u64)
        ensures
            c == match self.max_capacity {
                Some(n) => n,
                None => DEFAULT_MAX_CAPACITY,
            },
    {
        match self.max_capacity {
            Some(n) => n,
            None => DEFAULT_MAX_CAPACITY,
        }
    }

    /// Seconds between metrics panels: `metrics_interval_secs`, or 5.
    pub fn metrics_interval(&self) -> (s: u64)
        ensures
            s == match self.metrics_interval_secs {
                Some(n) => n,
                None => DEFAULT_METRICS_INTERVAL,
            },
    {
        match self.metrics_interval_secs {
            Some(n) => n,
            None => DEFAULT_METRICS_INTERVAL,
        }
    }

    /// Whether debug logging is on: `debug`, or off.
    pub fn debug_enabled(&self) -> (on: bool)
        ensures
            on == match self.debug {
                Some(d) => d,
                None => false,
            },
    {
        match self.debug {
            Some(d) => d,
            None => false,
        }
    }
}

/// Every setting left out.
pub open spec fn is_all_default(c: AppConfig) -> bool {
    &&& c.host is None
    &&& c.port is None
    &&& c.max_capacity is None
    &&& c.metrics_interval_secs is None
    &&& c.single_thread_mode is None
    &&& c.debug is None
}

/// The configuration that was loaded, or, where loading failed, one with
/// every setting left out.
pub fn load_config_or_default(loaded: Result<AppConfig, String>) -> (c: AppConfig)
    ensures
        match loaded {
            Ok(cfg) => c == cfg,
            Err(_) => is_all_default(c),
        },
{
    match loaded {
        Ok(cfg) => cfg,
        Err(_) => AppConfig {
            host: None,
            port: None,
            max_capacity: None,
            metrics_interval_secs: None,
            single_thread_mode: None,
            debug: None,
        },
    }
}

} // verus!
