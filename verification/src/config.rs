//! Daemon-wide settings, persisted under the user's config directory.

use vstd::prelude::*;

verus! {

/// Daemon settings. A missing settings file means the defaults below are
/// written out and used.
#[derive(Debug, Clone, Copy, PartialEq, Eq, Structural)]
pub struct Config {
    /// Loopback control port where the platform transport is TCP.
    pub daemon_port: u16,
    /// Upper bound on roster size (advisory).
    pub max_processes: usize,
    /// Upper bound on a log file's size, in bytes (reserved).
    pub log_max_size: u64,
    /// Days of log retention (reserved).
    pub log_retention_days: u32,
    /// Seconds between an exit and an automatic restart attempt (advisory).
    pub auto_restart_delay: u64,
    /// Seconds between monitor passes.
    pub health_check_interval: u64,
}

/// The settings used when no settings file exists yet.
pub open spec fn spec_default_config() -> Config {
    Config {
        daemon_port: 9999,
        max_processes: 1000,
        log_max_size: 104857600,
        log_retention_days: 30,
        auto_restart_delay: 5,
        health_check_interval: 5,
    }
}

impl Default for Config {
    /// The built-in defaults: port 9999, 1000 processes, 100 MiB logs kept
    /// 30 days, 5 s restart delay and monitor interval.
    fn default() -> (r: Self)
        ensures
            r == spec_default_config(),
    {
        Config {
            daemon_port: 9999,
            max_processes: 1000,
            log_max_size: 104857600,
            log_retention_days: 30,
            auto_restart_delay: 5,
            health_check_interval: 5,
        }
    }
}

} // verus!
