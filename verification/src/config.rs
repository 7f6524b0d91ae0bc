//! Configuration of an MCP client.
use vstd::prelude::*;

use std::collections::HashMap;
use std::time::Duration;

use crate::json::Json;
use crate::text::{joined, opt_text};
use crate::time::{duration_nanos, is_longer};

use self::duration_serde::{kept_millis, serialize};

pub mod duration_serde;

verus! {

/// The version of this package.
pub const VERSION: &'static str = "1.0.0";

/// Main client configuration.
#[derive(Debug)]
pub struct ClientConfig {
    /// Client identification information.
    pub client_info: ClientInfo,
    /// Timeout configurations.
    pub timeouts: TimeoutConfig,
    /// Retry configurations.
    pub retry: RetryConfig,
    /// Connection configurations.
    pub connection: ConnectionConfig,
    /// Logging configuration.
    pub logging: LoggingConfig,
}

/// Client identification information.
#[derive(Debug)]
pub struct ClientInfo {
    /// Client name.
    pub name: String,
    /// Client version.
    pub version: String,
    /// Client description.
    pub description: Option<String>,
    /// Vendor information.
    pub vendor: Option<String>,
    /// Additional metadata.
    pub metadata: Option<Json>,
}

/// Timeout configuration.
#[derive(Debug)]
pub struct TimeoutConfig {
    /// Connection timeout.
    pub connect: Duration,
    /// Request timeout for individual operations.
    pub request: Duration,
    /// Long operation timeout (for streaming, etc.).
    pub long_operation: Duration,
    /// Session initialization timeout.
    pub initialization: Duration,
    /// Heartbeat interval for keep-alive.
    pub heartbeat: Duration,
}

/// Retry configuration. The factors of backoff and jitter are fractions, and stay with the caller,
/// who hands in the milliseconds that they give.
#[derive(Debug)]
pub struct RetryConfig {
    /// Maximum number of retry attempts.
    pub max_attempts: u32,
    /// Initial retry delay.
    pub initial_delay: Duration,
    /// Maximum retry delay.
    pub max_delay: Duration,
    /// Whether to enable exponential backoff.
    pub exponential_backoff: bool,
}

/// Connection configuration.
#[derive(Debug)]
pub struct ConnectionConfig {
    /// User agent string.
    pub user_agent: Option<String>,
    /// Custom headers to send with requests.
    pub headers: Option<HashMap<String, String>>,
    /// Whether to follow redirects.
    pub follow_redirects: bool,
    /// Maximum number of redirects to follow.
    pub max_redirects: u32,
    /// Keep-alive settings.
    pub keep_alive: bool,
    /// Connection pool settings.
    pub pool_settings: PoolConfig,
}

/// Connection pool configuration.
#[derive(Debug)]
pub struct PoolConfig {
    /// Maximum number of idle connections per host.
    pub max_idle_per_host: u32,
    /// Idle connection timeout.
    pub idle_timeout: Duration,
    /// Connection lifetime.
    pub max_lifetime: Duration,
}

/// Logging configuration.
#[derive(Debug)]
pub struct LoggingConfig {
    /// Log level.
    pub level: String,
    /// Whether to log requests.
    pub log_requests: bool,
    /// Whether to log responses.
    pub log_responses: bool,
    /// Whether to log transport events.
    pub log_transport: bool,
    /// Whether to redact sensitive information.
    pub redact_sensitive: bool,
}

/// That many seconds in nanoseconds.
pub open spec fn seconds(n: nat) -> nat {
    n * 1_000_000_000
}

/// That many milliseconds in nanoseconds.
pub open spec fn millis(n: nat) -> nat {
    n * 1_000_000
}

impl ClientInfo {
    /// The client that is not configured otherwise.
    pub open spec fn is_default(self) -> bool {
        &&& self.name@ == "mcp-client"@
        &&& self.version@ == VERSION@
        &&& opt_text(self.description) == Some("Rust MCP Client Library"@)
        &&& opt_text(self.vendor) == Some("MCP Framework"@)
        &&& self.metadata is None
    }
}

impl TimeoutConfig {
    /// The timeouts that are not configured otherwise.
    pub open spec fn is_default(self) -> bool {
        &&& duration_nanos(self.connect) == seconds(10)
        &&& duration_nanos(self.request) == seconds(30)
        &&& duration_nanos(self.long_operation) == seconds(300)
        &&& duration_nanos(self.initialization) == seconds(15)
        &&& duration_nanos(self.heartbeat) == seconds(30)
    }
}

impl ConnectionConfig {
    /// The connection settings that are not configured otherwise.
    pub open spec fn is_default(self) -> bool {
        &&& opt_text(self.user_agent) == Some("mcp-client/"@ + VERSION@)
        &&& self.headers is None
        &&& self.follow_redirects
        &&& self.max_redirects == 5
        &&& self.keep_alive
        &&& self.pool_settings.is_default()
    }
}

impl PoolConfig {
    /// The pool settings that are not configured otherwise.
    pub open spec fn is_default(self) -> bool {
        &&& self.max_idle_per_host == 5
        &&& duration_nanos(self.idle_timeout) == seconds(90)
        &&& duration_nanos(self.max_lifetime) == seconds(300)
    }
}

impl LoggingConfig {
    /// The logging settings that are not configured otherwise.
    pub open spec fn is_default(self) -> bool {
        &&& self.level@ == "info"@
        &&& self.log_requests
        &&& self.log_responses
        &&& !self.log_transport
        &&& self.redact_sensitive
    }
}

impl Default for ClientInfo {
    fn default() -> (c: Self)
        ensures
            c.is_default(),
    {
        ClientInfo {
            name: "mcp-client".to_owned(),
            version: VERSION.to_owned(),
            description: Some("Rust MCP Client Library".to_owned()),
            vendor: Some("MCP Framework".to_owned()),
            metadata: None,
        }
    }
}

impl Default for TimeoutConfig {
    fn default() -> (c: Self)
        ensures
            c.is_default(),
    {
        TimeoutConfig {
            connect: Duration::from_secs(10),
            request: Duration::from_secs(30),
            long_operation: Duration::from_secs(300),
            initialization: Duration::from_secs(15),
            heartbeat: Duration::from_secs(30),
        }
    }
}

impl Default for RetryConfig {
    fn default() -> (c: Self)
        ensures
            c.is_default(),
    {
        RetryConfig {
            max_attempts: 3,
            initial_delay: Duration::from_millis(100),
            max_delay: Duration::from_secs(10),
            exponential_backoff: true,
        }
    }
}

impl Default for ConnectionConfig {
    fn default() -> (c: Self)
        ensures
            c.is_default(),
    {
        ConnectionConfig {
            user_agent: Some(joined("mcp-client/", VERSION)),
            headers: None,
            follow_redirects: true,
            max_redirects: 5,
            keep_alive: true,
            pool_settings: PoolConfig::default(),
        }
    }
}

impl Default for PoolConfig {
    fn default() -> (c: Self)
        ensures
            c.is_default(),
    {
        PoolConfig {
            max_idle_per_host: 5,
            idle_timeout: Duration::from_secs(90),
            max_lifetime: Duration::from_secs(300),
        }
    }
}

impl Default for LoggingConfig {
    fn default() -> (c: Self)
        ensures
            c.is_default(),
    {
        LoggingConfig {
            level: "info".to_owned(),
            log_requests: true,
            log_responses: true,
            log_transport: false,
            redact_sensitive: true,
        }
    }
}

impl Default for ClientConfig {
    fn default() -> (c: Self)
        ensures
            c.client_info.is_default(),
            c.timeouts.is_default(),
            c.retry.is_default(),
            c.connection.is_default(),
            c.logging.is_default(),
    {
        ClientConfig {
            client_info: ClientInfo::default(),
            timeouts: TimeoutConfig::default(),
            retry: RetryConfig::default(),
            connection: ConnectionConfig::default(),
            logging: LoggingConfig::default(),
        }
    }
}

/// The smaller one.
pub open spec fn least(a: nat, b: nat) -> nat {
    if a <= b {
        a
    } else {
        b
    }
}

impl RetryConfig {
    /// The retry settings that are not configured otherwise.
    pub open spec fn is_default(self) -> bool {
        &&& self.max_attempts == 3
        &&& duration_nanos(self.initial_delay) == millis(100)
        &&& duration_nanos(self.max_delay) == seconds(10)
        &&& self.exponential_backoff
    }

    /// The nanoseconds before an attempt, without jitter: none before the first, and never more than
    /// the maximum. `scaled_ms` is the initial delay after backoff.
    pub open spec fn base_nanos(self, attempt: u32, scaled_ms: u64) -> nat {
        if attempt == 0 {
            0
        } else {
            least(
                if self.exponential_backoff && attempt > 1 {
                    millis(scaled_ms as nat)
                } else {
                    duration_nanos(self.initial_delay)
                },
                duration_nanos(self.max_delay),
            )
        }
    }

    /// The nanoseconds of a delay with jitter, which counts whole milliseconds in a `u64`.
    pub open spec fn jittered_nanos(self, base: nat, jitter_ms: u64) -> nat {
        least(millis(kept_millis(base) + jitter_ms as nat), duration_nanos(self.max_delay))
    }

    fn capped(&self, delay: Duration) -> (r: Duration)
        ensures
            duration_nanos(r) == least(duration_nanos(delay), duration_nanos(self.max_delay)),
    {
        if is_longer(&delay, &self.max_delay) {
            self.max_delay
        } else {
            delay
        }
    }

    /// The delay before an attempt, without jitter. `scaled_ms` is the initial delay in milliseconds
    /// times the backoff factor to the power of the attempts after the first; it matters only
    /// where backoff applies.
    pub fn base_delay(&self, attempt: u32, scaled_ms: u64) -> (d: Duration)
        ensures
            duration_nanos(d) == self.base_nanos(attempt, scaled_ms),
    {
        if attempt == 0 {
            return Duration::from_millis(0);
        }
        let delay = if self.exponential_backoff && attempt > 1 {
            Duration::from_millis(scaled_ms)
        } else {
            self.initial_delay
        };
        self.capped(delay)
    }

    /// The delay before an attempt. `jitter_ms` is what the jitter adds to the base delay, where
    /// there is jitter. The sum of both has to be a number of milliseconds that fits.
    pub fn delay_for_attempt(&self, attempt: u32, scaled_ms: u64, jitter_ms: Option<u64>) -> (d: Duration)
        requires
            jitter_ms matches Some(j) ==> kept_millis(self.base_nanos(attempt, scaled_ms)) + j <= u64::MAX,
        ensures
            duration_nanos(d) == (match jitter_ms {
                Some(j) if attempt > 0 => self.jittered_nanos(self.base_nanos(attempt, scaled_ms), j),
                _ => self.base_nanos(attempt, scaled_ms),
            }),
    {
        let base = self.base_delay(attempt, scaled_ms);
        if attempt == 0 {
            return base;
        }
        match jitter_ms {
            Some(j) => self.capped(Duration::from_millis(serialize(&base) + j)),
            None => self.capped(base),
        }
    }

    /// Whether an attempt should be made again.
    pub fn should_retry(&self, attempt: u32) -> (r: bool)
        ensures
            r == (attempt < self.max_attempts),
    {
        attempt < self.max_attempts
    }
}

/// No delay is longer than the maximum, with jitter or without, and the first attempt waits for
/// nothing.
pub proof fn delays_are_bounded(config: RetryConfig, attempt: u32, scaled_ms: u64, jitter_ms: u64)
    ensures
        config.base_nanos(0, scaled_ms) == 0,
        config.base_nanos(attempt, scaled_ms) <= duration_nanos(config.max_delay),
        config.jittered_nanos(config.base_nanos(attempt, scaled_ms), jitter_ms) <= duration_nanos(config.max_delay),
{
}

/// More backoff never makes a delay shorter, and jitter only adds to a delay of whole milliseconds.
pub proof fn delays_grow(config: RetryConfig, attempt: u32, less_ms: u64, more_ms: u64, jitter_ms: u64)
    requires
        less_ms <= more_ms,
    ensures
        config.base_nanos(attempt, less_ms) <= config.base_nanos(attempt, more_ms),
        ({
            let base = config.base_nanos(attempt, more_ms);
            base % 1_000_000 == 0 && base / 1_000_000 <= u64::MAX ==> base <= config.jittered_nanos(base, jitter_ms)
        }),
{
}

/// The first retry waits for the initial delay whatever the backoff; without backoff every later one does
/// as well; with it a later one waits for the scaled delay. The maximum caps all of them. Jitter adds its
/// milliseconds to the delay, up to the maximum.
pub proof fn retries_wait_as_configured(config: RetryConfig, attempt: u32, scaled_ms: u64, other_ms: u64, jitter_ms: u64)
    requires
        attempt >= 1,
    ensures
        config.base_nanos(1, scaled_ms) == config.base_nanos(1, other_ms),
        duration_nanos(config.initial_delay) <= duration_nanos(config.max_delay) ==> config.base_nanos(1, scaled_ms)
            == duration_nanos(config.initial_delay),
        !config.exponential_backoff ==> config.base_nanos(attempt, scaled_ms) == config.base_nanos(1, other_ms),
        config.exponential_backoff && attempt > 1 && scaled_ms * 1_000_000 <= duration_nanos(config.max_delay)
            ==> config.base_nanos(attempt, scaled_ms) == scaled_ms * 1_000_000,
        config.exponential_backoff && attempt > 1 && scaled_ms * 1_000_000 > duration_nanos(config.max_delay)
            ==> config.base_nanos(attempt, scaled_ms) == duration_nanos(config.max_delay),
        (scaled_ms + jitter_ms) * 1_000_000 <= duration_nanos(config.max_delay) ==> config.jittered_nanos(
            (scaled_ms * 1_000_000) as nat,
            jitter_ms,
        ) == (scaled_ms + jitter_ms) * 1_000_000,
{
}

/// The settings that are not configured otherwise: connecting gives up before a session is initialized, that
/// before a request, and that before a long operation; a heartbeat comes as often as a request may take.
/// Retries wait a tenth of a second at first and ten seconds at most, with backoff, and there are three.
pub proof fn the_defaults(timeouts: TimeoutConfig, retry: RetryConfig, connection: ConnectionConfig)
    requires
        timeouts.is_default(),
        retry.is_default(),
        connection.is_default(),
    ensures
        duration_nanos(timeouts.connect) == 10_000_000_000,
        duration_nanos(timeouts.connect) < duration_nanos(timeouts.initialization) < duration_nanos(timeouts.request),
        duration_nanos(timeouts.initialization) == 15_000_000_000,
        duration_nanos(timeouts.request) == 30_000_000_000,
        duration_nanos(timeouts.request) < duration_nanos(timeouts.long_operation),
        duration_nanos(timeouts.long_operation) == 300_000_000_000,
        duration_nanos(timeouts.heartbeat) == duration_nanos(timeouts.request),
        retry.max_attempts == 3 && retry.exponential_backoff,
        duration_nanos(retry.initial_delay) == 100_000_000,
        duration_nanos(retry.max_delay) == 10_000_000_000,
        retry.base_nanos(1, 0) == 100_000_000,
        connection.headers is None && connection.follow_redirects && connection.max_redirects == 5
            && connection.keep_alive,
        connection.pool_settings.max_idle_per_host == 5,
        duration_nanos(connection.pool_settings.idle_timeout) == 90_000_000_000,
        duration_nanos(connection.pool_settings.max_lifetime) == 300_000_000_000,
        opt_text(connection.user_agent) == Some("mcp-client/"@ + "1.0.0"@),
{
}

} // verus!
