use std::time::{Duration, Instant};

use homepage::config::duration_serde;
use homepage::config::{ClientConfig, RetryConfig};
use homepage::error::{McpClientError, ProtocolError, SessionError, TransportError};
use homepage::json::Json;
use homepage::session::{
    ServerCapabilities, ServerSummary, SessionInfo, SessionManager, SessionState, SessionStatistics,
};

/// The factors of backoff and jitter that clients use where nothing else is configured.
const BACKOFF_MULTIPLIER: f64 = 2.0;
const JITTER: f64 = 0.1;

/// The delay before an attempt, with as much of the jitter as `share` says.
fn delay(config: &RetryConfig, attempt: u32, share: f64) -> Duration {
    let exponent = attempt.saturating_sub(1) as i32;
    let scaled = (config.initial_delay.as_millis() as f64 * BACKOFF_MULTIPLIER.powi(exponent)) as u64;
    let base = config.base_delay(attempt, scaled);
    let jitter = (base.as_millis() as f64 * JITTER) as u64;
    config.delay_for_attempt(attempt, scaled, Some((share * jitter as f64) as u64))
}

#[test]
fn test_retry_delay_calculation() {
    let config = RetryConfig::default();

    for share in [0.0, 0.5, 0.999] {
        // First attempt should have no delay
        assert_eq!(delay(&config, 0, share), Duration::from_millis(0));

        // Second attempt should have initial delay
        let delay1 = delay(&config, 1, share);
        assert!(delay1 >= config.initial_delay);

        // Third attempt should be longer with exponential backoff
        let delay2 = delay(&config, 2, share);
        assert!(delay2 > delay1);

        // Should not exceed max delay
        let large_delay = delay(&config, 20, share);
        assert!(large_delay <= config.max_delay);
    }
}

#[test]
fn retry_delays_have_exact_values() {
    let mut config = RetryConfig::default();
    assert_eq!(config.delay_for_attempt(1, 0, None), Duration::from_millis(100));
    assert_eq!(config.delay_for_attempt(2, 200, None), Duration::from_millis(200));
    assert_eq!(config.delay_for_attempt(2, 200, Some(19)), Duration::from_millis(219));
    assert_eq!(config.delay_for_attempt(9, 25_600, None), Duration::from_secs(10));
    assert_eq!(config.delay_for_attempt(7, 9_999, Some(2)), Duration::from_secs(10));
    assert_eq!(config.delay_for_attempt(0, 200, Some(19)), Duration::from_millis(0));
    // Without backoff every attempt waits alike, and jitter counts whole milliseconds.
    config.exponential_backoff = false;
    config.initial_delay = Duration::from_micros(1500);
    assert_eq!(config.delay_for_attempt(5, 77, None), Duration::from_micros(1500));
    assert_eq!(config.delay_for_attempt(5, 77, Some(0)), Duration::from_millis(1));
    // Milliseconds above the range of a `u64` are dropped.
    config.initial_delay = Duration::from_secs(u64::MAX);
    config.max_delay = Duration::from_secs(u64::MAX);
    assert_eq!(
        config.delay_for_attempt(1, 0, Some(0)),
        Duration::from_millis((u64::MAX as u128 * 1000) as u64)
    );
}

#[test]
fn test_retry_attempts() {
    let config = RetryConfig::default();

    assert!(config.should_retry(0));
    assert!(config.should_retry(1));
    assert!(config.should_retry(2));
    assert!(!config.should_retry(3)); // Default max is 3
}

#[test]
fn the_default_configuration() {
    let config = ClientConfig::default();
    assert_eq!(config.client_info.name, "mcp-client");
    assert_eq!(config.client_info.version, "1.0.0");
    assert_eq!(config.client_info.description.as_deref(), Some("Rust MCP Client Library"));
    assert_eq!(config.client_info.vendor.as_deref(), Some("MCP Framework"));
    assert_eq!(config.timeouts.connect, Duration::from_secs(10));
    assert_eq!(config.timeouts.request, Duration::from_secs(30));
    assert_eq!(config.timeouts.long_operation, Duration::from_secs(300));
    assert_eq!(config.timeouts.initialization, Duration::from_secs(15));
    assert_eq!(config.timeouts.heartbeat, Duration::from_secs(30));
    assert_eq!(config.connection.user_agent.as_deref(), Some("mcp-client/1.0.0"));
    assert!(config.connection.headers.is_none());
    assert!(config.connection.follow_redirects && config.connection.keep_alive);
    assert_eq!(config.connection.max_redirects, 5);
    assert_eq!(config.connection.pool_settings.max_idle_per_host, 5);
    assert_eq!(config.connection.pool_settings.idle_timeout, Duration::from_secs(90));
    assert_eq!(config.connection.pool_settings.max_lifetime, Duration::from_secs(300));
    assert_eq!(config.logging.level, "info");
    assert!(config.logging.log_requests && config.logging.log_responses);
    assert!(!config.logging.log_transport && config.logging.redact_sensitive);
}

#[test]
fn durations_are_written_in_milliseconds() {
    for millis in [0, 1, 90_000, u64::MAX] {
        let duration = duration_serde::deserialize(millis);
        assert_eq!(duration, Duration::from_millis(millis));
        assert_eq!(duration_serde::serialize(&duration), millis);
    }
    assert_eq!(duration_serde::serialize(&Duration::from_micros(1999)), 1);
    assert_eq!(duration_serde::serialize(&Duration::MAX), Duration::MAX.as_millis() as u64);
}

fn no_server_capabilities() -> ServerCapabilities {
    ServerCapabilities {
        experimental: None,
        logging: None,
        prompts: None,
        resources: None,
        tools: None,
        completions: None,
        tasks: None,
    }
}

#[test]
fn test_session_lifecycle() {
    let config = ClientConfig::default();
    let mut manager = SessionManager::new(config);

    // Initial state should be uninitialized
    assert_eq!(manager.state(), SessionState::Uninitialized);
    assert!(!manager.is_ready());

    // Mark as initializing
    manager.mark_initializing().unwrap();
    assert_eq!(manager.state(), SessionState::Initializing);

    // Initialize session
    let client_caps = manager.create_client_capabilities();
    let server_caps = no_server_capabilities();

    manager.initialize(client_caps, server_caps, "2025-11-25".to_string()).unwrap();
    assert_eq!(manager.state(), SessionState::Active);
    assert!(manager.is_ready());

    // Terminate session
    manager.terminate(Some("test completed".to_string()));
    assert_eq!(manager.state(), SessionState::Terminated);
    assert!(!manager.is_ready());
}

#[test]
fn test_session_error_handling() {
    let config = ClientConfig::default();
    let mut manager = SessionManager::new(config);

    manager.handle_error("test error".to_string());

    let SessionState::Error(msg) = manager.state() else {
        panic!("Expected error state, got: {:?}", manager.state());
    };
    assert_eq!(msg, "test error");
}

#[test]
fn test_session_reset() {
    let config = ClientConfig::default();
    let mut manager = SessionManager::new(config);

    // Set a mock session ID to simulate server initialization
    manager.set_session_id("test-session-id".to_string()).unwrap();
    let original_id = manager.session_id().unwrap();
    assert_eq!(original_id, "test-session-id");

    manager.reset();

    // After reset, session_id should return NotInitialized error
    assert!(manager.session_id().is_err());
    assert_eq!(manager.state(), SessionState::Uninitialized);

    // Verify the session ID was actually cleared
    assert!(manager.session_id_optional().is_none());
}

#[test]
fn sessions_are_initialized_once() {
    let mut manager = SessionManager::new(ClientConfig::default());
    assert!(matches!(manager.session_id(), Err(McpClientError::Session(SessionError::NotInitialized))));
    let caps = manager.create_client_capabilities();
    manager.initialize(caps, no_server_capabilities(), "v".to_string()).unwrap();
    assert!(matches!(
        manager.mark_initializing(),
        Err(McpClientError::Session(SessionError::AlreadyInitialized))
    ));
    let caps = manager.create_client_capabilities();
    assert!(matches!(
        manager.initialize(caps, no_server_capabilities(), "w".to_string()),
        Err(McpClientError::Session(SessionError::AlreadyInitialized))
    ));
    assert_eq!(manager.session_info().protocol_version.as_deref(), Some("v"));
    assert!(manager.validate_server_capabilities(&no_server_capabilities()).is_ok());

    manager.start_reconnection();
    assert_eq!(manager.state(), SessionState::Reconnecting);
    assert_eq!(manager.session_info().connection_attempts, 1);
    assert!(!manager.session_info().is_active() && !manager.session_info().is_ready());
    manager.terminate(None);
    manager.start_reconnection();
    assert_eq!(manager.state(), SessionState::Terminated);
    assert_eq!(manager.session_info().connection_attempts, 1);
    manager.set_state(SessionState::Uninitialized);
    assert!(manager.session_info().needs_initialization());
    manager.update_activity();

    let request = manager.create_initialize_request();
    assert_eq!(request.protocol_version, "2025-11-25");
    assert_eq!(request.client_info.name, "mcp-client");
    assert_eq!(request.client_info.version, "1.0.0");
}

#[test]
fn activities_are_noted() {
    let start = Instant::now();
    let mut session = SessionInfo::new_at(start);
    session.update_activity_at(start + Duration::from_secs(7));
    assert_eq!(session.last_activity, start + Duration::from_secs(7));
    assert_eq!(session.created_at, start);
    assert_eq!(session.duration(), Duration::from_secs(7));
    let before = Instant::now();
    session.update_activity();
    assert!(before <= session.last_activity && session.last_activity <= Instant::now());

    let mut manager = SessionManager::new(ClientConfig::default());
    let created = manager.session.created_at;
    manager.update_activity_at(created + Duration::from_secs(3));
    assert_eq!(manager.session.last_activity, created + Duration::from_secs(3));
    assert_eq!(manager.session.duration(), Duration::from_secs(3));
    let before = Instant::now();
    manager.update_activity();
    assert!(before <= manager.session.last_activity && manager.session.last_activity <= Instant::now());
    assert_eq!(manager.session.created_at, created);
}

#[test]
fn every_change_of_state_is_an_activity() {
    let start = Instant::now();
    let at = |seconds: u64| start + Duration::from_secs(seconds);
    let mut manager = SessionManager::new_at(ClientConfig::default(), start);
    assert_eq!((manager.session.created_at, manager.session.last_activity), (start, start));

    manager.mark_initializing_at(at(1)).unwrap();
    assert_eq!((manager.state(), manager.session.last_activity), (SessionState::Initializing, at(1)));
    assert!(manager.mark_initializing_at(at(2)).is_err());
    assert_eq!(manager.session.last_activity, at(1));
    let caps = manager.create_client_capabilities();
    manager.initialize_at(caps, no_server_capabilities(), "v".to_string(), at(3)).unwrap();
    assert_eq!((manager.state(), manager.session.last_activity), (SessionState::Active, at(3)));
    let caps = manager.create_client_capabilities();
    assert!(manager.initialize_at(caps, no_server_capabilities(), "w".to_string(), at(4)).is_err());
    assert_eq!(manager.session.last_activity, at(3));
    manager.handle_error_at("bad".to_string(), at(5));
    assert_eq!((manager.state(), manager.session.last_activity), (SessionState::Error("bad".to_string()), at(5)));
    manager.start_reconnection_at(at(6));
    assert_eq!((manager.state(), manager.session.last_activity), (SessionState::Reconnecting, at(6)));
    manager.set_state_at(SessionState::Active, at(7));
    assert_eq!((manager.state(), manager.session.last_activity), (SessionState::Active, at(7)));
    manager.terminate_at(None, at(8));
    assert_eq!((manager.state(), manager.session.last_activity), (SessionState::Terminated, at(8)));
    manager.start_reconnection_at(at(9));
    assert_eq!((manager.state(), manager.session.last_activity), (SessionState::Terminated, at(8)));
    assert_eq!(manager.session.connection_attempts, 2);

    let before = Instant::now();
    manager.terminate(None);
    assert!(before <= manager.session.last_activity);
    manager.reset_at(at(10));
    assert_eq!((manager.state(), manager.session.created_at), (SessionState::Uninitialized, at(10)));
}

#[test]
fn statistics_tell_of_the_session() {
    let start = Instant::now();
    let mut session = SessionInfo::new_at(start);
    session.last_activity = start + Duration::from_secs(2);
    assert_eq!(session.duration(), Duration::from_secs(2));
    assert_eq!(session.idle_time_at(start + Duration::from_secs(5)), Duration::from_secs(3));
    assert_eq!(session.idle_time_at(start), Duration::from_secs(0));

    let mut manager = SessionManager::new(ClientConfig::default());
    manager.session = session;
    manager.session.state = SessionState::Active;
    manager.session.session_id = Some("0123456789".to_string());
    let statistics = manager.statistics_at(start + Duration::from_millis(2500));
    assert!(statistics.is_healthy());
    assert_eq!(
        statistics.status_summary(),
        "Session 01234567 (active) - Duration: 2s, Idle: 500ms, Attempts: 0"
    );
    assert!(manager.statistics_at(start + Duration::from_millis(301_999)).is_healthy());
    assert!(!manager.statistics_at(start + Duration::from_secs(302)).is_healthy());
    manager.session.state = SessionState::Error("bad".to_string());
    assert!(!manager.statistics().is_healthy());

    let mut statistics = SessionStatistics {
        session_id: None,
        state: SessionState::Error("bad".to_string()),
        duration: Duration::from_nanos(1_500),
        idle_time: Duration::from_secs(0),
        connection_attempts: 12,
        protocol_version: None,
    };
    assert_eq!(
        statistics.status_summary(),
        "Session None (error: bad) - Duration: 1.5µs, Idle: 0ns, Attempts: 12"
    );
    statistics.session_id = Some("short".to_string());
    assert!(statistics.status_summary().starts_with("Session short (error"));
    // Eight bytes can be fewer characters.
    statistics.session_id = Some("ääääxx".to_string());
    assert!(statistics.status_summary().starts_with("Session ääää ("));
}

#[test]
fn states_have_names() {
    for (state, name) in [
        (SessionState::Uninitialized, "uninitialized"),
        (SessionState::Initializing, "initializing"),
        (SessionState::Active, "active"),
        (SessionState::Reconnecting, "reconnecting"),
        (SessionState::Terminated, "terminated"),
        (SessionState::Error("e".to_string()), "error: e"),
    ] {
        assert_eq!(state.to_text(), name);
        assert_eq!(state.copy(), state);
    }
}

#[test]
fn capabilities_become_documents() {
    let mut capabilities = no_server_capabilities();
    assert_eq!(capabilities.to_json(), Json::Object(Vec::new()));
    capabilities.tools = Some(Json::Bool(true));
    capabilities.logging = Some(Json::Null);
    assert_eq!(
        capabilities.to_json(),
        Json::Object(vec![("logging".to_string(), Json::Null), ("tools".to_string(), Json::Bool(true))])
    );
    let mut session = SessionInfo::new();
    let empty = session.summary();
    assert_eq!(empty.capabilities(), Json::Null);
    assert_eq!(empty.info().get("protocolVersion"), Some(&Json::Null));
    session.protocol_version = Some("v".to_string());
    session.server_capabilities = Some(capabilities);
    let summary: ServerSummary = session.summary();
    assert_eq!(summary.info().get_str("protocolVersion").as_deref(), Some("v"));
    assert!(summary.info().get("serverCapabilities").unwrap().has("tools"));
}

#[test]
fn errors_in_words() {
    let transport = |e: TransportError| McpClientError::from(e).to_text();
    let protocol = |e: ProtocolError| McpClientError::from(e).to_text();
    let session = |e: SessionError| McpClientError::from(e).to_text();
    let m = || "m".to_string();
    for (said, expected) in [
        (transport(TransportError::Http(m())), "Transport error: HTTP transport error: m"),
        (transport(TransportError::Sse(m())), "Transport error: SSE transport error: m"),
        (transport(TransportError::Stdio(m())), "Transport error: Stdio transport error: m"),
        (transport(TransportError::Unsupported(m())), "Transport error: Unsupported transport: m"),
        (transport(TransportError::ConnectionFailed(m())), "Transport error: Connection failed: m"),
        (transport(TransportError::Closed), "Transport error: Transport closed unexpectedly"),
        (protocol(ProtocolError::InvalidRequest(m())), "Protocol error: Invalid JSON-RPC request: m"),
        (protocol(ProtocolError::InvalidResponse(m())), "Protocol error: Invalid JSON-RPC response: m"),
        (protocol(ProtocolError::UnsupportedVersion(m())), "Protocol error: Unsupported protocol version: m"),
        (protocol(ProtocolError::MethodNotFound(m())), "Protocol error: Method not found: m"),
        (protocol(ProtocolError::InvalidParams(m())), "Protocol error: Invalid parameters: m"),
        (protocol(ProtocolError::NegotiationFailed(m())), "Protocol error: Protocol negotiation failed: m"),
        (protocol(ProtocolError::CapabilityMismatch(m())), "Protocol error: Capability mismatch: m"),
        (session(SessionError::NotInitialized), "Session error: Session not initialized"),
        (session(SessionError::AlreadyInitialized), "Session error: Session already initialized"),
        (session(SessionError::Expired), "Session error: Session expired"),
        (session(SessionError::Terminated), "Session error: Session terminated"),
        (
            session(SessionError::InvalidState { expected: "a".to_string(), actual: "b".to_string() }),
            "Session error: Invalid session state: expected a, found b",
        ),
        (session(SessionError::RecoveryFailed(m())), "Session error: Session recovery failed: m"),
        (McpClientError::auth(m()).to_text(), "Authentication error: m"),
        (McpClientError::config(m()).to_text(), "Configuration error: m"),
        (McpClientError::Connection(m()).to_text(), "Connection error: m"),
        (McpClientError::Json(m()).to_text(), "JSON error: m"),
        (McpClientError::Timeout.to_text(), "Operation timed out"),
        (McpClientError::server_error(-32601, m(), None).to_text(), "Server error (code -32601): m"),
        (McpClientError::server_error(i32::MIN, m(), None).to_text(), "Server error (code -2147483648): m"),
        (McpClientError::server_error(7, m(), None).to_text(), "Server error (code 7): m"),
        (McpClientError::generic(m()).to_text(), "Error: m"),
    ] {
        assert_eq!(said, expected);
    }
}

#[test]
fn some_errors_may_pass() {
    let server = |code: i32| McpClientError::server_error(code, String::new(), None);
    assert!(server(-32000).is_retryable() && server(-32099).is_retryable());
    assert!(!server(-31999).is_retryable() && !server(-32100).is_retryable());
    assert!(McpClientError::Timeout.is_retryable());
    assert!(McpClientError::Connection(String::new()).is_retryable());
    assert!(McpClientError::from(TransportError::Closed).is_retryable());
    assert!(McpClientError::from(TransportError::ConnectionFailed(String::new())).is_retryable());
    assert!(!McpClientError::from(TransportError::Http(String::new())).is_retryable());
    // Protocol and session errors never do.
    let protocol = McpClientError::from(ProtocolError::InvalidParams(String::new()));
    let session = McpClientError::from(SessionError::Expired);
    assert!(!protocol.is_retryable() && protocol.is_protocol_error() && !protocol.is_session_error());
    assert!(!session.is_retryable() && session.is_session_error() && !session.is_protocol_error());
    assert_eq!(server(5).error_code(), Some(5));
    assert_eq!(session.error_code(), None);
}
