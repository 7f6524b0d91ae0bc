//! Error types for MCP client operations.
use vstd::prelude::*;
use vstd::string::*;

use crate::json::Json;
use crate::text::{
    contains_part, decimal, decimal_text, decimals_stand_for_their_numbers, joined, lemma_contains_between, number_of,
};

verus! {

/// Result type for MCP client operations.
pub type McpClientResult<T> = Result<T, McpClientError>;

/// What can go wrong in an MCP client operation.
#[derive(Debug)]
pub enum McpClientError {
    /// Transport-level errors.
    Transport(TransportError),
    /// Protocol-level errors.
    Protocol(ProtocolError),
    /// Session management errors.
    Session(SessionError),
    /// Authentication and authorization errors.
    Auth(String),
    /// Configuration errors.
    Config(String),
    /// Network errors, as the HTTP client words them.
    Connection(String),
    /// JSON errors, as the parser words them.
    Json(String),
    /// Timeout errors.
    Timeout,
    /// The server returned an error.
    ServerError { code: i32, message: String, data: Option<Json> },
    /// Generic error with context.
    Generic { message: String },
}

/// Transport-specific errors.
#[derive(Debug)]
pub enum TransportError {
    Http(String),
    Sse(String),
    Stdio(String),
    Unsupported(String),
    ConnectionFailed(String),
    Closed,
}

/// Protocol-specific errors.
#[derive(Debug)]
pub enum ProtocolError {
    InvalidRequest(String),
    InvalidResponse(String),
    UnsupportedVersion(String),
    MethodNotFound(String),
    InvalidParams(String),
    NegotiationFailed(String),
    CapabilityMismatch(String),
}

/// Session management errors.
#[derive(Debug)]
pub enum SessionError {
    NotInitialized,
    AlreadyInitialized,
    Expired,
    Terminated,
    InvalidState { expected: String, actual: String },
    RecoveryFailed(String),
}

/// `n` in decimal, with a minus sign where it is negative.
pub open spec fn signed_decimal(n: int) -> Seq<char> {
    if n < 0 {
        "-"@ + decimal((-n) as nat)
    } else {
        decimal(n as nat)
    }
}

/// A signed number in decimal.
fn signed_text(n: i32) -> (r: String)
    ensures
        r@ == signed_decimal(n as int),
{
    if n < 0 {
        joined("-", decimal_text((-(n as i64)) as u64).as_str())
    } else {
        decimal_text(n as u64)
    }
}

impl TransportError {
    /// The wording of the error.
    pub open spec fn wording(self) -> Seq<char> {
        match self {
            TransportError::Http(m) => "HTTP transport error: "@ + m@,
            TransportError::Sse(m) => "SSE transport error: "@ + m@,
            TransportError::Stdio(m) => "Stdio transport error: "@ + m@,
            TransportError::Unsupported(m) => "Unsupported transport: "@ + m@,
            TransportError::ConnectionFailed(m) => "Connection failed: "@ + m@,
            TransportError::Closed => "Transport closed unexpectedly"@,
        }
    }

    /// The error in words.
    pub fn to_text(&self) -> (r: String)
        ensures
            r@ == self.wording(),
    {
        match self {
            TransportError::Http(m) => joined("HTTP transport error: ", m.as_str()),
            TransportError::Sse(m) => joined("SSE transport error: ", m.as_str()),
            TransportError::Stdio(m) => joined("Stdio transport error: ", m.as_str()),
            TransportError::Unsupported(m) => joined("Unsupported transport: ", m.as_str()),
            TransportError::ConnectionFailed(m) => joined("Connection failed: ", m.as_str()),
            TransportError::Closed => "Transport closed unexpectedly".to_owned(),
        }
    }
}

impl ProtocolError {
    /// The wording of the error.
    pub open spec fn wording(self) -> Seq<char> {
        match self {
            ProtocolError::InvalidRequest(m) => "Invalid JSON-RPC request: "@ + m@,
            ProtocolError::InvalidResponse(m) => "Invalid JSON-RPC response: "@ + m@,
            ProtocolError::UnsupportedVersion(m) => "Unsupported protocol version: "@ + m@,
            ProtocolError::MethodNotFound(m) => "Method not found: "@ + m@,
            ProtocolError::InvalidParams(m) => "Invalid parameters: "@ + m@,
            ProtocolError::NegotiationFailed(m) => "Protocol negotiation failed: "@ + m@,
            ProtocolError::CapabilityMismatch(m) => "Capability mismatch: "@ + m@,
        }
    }

    /// The error in words.
    pub fn to_text(&self) -> (r: String)
        ensures
            r@ == self.wording(),
    {
        match self {
            ProtocolError::InvalidRequest(m) => joined("Invalid JSON-RPC request: ", m.as_str()),
            ProtocolError::InvalidResponse(m) => joined("Invalid JSON-RPC response: ", m.as_str()),
            ProtocolError::UnsupportedVersion(m) => joined("Unsupported protocol version: ", m.as_str()),
            ProtocolError::MethodNotFound(m) => joined("Method not found: ", m.as_str()),
            ProtocolError::InvalidParams(m) => joined("Invalid parameters: ", m.as_str()),
            ProtocolError::NegotiationFailed(m) => joined("Protocol negotiation failed: ", m.as_str()),
            ProtocolError::CapabilityMismatch(m) => joined("Capability mismatch: ", m.as_str()),
        }
    }
}

impl SessionError {
    /// The wording of the error.
    pub open spec fn wording(self) -> Seq<char> {
        match self {
            SessionError::NotInitialized => "Session not initialized"@,
            SessionError::AlreadyInitialized => "Session already initialized"@,
            SessionError::Expired => "Session expired"@,
            SessionError::Terminated => "Session terminated"@,
            SessionError::InvalidState { expected, actual } => "Invalid session state: expected "@ + expected@
                + ", found "@ + actual@,
            SessionError::RecoveryFailed(m) => "Session recovery failed: "@ + m@,
        }
    }

    /// The error in words.
    pub fn to_text(&self) -> (r: String)
        ensures
            r@ == self.wording(),
    {
        match self {
            SessionError::NotInitialized => "Session not initialized".to_owned(),
            SessionError::AlreadyInitialized => "Session already initialized".to_owned(),
            SessionError::Expired => "Session expired".to_owned(),
            SessionError::Terminated => "Session terminated".to_owned(),
            SessionError::InvalidState { expected, actual } => {
                let mut r = joined("Invalid session state: expected ", expected.as_str());
                r.append(", found ");
                r.append(actual.as_str());
                r
            },
            SessionError::RecoveryFailed(m) => joined("Session recovery failed: ", m.as_str()),
        }
    }
}

impl From<TransportError> for McpClientError {
    fn from(e: TransportError) -> (r: Self) {
        McpClientError::Transport(e)
    }
}

impl vstd::std_specs::convert::FromSpecImpl<TransportError> for McpClientError {
    open spec fn obeys_from_spec() -> bool {
        true
    }

    open spec fn from_spec(e: TransportError) -> Self {
        McpClientError::Transport(e)
    }
}

impl From<ProtocolError> for McpClientError {
    fn from(e: ProtocolError) -> (r: Self) {
        McpClientError::Protocol(e)
    }
}

impl vstd::std_specs::convert::FromSpecImpl<ProtocolError> for McpClientError {
    open spec fn obeys_from_spec() -> bool {
        true
    }

    open spec fn from_spec(e: ProtocolError) -> Self {
        McpClientError::Protocol(e)
    }
}

impl From<SessionError> for McpClientError {
    fn from(e: SessionError) -> (r: Self) {
        McpClientError::Session(e)
    }
}

impl vstd::std_specs::convert::FromSpecImpl<SessionError> for McpClientError {
    open spec fn obeys_from_spec() -> bool {
        true
    }

    open spec fn from_spec(e: SessionError) -> Self {
        McpClientError::Session(e)
    }
}

impl McpClientError {
    /// Creates a generic error with a message.
    pub fn generic(message: String) -> (r: Self)
        ensures
            r == (McpClientError::Generic { message }),
    {
        McpClientError::Generic { message }
    }

    /// Creates a configuration error.
    pub fn config(message: String) -> (r: Self)
        ensures
            r == McpClientError::Config(message),
    {
        McpClientError::Config(message)
    }

    /// Creates an authentication error.
    pub fn auth(message: String) -> (r: Self)
        ensures
            r == McpClientError::Auth(message),
    {
        McpClientError::Auth(message)
    }

    /// Creates a server error from a JSON-RPC error response.
    pub fn server_error(code: i32, message: String, data: Option<Json>) -> (r: Self)
        ensures
            r == (McpClientError::ServerError { code, message, data }),
    {
        McpClientError::ServerError { code, message, data }
    }

    /// Whether trying again might help: the connection failed or closed, the network or the clock
    /// got in the way, or the server reported one of the errors that JSON-RPC leaves to servers.
    pub open spec fn may_pass(self) -> bool {
        match self {
            McpClientError::Transport(TransportError::ConnectionFailed(_)) => true,
            McpClientError::Transport(TransportError::Closed) => true,
            McpClientError::Connection(_) => true,
            McpClientError::Timeout => true,
            McpClientError::ServerError { code, .. } => -32099 <= code <= -32000,
            _ => false,
        }
    }

    /// Checks whether the error is retryable.
    pub fn is_retryable(&self) -> (r: bool)
        ensures
            r == self.may_pass(),
    {
        match self {
            McpClientError::Transport(TransportError::ConnectionFailed(_)) => true,
            McpClientError::Transport(TransportError::Closed) => true,
            McpClientError::Connection(_) => true,
            McpClientError::Timeout => true,
            McpClientError::ServerError { code, .. } => -32099 <= *code && *code <= -32000,
            _ => false,
        }
    }

    /// Checks whether the error is a protocol-level issue.
    pub fn is_protocol_error(&self) -> (r: bool)
        ensures
            r == (self is Protocol),
    {
        match self {
            McpClientError::Protocol(_) => true,
            _ => false,
        }
    }

    /// Checks whether the error is a session-level issue.
    pub fn is_session_error(&self) -> (r: bool)
        ensures
            r == (self is Session),
    {
        match self {
            McpClientError::Session(_) => true,
            _ => false,
        }
    }

    /// The code of a server error.
    pub fn error_code(&self) -> (r: Option<i32>)
        ensures
            r == (match *self {
                McpClientError::ServerError { code, .. } => Some(code),
                _ => None,
            }),
    {
        match self {
            McpClientError::ServerError { code, .. } => Some(*code),
            _ => None,
        }
    }

    /// The wording of the error.
    pub open spec fn wording(self) -> Seq<char> {
        match self {
            McpClientError::Transport(e) => "Transport error: "@ + e.wording(),
            McpClientError::Protocol(e) => "Protocol error: "@ + e.wording(),
            McpClientError::Session(e) => "Session error: "@ + e.wording(),
            McpClientError::Auth(m) => "Authentication error: "@ + m@,
            McpClientError::Config(m) => "Configuration error: "@ + m@,
            McpClientError::Connection(m) => "Connection error: "@ + m@,
            McpClientError::Json(m) => "JSON error: "@ + m@,
            McpClientError::Timeout => "Operation timed out"@,
            McpClientError::ServerError { code, message, .. } => "Server error (code "@ + signed_decimal(code as int)
                + "): "@ + message@,
            McpClientError::Generic { message } => "Error: "@ + message@,
        }
    }

    /// The error in words.
    pub fn to_text(&self) -> (r: String)
        ensures
            r@ == self.wording(),
    {
        match self {
            McpClientError::Transport(e) => joined("Transport error: ", e.to_text().as_str()),
            McpClientError::Protocol(e) => joined("Protocol error: ", e.to_text().as_str()),
            McpClientError::Session(e) => joined("Session error: ", e.to_text().as_str()),
            McpClientError::Auth(m) => joined("Authentication error: ", m.as_str()),
            McpClientError::Config(m) => joined("Configuration error: ", m.as_str()),
            McpClientError::Connection(m) => joined("Connection error: ", m.as_str()),
            McpClientError::Json(m) => joined("JSON error: ", m.as_str()),
            McpClientError::Timeout => "Operation timed out".to_owned(),
            McpClientError::ServerError { code, message, .. } => {
                let mut r = joined("Server error (code ", signed_text(*code).as_str());
                r.append("): ");
                r.append(message.as_str());
                r
            },
            McpClientError::Generic { message } => joined("Error: ", message.as_str()),
        }
    }
}

/// No protocol error and no session error is worth a second try.
pub proof fn protocol_and_session_errors_are_final(e: McpClientError)
    ensures
        (e is Protocol || e is Session) ==> !e.may_pass(),
{
}

/// Trying again might help exactly where the connection failed or closed, the network or the clock got in
/// the way, or the server's code lies in the range that is left to servers.
pub proof fn what_may_pass(e: McpClientError)
    ensures
        e is Connection || e is Timeout ==> e.may_pass(),
        e is Auth || e is Config || e is Json || e is Generic ==> !e.may_pass(),
        e matches McpClientError::Transport(t) ==> (e.may_pass() <==> t is ConnectionFailed || t is Closed),
        e matches McpClientError::ServerError { code, .. } ==> (e.may_pass() <==> -32099 <= code && code <= -32000),
{
}

/// The wording of an error holds the message that it was made with.
pub proof fn wordings_hold_their_messages(e: McpClientError)
    ensures
        e matches McpClientError::Auth(m) ==> m@.is_suffix_of(e.wording()),
        e matches McpClientError::Config(m) ==> m@.is_suffix_of(e.wording()),
        e matches McpClientError::Connection(m) ==> m@.is_suffix_of(e.wording()),
        e matches McpClientError::Json(m) ==> m@.is_suffix_of(e.wording()),
        e matches McpClientError::Generic { message } ==> message@.is_suffix_of(e.wording()),
        e matches McpClientError::ServerError { code, message, .. } ==> message@.is_suffix_of(e.wording())
            && contains_part(e.wording(), "(code "@ + signed_decimal(code as int) + ")"@),
        e matches McpClientError::Transport(t) ==> t.wording().is_suffix_of(e.wording()) && match t {
            TransportError::Http(m) => m@.is_suffix_of(e.wording()),
            TransportError::Sse(m) => m@.is_suffix_of(e.wording()),
            TransportError::Stdio(m) => m@.is_suffix_of(e.wording()),
            TransportError::Unsupported(m) => m@.is_suffix_of(e.wording()),
            TransportError::ConnectionFailed(m) => m@.is_suffix_of(e.wording()),
            TransportError::Closed => true,
        },
        e matches McpClientError::Protocol(p) ==> match p {
            ProtocolError::InvalidRequest(m) => m@.is_suffix_of(e.wording()),
            ProtocolError::InvalidResponse(m) => m@.is_suffix_of(e.wording()),
            ProtocolError::UnsupportedVersion(m) => m@.is_suffix_of(e.wording()),
            ProtocolError::MethodNotFound(m) => m@.is_suffix_of(e.wording()),
            ProtocolError::InvalidParams(m) => m@.is_suffix_of(e.wording()),
            ProtocolError::NegotiationFailed(m) => m@.is_suffix_of(e.wording()),
            ProtocolError::CapabilityMismatch(m) => m@.is_suffix_of(e.wording()),
        },
        e matches McpClientError::Session(s) ==> s.wording().is_suffix_of(e.wording()) && match s {
            SessionError::InvalidState { expected, actual } => contains_part(
                e.wording(),
                "expected "@ + expected@ + ", found "@ + actual@,
            ),
            SessionError::RecoveryFailed(m) => m@.is_suffix_of(e.wording()),
            _ => true,
        },
{
    let w = e.wording();
    match e {
        McpClientError::Auth(m) => lemma_suffix("Authentication error: "@, m@),
        McpClientError::Config(m) => lemma_suffix("Configuration error: "@, m@),
        McpClientError::Connection(m) => lemma_suffix("Connection error: "@, m@),
        McpClientError::Json(m) => lemma_suffix("JSON error: "@, m@),
        McpClientError::Generic { message } => lemma_suffix("Error: "@, message@),
        McpClientError::ServerError { code, message, .. } => {
            reveal_strlit("Server error (code ");
            reveal_strlit("(code ");
            reveal_strlit("): ");
            reveal_strlit(")");
            let n = signed_decimal(code as int);
            lemma_suffix("Server error (code "@ + n + "): "@, message@);
            let before = "Server error (code "@.take(13);
            let part = "(code "@ + n + ")"@;
            let after = "): "@.skip(1) + message@;
            assert(w =~= before + part + after);
            lemma_contains_between(before, part, after);
        },
        McpClientError::Transport(t) => {
            lemma_suffix("Transport error: "@, t.wording());
            match t {
                TransportError::Http(m) => lemma_two_suffixes("Transport error: "@, "HTTP transport error: "@, m@),
                TransportError::Sse(m) => lemma_two_suffixes("Transport error: "@, "SSE transport error: "@, m@),
                TransportError::Stdio(m) => lemma_two_suffixes("Transport error: "@, "Stdio transport error: "@, m@),
                TransportError::Unsupported(m) => lemma_two_suffixes(
                    "Transport error: "@,
                    "Unsupported transport: "@,
                    m@,
                ),
                TransportError::ConnectionFailed(m) => lemma_two_suffixes(
                    "Transport error: "@,
                    "Connection failed: "@,
                    m@,
                ),
                TransportError::Closed => {},
            }
        },
        McpClientError::Protocol(p) => {
            let first = "Protocol error: "@;
            match p {
                ProtocolError::InvalidRequest(m) => lemma_two_suffixes(first, "Invalid JSON-RPC request: "@, m@),
                ProtocolError::InvalidResponse(m) => lemma_two_suffixes(first, "Invalid JSON-RPC response: "@, m@),
                ProtocolError::UnsupportedVersion(m) => lemma_two_suffixes(first, "Unsupported protocol version: "@, m@),
                ProtocolError::MethodNotFound(m) => lemma_two_suffixes(first, "Method not found: "@, m@),
                ProtocolError::InvalidParams(m) => lemma_two_suffixes(first, "Invalid parameters: "@, m@),
                ProtocolError::NegotiationFailed(m) => lemma_two_suffixes(first, "Protocol negotiation failed: "@, m@),
                ProtocolError::CapabilityMismatch(m) => lemma_two_suffixes(first, "Capability mismatch: "@, m@),
            }
        },
        McpClientError::Session(s) => {
            lemma_suffix("Session error: "@, s.wording());
            match s {
                SessionError::InvalidState { expected, actual } => {
                    reveal_strlit("Invalid session state: expected ");
                    reveal_strlit("expected ");
                    let head = "Invalid session state: expected "@;
                    let part = "expected "@ + expected@ + ", found "@ + actual@;
                    let before = "Session error: "@ + head.take(23);
                    assert(w =~= before + part + Seq::<char>::empty());
                    lemma_contains_between(before, part, Seq::empty());
                },
                SessionError::RecoveryFailed(m) => lemma_two_suffixes(
                    "Session error: "@,
                    "Session recovery failed: "@,
                    m@,
                ),
                _ => {},
            }
        },
        McpClientError::Timeout => {},
    }
}

proof fn lemma_suffix(before: Seq<char>, part: Seq<char>)
    ensures
        part.is_suffix_of(before + part),
{
    let text = before + part;
    assert(text.subrange(text.len() - part.len(), text.len() as int) =~= part);
}

proof fn lemma_two_suffixes(first: Seq<char>, second: Seq<char>, part: Seq<char>)
    ensures
        part.is_suffix_of(first + (second + part)),
{
    let text = first + (second + part);
    assert(text.subrange(text.len() - part.len(), text.len() as int) =~= part);
}

/// A refusal that the server words with its number is passed on with that number: the wording of an HTTP
/// transport error holds whatever the server said.
pub proof fn an_http_refusal_is_passed_on(status_text: Seq<char>, reason: Seq<char>, message: String, part: Seq<char>)
    requires
        message@ == "HTTP error "@ + status_text + ": "@ + reason,
        contains_part(status_text, part),
    ensures
        contains_part(McpClientError::Transport(TransportError::Http(message)).wording(), part),
{
    let at = choose|at: int| crate::text::occurs_at(status_text, part, at);
    let before = "Transport error: "@ + "HTTP transport error: "@ + "HTTP error "@ + status_text.take(at);
    let after = status_text.skip(at + part.len()) + ": "@ + reason;
    assert(part =~= status_text.subrange(at, at + part.len()));
    assert(McpClientError::Transport(TransportError::Http(message)).wording() =~= before + part + after);
    lemma_contains_between(before, part, after);
}

/// A signed number in decimal stands for the number: a minus sign in front takes its opposite.
pub proof fn signed_decimals_stand_for_their_numbers(n: int)
    ensures
        n >= 0 ==> number_of(signed_decimal(n)) == n && signed_decimal(n)[0] != '-',
        n < 0 ==> signed_decimal(n)[0] == '-' && number_of(signed_decimal(n).skip(1)) == -n,
{
    reveal_strlit("-");
    if n < 0 {
        decimals_stand_for_their_numbers((-n) as nat);
        assert(signed_decimal(n).skip(1) =~= decimal((-n) as nat));
    } else {
        decimals_stand_for_their_numbers(n as nat);
    }
}

/// The session errors without a message are told apart by their wordings.
pub proof fn session_errors_are_told_apart(a: SessionError, b: SessionError)
    requires
        a.wording() == b.wording(),
        a is NotInitialized || a is AlreadyInitialized || a is Expired || a is Terminated,
        b is NotInitialized || b is AlreadyInitialized || b is Expired || b is Terminated,
    ensures
        a == b,
{
    reveal_strlit("Session not initialized");
    reveal_strlit("Session already initialized");
    reveal_strlit("Session expired");
    reveal_strlit("Session terminated");
    assert("Session not initialized"@[8] == 'n' && "Session already initialized"@[8] == 'a' && "Session expired"@[8]
        == 'e' && "Session terminated"@[8] == 't');
}

} // verus!
