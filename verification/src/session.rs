//! Session management of an MCP client.
use vstd::prelude::*;
use vstd::string::*;
use vstd::utf8::*;

use std::time::{Duration, Instant};

use crate::config::ClientConfig;
use crate::error::{McpClientError, McpClientResult, SessionError};
use crate::json::{
    lemma_object_view, lookup, member, member_views, opt_view, the_first_member_counts, Json, JsonView,
};
use crate::text::{decimal, decimal_text, joined, opt_text};
use crate::time::{duration_nanos, duration_print, instant_nanos, is_longer, print_duration};
use crate::transport::PROTOCOL_VERSION;

verus! {

/// Session state enumeration.
#[derive(Debug, PartialEq)]
pub enum SessionState {
    /// Session is not initialized.
    Uninitialized,
    /// Session is being initialized.
    Initializing,
    /// Session is active and ready for operations.
    Active,
    /// Session is reconnecting.
    Reconnecting,
    /// Session has been terminated.
    Terminated,
    /// Session encountered an error.
    Error(String),
}

impl SessionState {
    /// The name of the state.
    pub open spec fn wording(self) -> Seq<char> {
        match self {
            SessionState::Uninitialized => "uninitialized"@,
            SessionState::Initializing => "initializing"@,
            SessionState::Active => "active"@,
            SessionState::Reconnecting => "reconnecting"@,
            SessionState::Terminated => "terminated"@,
            SessionState::Error(e) => "error: "@ + e@,
        }
    }

    /// The name of the state.
    pub fn to_text(&self) -> (r: String)
        ensures
            r@ == self.wording(),
    {
        match self {
            SessionState::Uninitialized => "uninitialized".to_owned(),
            SessionState::Initializing => "initializing".to_owned(),
            SessionState::Active => "active".to_owned(),
            SessionState::Reconnecting => "reconnecting".to_owned(),
            SessionState::Terminated => "terminated".to_owned(),
            SessionState::Error(e) => joined("error: ", e.as_str()),
        }
    }

    /// A copy of the state.
    pub fn copy(&self) -> (r: SessionState)
        ensures
            r == *self,
    {
        match self {
            SessionState::Uninitialized => SessionState::Uninitialized,
            SessionState::Initializing => SessionState::Initializing,
            SessionState::Active => SessionState::Active,
            SessionState::Reconnecting => SessionState::Reconnecting,
            SessionState::Terminated => SessionState::Terminated,
            SessionState::Error(e) => SessionState::Error(e.clone()),
        }
    }
}

/// What a client can do.
#[derive(Debug)]
pub struct ClientCapabilities {
    pub experimental: Option<Json>,
    pub sampling: Option<Json>,
    pub elicitation: Option<Json>,
    pub roots: Option<Json>,
    pub tasks: Option<Json>,
}

/// What a server can do.
#[derive(Debug)]
pub struct ServerCapabilities {
    pub experimental: Option<Json>,
    pub logging: Option<Json>,
    pub prompts: Option<Json>,
    pub resources: Option<Json>,
    pub tools: Option<Json>,
    pub completions: Option<Json>,
    pub tasks: Option<Json>,
}

/// Who a client or a server is.
#[derive(Debug)]
pub struct Implementation {
    pub name: String,
    pub version: String,
    pub title: Option<String>,
    pub description: Option<String>,
    pub website_url: Option<String>,
    pub icons: Option<Json>,
}

/// The first request of a session.
#[derive(Debug)]
pub struct InitializeRequest {
    pub protocol_version: String,
    pub capabilities: ClientCapabilities,
    pub client_info: Implementation,
}

/// A member for a capability that is there.
pub open spec fn capability(name: Seq<char>, value: Option<Json>) -> Seq<(Seq<char>, JsonView)> {
    match value {
        Some(json) => seq![(name, json@)],
        None => Seq::empty(),
    }
}

fn add_capability(members: &mut Vec<(String, Json)>, name: &str, value: &Option<Json>)
    ensures
        member_views(final(members)@) == member_views(old(members)@) + capability(name@, *value),
{
    match value {
        Some(json) => {
            members.push((name.to_owned(), json.copy()));
        },
        None => {},
    }
    assert(member_views(members@) =~= member_views(old(members)@) + capability(name@, *value));
}

impl ServerCapabilities {
    /// The capabilities as a document: an object of those that are there.
    pub open spec fn document(self) -> JsonView {
        JsonView::Object(
            capability("completions"@, self.completions) + capability("experimental"@, self.experimental) + capability(
                "logging"@,
                self.logging,
            ) + capability("prompts"@, self.prompts) + capability("resources"@, self.resources) + capability(
                "tasks"@,
                self.tasks,
            ) + capability("tools"@, self.tools),
        )
    }

    /// The capabilities as a document.
    pub fn to_json(&self) -> (j: Json)
        ensures
            j@ == self.document(),
    {
        let mut members: Vec<(String, Json)> = Vec::new();
        assert(member_views(members@) =~= Seq::empty());
        add_capability(&mut members, "completions", &self.completions);
        assert(member_views(members@) =~= capability("completions"@, self.completions));
        add_capability(&mut members, "experimental", &self.experimental);
        add_capability(&mut members, "logging", &self.logging);
        add_capability(&mut members, "prompts", &self.prompts);
        add_capability(&mut members, "resources", &self.resources);
        add_capability(&mut members, "tasks", &self.tasks);
        add_capability(&mut members, "tools", &self.tools);
        let j = Json::Object(members);
        proof {
            lemma_object_view(j);
        }
        j
    }
}

/// What a session says about its server.
#[derive(Debug)]
pub struct ServerSummary {
    pub protocol_version: Option<String>,
    pub server_capabilities: Option<Json>,
}

impl ServerSummary {
    /// The capabilities as a document, null where none are known.
    pub open spec fn capabilities_json(self) -> JsonView {
        match self.server_capabilities {
            Some(c) => c@,
            None => JsonView::Null,
        }
    }

    /// The description that the page shows.
    pub open spec fn info_json(self) -> JsonView {
        JsonView::Object(
            seq![
                (
                    "protocolVersion"@,
                    match self.protocol_version {
                        Some(v) => JsonView::Text(v@),
                        None => JsonView::Null,
                    },
                ),
                ("serverCapabilities"@, self.capabilities_json()),
            ],
        )
    }

    /// The capabilities as a document.
    pub fn capabilities(&self) -> (j: Json)
        ensures
            j@ == self.capabilities_json(),
    {
        match &self.server_capabilities {
            Some(c) => c.copy(),
            None => Json::Null,
        }
    }

    /// The description that the page shows.
    pub fn info(&self) -> (j: Json)
        ensures
            j@ == self.info_json(),
    {
        let version = match &self.protocol_version {
            Some(v) => Json::Text(v.clone()),
            None => Json::Null,
        };
        let mut members: Vec<(String, Json)> = Vec::new();
        members.push(("protocolVersion".to_owned(), version));
        members.push(("serverCapabilities".to_owned(), self.capabilities()));
        let ghost all = member_views(members@);
        let j = Json::Object(members);
        proof {
            lemma_object_view(j);
            assert(all =~= self.info_json()->Object_0);
        }
        j
    }
}

/// Session information and metadata.
#[derive(Debug)]
pub struct SessionInfo {
    /// Session identifier from the server (none until the server provides it).
    pub session_id: Option<String>,
    /// Session state.
    pub state: SessionState,
    /// Client capabilities sent during initialization.
    pub client_capabilities: Option<ClientCapabilities>,
    /// Server capabilities received during initialization.
    pub server_capabilities: Option<ServerCapabilities>,
    /// Protocol version negotiated.
    pub protocol_version: Option<String>,
    /// Session creation timestamp.
    pub created_at: Instant,
    /// Last activity timestamp.
    pub last_activity: Instant,
    /// Connection attempt count.
    pub connection_attempts: u32,
    /// Session metadata.
    pub metadata: Json,
}

/// The nanoseconds from one instant to a later one.
pub open spec fn nanos_from(earlier: Instant, later: Instant) -> nat {
    if instant_nanos(later) >= instant_nanos(earlier) {
        (instant_nanos(later) - instant_nanos(earlier)) as nat
    } else {
        0
    }
}

impl SessionInfo {
    /// A session that was created at that instant, and in which nothing has happened yet.
    pub open spec fn is_fresh(self, now: Instant) -> bool {
        &&& self.session_id is None
        &&& self.state is Uninitialized
        &&& self.client_capabilities is None
        &&& self.server_capabilities is None
        &&& self.protocol_version is None
        &&& self.created_at == now
        &&& self.last_activity == now
        &&& self.connection_attempts == 0
        &&& self.metadata@ == JsonView::Null
    }

    /// A session that is created at that instant.
    pub fn new_at(now: Instant) -> (s: Self)
        ensures
            s.is_fresh(now),
    {
        SessionInfo {
            session_id: None,
            state: SessionState::Uninitialized,
            client_capabilities: None,
            server_capabilities: None,
            protocol_version: None,
            created_at: now,
            last_activity: now,
            connection_attempts: 0,
            metadata: Json::Null,
        }
    }

    /// Creates a session.
    pub fn new() -> (s: Self)
        ensures
            s.is_fresh(s.created_at),
    {
        SessionInfo::new_at(Instant::now())
    }

    /// Takes note of an activity at that instant.
    pub fn update_activity_at(&mut self, now: Instant)
        ensures
            *final(self) == (SessionInfo { last_activity: now, ..*old(self) }),
    {
        self.last_activity = now;
    }

    /// Takes note of an activity now. The time of it is what the clock reads, of which nothing is
    /// known.
    pub fn update_activity(&mut self)
        ensures
            *final(self) == (SessionInfo { last_activity: final(self).last_activity, ..*old(self) }),
    {
        self.update_activity_at(Instant::now());
    }

    /// The time from the creation of the session to its last activity.
    pub fn duration(&self) -> (d: Duration)
        ensures
            duration_nanos(d) == nanos_from(self.created_at, self.last_activity),
    {
        self.last_activity.duration_since(self.created_at)
    }

    /// The time from the last activity to that instant.
    pub fn idle_time_at(&self, now: Instant) -> (d: Duration)
        ensures
            duration_nanos(d) == nanos_from(self.last_activity, now),
    {
        now.duration_since(self.last_activity)
    }

    /// The time from the last activity to now.
    pub fn idle_time(&self) -> (d: Duration)
        ensures
            exists|now: Instant| duration_nanos(d) == #[trigger] nanos_from(self.last_activity, now),
    {
        self.idle_time_at(Instant::now())
    }

    /// Whether the session is active.
    pub fn is_active(&self) -> (r: bool)
        ensures
            r == (self.state is Active),
    {
        matches!(self.state, SessionState::Active)
    }

    /// Whether the session can be used for operations.
    pub fn is_ready(&self) -> (r: bool)
        ensures
            r == (self.state is Active),
    {
        matches!(self.state, SessionState::Active)
    }

    /// Whether the session needs initialization.
    pub fn needs_initialization(&self) -> (r: bool)
        ensures
            r == (self.state is Uninitialized),
    {
        matches!(self.state, SessionState::Uninitialized)
    }

    /// What the session says about its server.
    pub fn summary(&self) -> (s: ServerSummary)
        ensures
            opt_text(s.protocol_version) == opt_text(self.protocol_version),
            match self.server_capabilities {
                Some(c) => s.server_capabilities matches Some(j) && j@ == c.document(),
                None => s.server_capabilities is None,
            },
    {
        let server_capabilities = match &self.server_capabilities {
            Some(c) => Some(c.to_json()),
            None => None,
        };
        ServerSummary { protocol_version: self.protocol_version.clone(), server_capabilities }
    }
}

impl Default for SessionInfo {
    fn default() -> (s: Self)
        ensures
            s.is_fresh(s.created_at),
    {
        SessionInfo::new()
    }
}

/// The session manager keeps the session and its state.
#[derive(Debug)]
pub struct SessionManager {
    /// Current session information.
    pub session: SessionInfo,
    /// Client configuration.
    pub config: ClientConfig,
}

impl SessionManager {
    /// The manager after its session was put into a state at an instant: nothing else changes but the
    /// time of the last activity.
    pub open spec fn moved(self, state: SessionState, now: Instant) -> Self {
        SessionManager { session: SessionInfo { state, last_activity: now, ..self.session }, ..self }
    }

    /// The manager after its session began an attempt to connect at an instant.
    pub open spec fn attempting(self, state: SessionState, now: Instant) -> Self {
        SessionManager {
            session: SessionInfo {
                state,
                connection_attempts: (self.session.connection_attempts + 1) as u32,
                last_activity: now,
                ..self.session
            },
            ..self
        }
    }

    /// What initializing the session at an instant does: a session is initialized once.
    pub open spec fn initializes(
        self,
        after: Self,
        r: McpClientResult<()>,
        client_capabilities: ClientCapabilities,
        server_capabilities: ServerCapabilities,
        protocol_version: String,
        now: Instant,
    ) -> bool {
        if self.session.state is Uninitialized || self.session.state is Initializing {
            &&& r is Ok
            &&& after == (SessionManager {
                session: SessionInfo {
                    client_capabilities: Some(client_capabilities),
                    server_capabilities: Some(server_capabilities),
                    protocol_version: Some(protocol_version),
                    state: SessionState::Active,
                    last_activity: now,
                    ..self.session
                },
                ..self
            })
        } else {
            &&& r matches Err(McpClientError::Session(SessionError::AlreadyInitialized))
            &&& after == self
        }
    }

    /// What marking the session as being initialized at an instant does.
    pub open spec fn marks(self, after: Self, r: McpClientResult<()>, now: Instant) -> bool {
        if self.session.state is Uninitialized {
            &&& r is Ok
            &&& after == self.attempting(SessionState::Initializing, now)
        } else {
            &&& r matches Err(McpClientError::Session(SessionError::AlreadyInitialized))
            &&& after == self
        }
    }

    /// The manager after it started to reconnect at an instant.
    pub open spec fn reconnecting(self, now: Instant) -> Self {
        if self.session.state is Terminated {
            self
        } else {
            self.attempting(SessionState::Reconnecting, now)
        }
    }

    /// A session manager whose session is created at that instant.
    pub fn new_at(config: ClientConfig, now: Instant) -> (m: Self)
        ensures
            m.session.is_fresh(now),
            m.config == config,
    {
        SessionManager { session: SessionInfo::new_at(now), config }
    }

    /// Creates a session manager.
    pub fn new(config: ClientConfig) -> (m: Self)
        ensures
            m.session.is_fresh(m.session.created_at),
            m.config == config,
    {
        SessionManager::new_at(config, Instant::now())
    }

    /// The current session.
    pub fn session_info(&self) -> (s: &SessionInfo)
        ensures
            *s == self.session,
    {
        &self.session
    }

    /// The session ID, which the server provides; an error before that.
    pub fn session_id(&self) -> (r: McpClientResult<String>)
        ensures
            match self.session.session_id {
                Some(id) => r matches Ok(s) && s@ == id@,
                None => r matches Err(McpClientError::Session(SessionError::NotInitialized)),
            },
    {
        match &self.session.session_id {
            Some(id) => Ok(id.clone()),
            None => Err(McpClientError::Session(SessionError::NotInitialized)),
        }
    }

    /// The session ID, if the server has provided it.
    pub fn session_id_optional(&self) -> (r: Option<String>)
        ensures
            opt_text(r) == opt_text(self.session.session_id),
    {
        self.session.session_id.clone()
    }

    /// Keeps the session ID that the server provides.
    pub fn set_session_id(&mut self, session_id: String) -> (r: McpClientResult<()>)
        ensures
            r is Ok,
            *final(self) == (SessionManager {
                session: SessionInfo { session_id: Some(session_id), ..old(self).session },
                ..*old(self)
            }),
    {
        self.session.session_id = Some(session_id);
        Ok(())
    }

    /// The state of the session.
    pub fn state(&self) -> (s: SessionState)
        ensures
            s == self.session.state,
    {
        self.session.state.copy()
    }

    /// Puts the session into a state at that instant.
    pub fn set_state_at(&mut self, state: SessionState, now: Instant)
        ensures
            *final(self) == old(self).moved(state, now),
    {
        self.session.state = state;
        self.session.update_activity_at(now);
    }

    /// Puts the session into a state. Here and below, what is done now is done at the instant that the
    /// clock reads, of which nothing is known.
    pub fn set_state(&mut self, state: SessionState)
        ensures
            *final(self) == old(self).moved(state, final(self).session.last_activity),
    {
        self.set_state_at(state, Instant::now());
    }

    /// Whether the session can be used for operations.
    pub fn is_ready(&self) -> (r: bool)
        ensures
            r == (self.session.state is Active),
    {
        self.session.is_ready()
    }

    /// Initializes the session at that instant with what both sides can do. A session is initialized
    /// once.
    pub fn initialize_at(
        &mut self,
        client_capabilities: ClientCapabilities,
        server_capabilities: ServerCapabilities,
        protocol_version: String,
        now: Instant,
    ) -> (r: McpClientResult<()>)
        ensures
            old(self).initializes(
                *final(self),
                r,
                client_capabilities,
                server_capabilities,
                protocol_version,
                now,
            ),
    {
        let open = matches!(self.session.state, SessionState::Uninitialized) || matches!(
            self.session.state,
            SessionState::Initializing
        );
        if !open {
            return Err(McpClientError::Session(SessionError::AlreadyInitialized));
        }
        self.session.client_capabilities = Some(client_capabilities);
        self.session.server_capabilities = Some(server_capabilities);
        self.session.protocol_version = Some(protocol_version);
        self.session.state = SessionState::Active;
        self.session.update_activity_at(now);
        Ok(())
    }

    /// Initializes the session with what both sides can do.
    pub fn initialize(
        &mut self,
        client_capabilities: ClientCapabilities,
        server_capabilities: ServerCapabilities,
        protocol_version: String,
    ) -> (r: McpClientResult<()>)
        ensures
            old(self).initializes(
                *final(self),
                r,
                client_capabilities,
                server_capabilities,
                protocol_version,
                final(self).session.last_activity,
            ),
    {
        self.initialize_at(client_capabilities, server_capabilities, protocol_version, Instant::now())
    }

    /// Marks the session as being initialized at that instant. Only one that is not initialized can be.
    pub fn mark_initializing_at(&mut self, now: Instant) -> (r: McpClientResult<()>)
        requires
            old(self).session.state is Uninitialized ==> old(self).session.connection_attempts < u32::MAX,
        ensures
            old(self).marks(*final(self), r, now),
    {
        if !self.session.needs_initialization() {
            return Err(McpClientError::Session(SessionError::AlreadyInitialized));
        }
        self.session.state = SessionState::Initializing;
        self.session.connection_attempts = self.session.connection_attempts + 1;
        self.session.update_activity_at(now);
        Ok(())
    }

    /// Marks the session as being initialized.
    pub fn mark_initializing(&mut self) -> (r: McpClientResult<()>)
        requires
            old(self).session.state is Uninitialized ==> old(self).session.connection_attempts < u32::MAX,
        ensures
            old(self).marks(*final(self), r, final(self).session.last_activity),
    {
        self.mark_initializing_at(Instant::now())
    }

    /// Terminates the session at that instant; the reason is for the caller's log.
    pub fn terminate_at(&mut self, _reason: Option<String>, now: Instant)
        ensures
            *final(self) == old(self).moved(SessionState::Terminated, now),
    {
        self.set_state_at(SessionState::Terminated, now);
    }

    /// Terminates the session.
    pub fn terminate(&mut self, reason: Option<String>)
        ensures
            *final(self) == old(self).moved(SessionState::Terminated, final(self).session.last_activity),
    {
        self.terminate_at(reason, Instant::now());
    }

    /// Takes note of an error at that instant.
    pub fn handle_error_at(&mut self, error: String, now: Instant)
        ensures
            *final(self) == old(self).moved(SessionState::Error(error), now),
    {
        self.set_state_at(SessionState::Error(error), now);
    }

    /// Takes note of an error.
    pub fn handle_error(&mut self, error: String)
        ensures
            *final(self) == old(self).moved(SessionState::Error(error), final(self).session.last_activity),
    {
        self.handle_error_at(error, Instant::now());
    }

    /// Starts to reconnect at that instant. A session that was terminated stays so.
    pub fn start_reconnection_at(&mut self, now: Instant)
        requires
            !(old(self).session.state is Terminated) ==> old(self).session.connection_attempts < u32::MAX,
        ensures
            *final(self) == old(self).reconnecting(now),
    {
        if matches!(self.session.state, SessionState::Terminated) {
            return;
        }
        self.session.state = SessionState::Reconnecting;
        self.session.connection_attempts = self.session.connection_attempts + 1;
        self.session.update_activity_at(now);
    }

    /// Starts to reconnect.
    pub fn start_reconnection(&mut self)
        requires
            !(old(self).session.state is Terminated) ==> old(self).session.connection_attempts < u32::MAX,
        ensures
            *final(self) == old(self).reconnecting(final(self).session.last_activity),
    {
        self.start_reconnection_at(Instant::now());
    }

    /// Begins anew with a session that is created at that instant.
    pub fn reset_at(&mut self, now: Instant)
        ensures
            final(self).session.is_fresh(now),
            final(self).config == old(self).config,
    {
        self.session = SessionInfo::new_at(now);
    }

    /// Begins anew with a fresh session.
    pub fn reset(&mut self)
        ensures
            final(self).session.is_fresh(final(self).session.created_at),
            final(self).config == old(self).config,
    {
        self.reset_at(Instant::now());
    }

    /// Takes note of an activity at that instant.
    pub fn update_activity_at(&mut self, now: Instant)
        ensures
            *final(self) == (SessionManager {
                session: SessionInfo { last_activity: now, ..old(self).session },
                ..*old(self)
            }),
    {
        self.session.update_activity_at(now);
    }

    /// Takes note of an activity now. The time of it is what the clock reads, of which nothing is
    /// known.
    pub fn update_activity(&mut self)
        ensures
            *final(self) == (SessionManager {
                session: SessionInfo { last_activity: final(self).session.last_activity, ..old(self).session },
                ..*old(self)
            }),
    {
        self.update_activity_at(Instant::now());
    }

    /// What this client can do.
    pub fn create_client_capabilities(&self) -> (c: ClientCapabilities)
        ensures
            c == (ClientCapabilities {
                experimental: None,
                sampling: None,
                elicitation: None,
                roots: None,
                tasks: None,
            }),
    {
        ClientCapabilities { experimental: None, sampling: None, elicitation: None, roots: None, tasks: None }
    }

    /// The first request of a session.
    pub fn create_initialize_request(&self) -> (r: InitializeRequest)
        ensures
            r.protocol_version@ == PROTOCOL_VERSION@,
            r.capabilities == (ClientCapabilities {
                experimental: None,
                sampling: None,
                elicitation: None,
                roots: None,
                tasks: None,
            }),
            r.client_info.name@ == self.config.client_info.name@,
            r.client_info.version@ == self.config.client_info.version@,
            r.client_info.title is None,
            r.client_info.description is None,
            r.client_info.website_url is None,
            r.client_info.icons is None,
    {
        InitializeRequest {
            protocol_version: PROTOCOL_VERSION.to_owned(),
            capabilities: self.create_client_capabilities(),
            client_info: Implementation {
                name: self.config.client_info.name.clone(),
                version: self.config.client_info.version.clone(),
                title: None,
                description: None,
                website_url: None,
                icons: None,
            },
        }
    }

    /// Validates what the server can do. Anything is accepted.
    pub fn validate_server_capabilities(&self, _server_capabilities: &ServerCapabilities) -> (r: McpClientResult<()>)
        ensures
            r is Ok,
    {
        Ok(())
    }

    /// The statistics of the session as of an instant.
    pub fn statistics_at(&self, now: Instant) -> (s: SessionStatistics)
        ensures
            s.describes(self.session, now),
    {
        SessionStatistics {
            session_id: self.session.session_id.clone(),
            state: self.session.state.copy(),
            duration: self.session.duration(),
            idle_time: self.session.idle_time_at(now),
            connection_attempts: self.session.connection_attempts,
            protocol_version: self.session.protocol_version.clone(),
        }
    }

    /// The statistics of the session as of now.
    pub fn statistics(&self) -> (s: SessionStatistics)
        ensures
            exists|now: Instant| #[trigger] s.describes(self.session, now),
    {
        let now = Instant::now();
        let s = self.statistics_at(now);
        assert(s.describes(self.session, now));
        s
    }
}

/// Session statistics for monitoring and debugging.
#[derive(Debug)]
pub struct SessionStatistics {
    pub session_id: Option<String>,
    pub state: SessionState,
    pub duration: Duration,
    pub idle_time: Duration,
    pub connection_attempts: u32,
    pub protocol_version: Option<String>,
}

/// How many bytes of a session ID are shown.
pub open spec fn shown_bytes(id: Seq<char>) -> int {
    if encode_utf8(id).len() < 8 {
        encode_utf8(id).len() as int
    } else {
        8
    }
}

/// What is shown of a session ID: its first eight bytes.
pub open spec fn shown_id(id: Option<Seq<char>>) -> Seq<char> {
    match id {
        Some(text) => decode_utf8(encode_utf8(text).subrange(0, shown_bytes(text))),
        None => "None"@,
    }
}

impl SessionStatistics {
    /// Whether these are the statistics of a session as of an instant.
    pub open spec fn describes(self, session: SessionInfo, now: Instant) -> bool {
        &&& opt_text(self.session_id) == opt_text(session.session_id)
        &&& self.state == session.state
        &&& duration_nanos(self.duration) == nanos_from(session.created_at, session.last_activity)
        &&& duration_nanos(self.idle_time) == nanos_from(session.last_activity, now)
        &&& self.connection_attempts == session.connection_attempts
        &&& opt_text(self.protocol_version) == opt_text(session.protocol_version)
    }

    /// Whether the session is healthy: active, and idle for less than five minutes.
    pub fn is_healthy(&self) -> (r: bool)
        ensures
            r == (self.state is Active && duration_nanos(self.idle_time) < 300 * 1_000_000_000),
    {
        let active = matches!(self.state, SessionState::Active);
        active && is_longer(&Duration::from_secs(300), &self.idle_time)
    }

    /// The status of the session in words. A session ID is cut behind its eighth byte, which has to
    /// be the end of a character.
    pub fn status_summary(&self) -> (r: String)
        requires
            self.session_id matches Some(id) ==> is_char_boundary(encode_utf8(id@), shown_bytes(id@)),
        ensures
            r@ == "Session "@ + shown_id(opt_text(self.session_id)) + " ("@ + self.state.wording()
                + ") - Duration: "@ + duration_print(duration_nanos(self.duration)) + ", Idle: "@ + duration_print(
                duration_nanos(self.idle_time),
            ) + ", Attempts: "@ + decimal(self.connection_attempts as nat),
    {
        let shown = match &self.session_id {
            Some(id) => {
                let size = id.as_str().as_bytes().len();
                let cut = if size < 8 {
                    size
                } else {
                    8
                };
                let (head, _tail) = id.as_str().split_at(cut);
                proof {
                    encode_utf8_decode_utf8(head@);
                }
                head.to_owned()
            },
            None => "None".to_owned(),
        };
        let mut r = joined("Session ", shown.as_str());
        r.append(" (");
        r.append(self.state.to_text().as_str());
        r.append(") - Duration: ");
        r.append(print_duration(&self.duration).as_str());
        r.append(", Idle: ");
        r.append(print_duration(&self.idle_time).as_str());
        r.append(", Attempts: ");
        r.append(decimal_text(self.connection_attempts as u64).as_str());
        r
    }
}

/// A session ID of ASCII characters can always be shown: what is shown are its first eight
/// characters.
pub proof fn ascii_ids_can_be_shown(id: Seq<char>)
    requires
        is_ascii_chars(id),
    ensures
        is_char_boundary(encode_utf8(id), shown_bytes(id)),
        shown_id(Some(id)) == id.take(if id.len() < 8 {
            id.len() as int
        } else {
            8
        }),
{
    let bytes = encode_utf8(id);
    let n = shown_bytes(id);
    is_ascii_chars_encode_utf8(id);
    encode_utf8_valid_utf8(id);
    if n < bytes.len() {
        assert('\0' <= id[n] <= '\u{7f}');
        assert(bytes[n] == id[n] as u8);
        is_char_boundary_iff_not_is_continuation_byte(bytes, n);
    } else {
        is_char_boundary_start_end_of_seq(bytes);
    }
    let head = id.take(n);
    assert(is_ascii_chars(head));
    is_ascii_chars_encode_utf8(head);
    assert(encode_utf8(head) =~= bytes.subrange(0, n)) by {
        assert forall|i: int| 0 <= i < n implies encode_utf8(head)[i] == bytes[i] by {
            assert(head[i] == id[i]);
        }
    }
    encode_utf8_decode_utf8(head);
}

// -- What holds of a session.

/// A session is initialized once: from a fresh one, or one that is being initialized, it becomes active
/// with what both sides can do; and from then on initializing it fails and changes nothing, until it is
/// begun anew.
pub proof fn a_session_is_initialized_once(
    before: SessionManager,
    after: SessionManager,
    r: McpClientResult<()>,
    client: ClientCapabilities,
    server: ServerCapabilities,
    version: String,
    now: Instant,
    again: SessionManager,
    second: McpClientResult<()>,
    later: Instant,
)
    requires
        before.initializes(after, r, client, server, version, now),
        after.initializes(again, second, client, server, version, later),
    ensures
        before.session.state is Uninitialized || before.session.state is Initializing ==> {
            &&& r is Ok
            &&& after.session.state is Active
            &&& after.session.client_capabilities == Some(client)
            &&& after.session.server_capabilities == Some(server)
            &&& after.session.protocol_version == Some(version)
            &&& after.session.last_activity == now
            &&& after.session.session_id == before.session.session_id
            &&& after.session.connection_attempts == before.session.connection_attempts
            &&& after.session.created_at == before.session.created_at
        },
        before.session.state is Active || before.session.state is Reconnecting || before.session.state is Terminated
            || before.session.state is Error ==> r is Err && after == before,
        second is Err,
        again == after,
        after.config == before.config,
{
}

/// Every attempt to connect is counted, with its time, and nothing else is touched by it: marking a session
/// as being initialized, which only one that is not initialized can be; and reconnecting, which any can but
/// one that was terminated.
pub proof fn every_attempt_is_counted(before: SessionManager, after: SessionManager, r: McpClientResult<()>, now: Instant)
    requires
        before.session.connection_attempts < u32::MAX,
    ensures
        before.marks(after, r, now) ==> {
            &&& r is Ok <==> before.session.state is Uninitialized
            &&& r is Err ==> after == before
            &&& r is Ok ==> {
                &&& after.session.state is Initializing
                &&& after.session.connection_attempts == before.session.connection_attempts + 1
                &&& after.session.last_activity == now
                &&& after.session.session_id == before.session.session_id
                &&& after.session.created_at == before.session.created_at
                &&& after.config == before.config
            }
        },
        before.session.state is Terminated ==> before.reconnecting(now) == before,
        !(before.session.state is Terminated) ==> {
            let again = before.reconnecting(now);
            &&& again.session.state is Reconnecting
            &&& again.session.connection_attempts == before.session.connection_attempts + 1
            &&& again.session.last_activity == now
            &&& again.session.session_id == before.session.session_id
            &&& again.session.client_capabilities == before.session.client_capabilities
            &&& again.session.server_capabilities == before.session.server_capabilities
            &&& again.session.protocol_version == before.session.protocol_version
            &&& again.session.created_at == before.session.created_at
            &&& again.session.metadata == before.session.metadata
            &&& again.config == before.config
        },
{
}

/// Putting a session into a state sets the state and the time, and leaves everything else alone.
pub proof fn a_state_is_all_that_is_set(before: SessionManager, state: SessionState, now: Instant)
    ensures
        ({
            let after = before.moved(state, now);
            &&& after.session.state == state
            &&& after.session.last_activity == now
            &&& after.session.session_id == before.session.session_id
            &&& after.session.client_capabilities == before.session.client_capabilities
            &&& after.session.server_capabilities == before.session.server_capabilities
            &&& after.session.protocol_version == before.session.protocol_version
            &&& after.session.created_at == before.session.created_at
            &&& after.session.connection_attempts == before.session.connection_attempts
            &&& after.session.metadata == before.session.metadata
            &&& after.config == before.config
        }),
{
}

/// A session that begins knows nothing of a server, and was never tried.
pub proof fn a_fresh_session_knows_nothing(session: SessionInfo, now: Instant)
    requires
        session.is_fresh(now),
    ensures
        session.state is Uninitialized,
        session.session_id is None && session.client_capabilities is None && session.server_capabilities is None,
        session.protocol_version is None && session.connection_attempts == 0,
        nanos_from(session.created_at, session.last_activity) == 0,
        session.created_at == now,
{
}

/// The time between two instants is their distance where the second one is later, and none otherwise.
pub proof fn time_does_not_run_back(a: Instant, b: Instant)
    ensures
        instant_nanos(a) <= instant_nanos(b) ==> instant_nanos(a) + nanos_from(a, b) == instant_nanos(b),
        instant_nanos(a) >= instant_nanos(b) ==> nanos_from(a, b) == 0,
{
}

/// The names of the states tell them apart.
pub proof fn states_are_told_apart(a: SessionState, b: SessionState)
    requires
        a.wording() == b.wording(),
    ensures
        a is Uninitialized <==> b is Uninitialized,
        a is Initializing <==> b is Initializing,
        a is Active <==> b is Active,
        a is Reconnecting <==> b is Reconnecting,
        a is Terminated <==> b is Terminated,
        a matches SessionState::Error(e) ==> b is Error && b->Error_0@ == e@,
{
    reveal_strlit("uninitialized");
    reveal_strlit("initializing");
    reveal_strlit("active");
    reveal_strlit("reconnecting");
    reveal_strlit("terminated");
    reveal_strlit("error: ");
    assert("uninitialized"@[0] == 'u' && "initializing"@[0] == 'i' && "active"@[0] == 'a' && "reconnecting"@[0] == 'r'
        && "terminated"@[0] == 't' && "error: "@[0] == 'e');
    assert(a is Error ==> a.wording()[0] == 'e');
    assert(b is Error ==> b.wording()[0] == 'e');
    if a is Error && b is Error {
        assert(a->Error_0@ =~= a.wording().skip(7));
        assert(b->Error_0@ =~= b.wording().skip(7));
    }
}

proof fn lemma_lookup_concat(a: Seq<(Seq<char>, JsonView)>, b: Seq<(Seq<char>, JsonView)>, key: Seq<char>)
    ensures
        lookup(a + b, key) == (if lookup(a, key) is Some {
            lookup(a, key)
        } else {
            lookup(b, key)
        }),
    decreases a.len(),
{
    if a.len() == 0 {
        assert(a + b =~= b);
    } else {
        assert((a + b)[0] == a[0]);
        assert((a + b).drop_first() =~= a.drop_first() + b);
        lemma_lookup_concat(a.drop_first(), b, key);
    }
}

proof fn lemma_capability_lookup(name: Seq<char>, value: Option<Json>, key: Seq<char>)
    ensures
        lookup(capability(name, value), key) == (if key == name {
            opt_view(value)
        } else {
            None
        }),
{
    if value is Some {
        let one = capability(name, value);
        assert(one.drop_first() =~= Seq::empty());
        assert(lookup(one.drop_first(), key) is None);
    }
}

proof fn lemma_one_capability(c: ServerCapabilities, key: Seq<char>)
    ensures
        ({
            let a = lookup(capability("completions"@, c.completions), key);
            let b = lookup(capability("experimental"@, c.experimental), key);
            let d = lookup(capability("logging"@, c.logging), key);
            let e = lookup(capability("prompts"@, c.prompts), key);
            let f = lookup(capability("resources"@, c.resources), key);
            let g = lookup(capability("tasks"@, c.tasks), key);
            let h = lookup(capability("tools"@, c.tools), key);
            member(c.document(), key) == (if a is Some {
                a
            } else if b is Some {
                b
            } else if d is Some {
                d
            } else if e is Some {
                e
            } else if f is Some {
                f
            } else if g is Some {
                g
            } else {
                h
            })
        }),
{
    let a = capability("completions"@, c.completions);
    let b = capability("experimental"@, c.experimental);
    let d = capability("logging"@, c.logging);
    let e = capability("prompts"@, c.prompts);
    let f = capability("resources"@, c.resources);
    let g = capability("tasks"@, c.tasks);
    let h = capability("tools"@, c.tools);
    lemma_lookup_concat(a, b, key);
    lemma_lookup_concat(a + b, d, key);
    lemma_lookup_concat(a + b + d, e, key);
    lemma_lookup_concat(a + b + d + e, f, key);
    lemma_lookup_concat(a + b + d + e + f, g, key);
    lemma_lookup_concat(a + b + d + e + f + g, h, key);
}

proof fn lemma_capability(c: ServerCapabilities, key: Seq<char>)
    ensures
        member(c.document(), key) == (if key == "completions"@ {
            opt_view(c.completions)
        } else if key == "experimental"@ {
            opt_view(c.experimental)
        } else if key == "logging"@ {
            opt_view(c.logging)
        } else if key == "prompts"@ {
            opt_view(c.prompts)
        } else if key == "resources"@ {
            opt_view(c.resources)
        } else if key == "tasks"@ {
            opt_view(c.tasks)
        } else if key == "tools"@ {
            opt_view(c.tools)
        } else {
            None
        }),
{
    lemma_names_differ();
    lemma_one_capability(c, key);
    lemma_capability_lookup("completions"@, c.completions, key);
    lemma_capability_lookup("experimental"@, c.experimental, key);
    lemma_capability_lookup("logging"@, c.logging, key);
    lemma_capability_lookup("prompts"@, c.prompts, key);
    lemma_capability_lookup("resources"@, c.resources, key);
    lemma_capability_lookup("tasks"@, c.tasks, key);
    lemma_capability_lookup("tools"@, c.tools, key);
}

proof fn lemma_names_differ()
    ensures
        "completions"@.len() == 11 && "experimental"@.len() == 12 && "logging"@.len() == 7 && "prompts"@.len() == 7
            && "resources"@.len() == 9 && "tasks"@.len() == 5 && "tools"@.len() == 5,
        "logging"@ != "prompts"@ && "tasks"@ != "tools"@,
{
    reveal_strlit("completions");
    reveal_strlit("experimental");
    reveal_strlit("logging");
    reveal_strlit("prompts");
    reveal_strlit("resources");
    reveal_strlit("tasks");
    reveal_strlit("tools");
    assert("logging"@[0] != "prompts"@[0] && "tasks"@[1] != "tools"@[1]);
}

/// The document of a server's capabilities holds each of them under its name, exactly where it is there.
pub proof fn capabilities_are_found_by_name(c: ServerCapabilities)
    ensures
        member(c.document(), "completions"@) == opt_view(c.completions),
        member(c.document(), "experimental"@) == opt_view(c.experimental),
        member(c.document(), "logging"@) == opt_view(c.logging),
        member(c.document(), "prompts"@) == opt_view(c.prompts),
        member(c.document(), "resources"@) == opt_view(c.resources),
        member(c.document(), "tasks"@) == opt_view(c.tasks),
        member(c.document(), "tools"@) == opt_view(c.tools),
{
    lemma_names_differ();
    lemma_capability(c, "completions"@);
    lemma_capability(c, "experimental"@);
    lemma_capability(c, "logging"@);
    lemma_capability(c, "prompts"@);
    lemma_capability(c, "resources"@);
    lemma_capability(c, "tasks"@);
    lemma_capability(c, "tools"@);
}

/// The page is shown the protocol version and the capabilities of the server, each null where it is not
/// known.
pub proof fn a_summary_shows_version_and_capabilities(s: ServerSummary)
    ensures
        member(s.info_json(), "protocolVersion"@) == Some(
            match s.protocol_version {
                Some(v) => JsonView::Text(v@),
                None => JsonView::Null,
            },
        ),
        member(s.info_json(), "serverCapabilities"@) == Some(s.capabilities_json()),
        s.server_capabilities matches Some(c) ==> s.capabilities_json() == c@,
        s.server_capabilities is None ==> s.capabilities_json() == JsonView::Null,
{
    reveal_strlit("protocolVersion");
    reveal_strlit("serverCapabilities");
    assert("protocolVersion"@.len() != "serverCapabilities"@.len());
    let members = s.info_json()->Object_0;
    let none = Seq::<(Seq<char>, JsonView)>::empty();
    the_first_member_counts(none, "protocolVersion"@, members[0].1, members.skip(1));
    assert(members =~= none + seq![members[0]] + members.skip(1));
    the_first_member_counts(members.take(1), "serverCapabilities"@, members[1].1, none);
    assert(members =~= members.take(1) + seq![members[1]] + none);
}

/// Statistics tell the session that they were taken of, and the time since its last activity.
pub proof fn statistics_tell_their_session(s: SessionStatistics, session: SessionInfo, now: Instant)
    requires
        s.describes(session, now),
    ensures
        s.state == session.state,
        s.connection_attempts == session.connection_attempts,
        opt_text(s.session_id) == opt_text(session.session_id),
        opt_text(s.protocol_version) == opt_text(session.protocol_version),
        instant_nanos(session.last_activity) <= instant_nanos(now) ==> instant_nanos(session.last_activity)
            + duration_nanos(s.idle_time) == instant_nanos(now),
        instant_nanos(session.created_at) <= instant_nanos(session.last_activity) ==> instant_nanos(session.created_at)
            + duration_nanos(s.duration) == instant_nanos(session.last_activity),
{
}

} // verus!
