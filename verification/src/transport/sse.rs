//! HTTP with a separate endpoint for server-sent events: requests are POSTs to one endpoint, and the
//! server's events come from another.
use vstd::hash_map::*;
use vstd::prelude::*;
use vstd::string::*;

use crate::error::{McpClientError, McpClientResult};
use crate::exchange::is_success;
use crate::json::{has_member, lemma_object_view, member_views, parsed, text_json, Json, JsonView};
use crate::text::{joined, opt_text, same_text, trim_end_char, trimmed_end};
use crate::transport::events::{event_in, opt_event, read_event, Dialect};
use crate::transport::http::{
    message_headers, optional_port, optional_port_json, optional_text, optional_text_json, pair_views,
    reason_or_unknown, reason_text, write_headers,
};
use crate::transport::{
    add_id, collect_headers, connection_error, header_views, http_error, is_connection_error, is_http_error,
    is_sse_error, map_texts, not_connected, request_id, request_id_text, sse_error, takes_members, text_headers,
    with_id, ConnectionInfo, HttpMethod, PreparedRequest, ResponseHead, ServerEvent, TransportCapabilities,
    TransportResponse, TransportStatistics, TransportType, PROTOCOL_VERSION,
};
use crate::urls::{has_room, parse_url, parsed_url, url_with_path, with_path, UrlParts, UrlView};

verus! {

/// SSE transport for MCP clients (HTTP+SSE).
#[derive(Debug)]
pub struct SseTransport {
    /// Server endpoint URL.
    pub endpoint: UrlParts,
    /// SSE endpoint URL.
    pub sse_endpoint: String,
    /// Connection state.
    pub connected: bool,
    /// The number of the next request.
    pub request_counter: u64,
    /// Statistics.
    pub stats: TransportStatistics,
    /// Whether a listener takes the server's events.
    pub listening: bool,
    /// Session ID from the server.
    pub session_id: Option<String>,
}

/// The path of the events of a server at that path.
pub open spec fn events_path(path: Seq<char>) -> Seq<char> {
    trimmed_end(path, '/') + "/sse"@
}

/// Whether a transport's URL, where it has one, has room for the path of the events.
pub open spec fn takes_events_path(endpoint: Seq<char>) -> bool {
    parsed_url(endpoint) matches Ok(url) ==> (url.scheme == "http"@ || url.scheme == "https"@) ==> has_room(
        url,
        events_path(url.path),
    )
}

/// What comes of creating a transport for an endpoint.
pub open spec fn creates(endpoint: Seq<char>, r: McpClientResult<SseTransport>) -> bool {
    match parsed_url(endpoint) {
        Ok(url) => if url.scheme == "http"@ || url.scheme == "https"@ {
            r matches Ok(t) && t.is_fresh(url, url_with_path(endpoint, events_path(url.path)))
        } else {
            r matches Err(e) && is_connection_error(e, "Invalid scheme for SSE transport: "@ + url.scheme)
        },
        Err(text) => r matches Err(e) && is_connection_error(e, "Invalid URL: "@ + text),
    }
}

impl SseTransport {
    /// A transport for two endpoints that was not used yet.
    pub open spec fn is_fresh(self, endpoint: UrlView, sse_endpoint: Seq<char>) -> bool {
        &&& self.endpoint@ == endpoint
        &&& self.sse_endpoint@ == sse_endpoint
        &&& !self.connected
        &&& self.request_counter == 0
        &&& self.stats.is_fresh()
        &&& !self.listening
        &&& self.session_id is None
    }

    fn at(endpoint: UrlParts, sse_endpoint: String) -> (t: Self)
        ensures
            t.is_fresh(endpoint@, sse_endpoint@),
    {
        SseTransport {
            endpoint,
            sse_endpoint,
            connected: false,
            request_counter: 0,
            stats: TransportStatistics::new(),
            listening: false,
            session_id: None,
        }
    }

    /// Creates an SSE transport. The endpoint has to be an `http` or `https` URL; its events come
    /// from the path `sse` below it, with which the URL has to stay below four gigabytes.
    pub fn new(endpoint: &str) -> (r: McpClientResult<Self>)
        requires
            takes_events_path(endpoint@),
        ensures
            creates(endpoint@, r),
    {
        match parse_url(endpoint) {
            Ok(url) => if same_text(url.scheme.as_str(), "http") || same_text(url.scheme.as_str(), "https") {
                let base = trim_end_char(url.path.as_str(), '/');
                let path = joined(base.as_str(), "/sse");
                let sse_endpoint = with_path(endpoint, path.as_str());
                Ok(SseTransport::at(url, sse_endpoint))
            } else {
                Err(connection_error(joined("Invalid scheme for SSE transport: ", url.scheme.as_str())))
            },
            Err(text) => Err(connection_error(joined("Invalid URL: ", text.as_str()))),
        }
    }

    /// Creates an SSE transport, unless its URL would pass four gigabytes.
    pub fn new_if_short(endpoint: &str) -> (r: Option<McpClientResult<Self>>)
        ensures
            match r {
                Some(made) => takes_events_path(endpoint@) && creates(endpoint@, made),
                None => !takes_events_path(endpoint@),
            },
    {
        match parse_url(endpoint) {
            Ok(url) => {
                let base = trim_end_char(url.path.as_str(), '/');
                let path = joined(base.as_str(), "/sse");
                let longest: u128 = url.text.as_str().unicode_len() as u128 + 12 * (path.as_str().unicode_len() as u128)
                    + 16;
                if longest > 0xffff_ffff {
                    let http = same_text(url.scheme.as_str(), "http") || same_text(url.scheme.as_str(), "https");
                    if http {
                        return None;
                    }
                }
            },
            Err(_) => {},
        }
        Some(SseTransport::new(endpoint))
    }

    /// Creates an SSE transport with two endpoints.
    pub fn with_endpoints(endpoint: &str, sse_endpoint: &str) -> (r: McpClientResult<Self>)
        ensures
            match parsed_url(endpoint@) {
                Ok(url) => match parsed_url(sse_endpoint@) {
                    Ok(sse) => r matches Ok(t) && t.is_fresh(url, sse.text),
                    Err(text) => r matches Err(e) && is_connection_error(e, "Invalid SSE URL: "@ + text),
                },
                Err(text) => r matches Err(e) && is_connection_error(e, "Invalid URL: "@ + text),
            },
    {
        match parse_url(endpoint) {
            Ok(url) => match parse_url(sse_endpoint) {
                Ok(sse) => Ok(SseTransport::at(url, sse.text)),
                Err(text) => Err(connection_error(joined("Invalid SSE URL: ", text.as_str()))),
            },
            Err(text) => Err(connection_error(joined("Invalid URL: ", text.as_str()))),
        }
    }

    /// Generates a request ID. The counter wraps around.
    pub fn next_request_id(&mut self) -> (id: String)
        ensures
            id@ == request_id(old(self).request_counter),
            *final(self) == (SseTransport {
                request_counter: if old(self).request_counter == u64::MAX {
                    0
                } else {
                    (old(self).request_counter + 1) as u64
                },
                ..*old(self)
            }),
    {
        let id = request_id_text(self.request_counter);
        if self.request_counter == u64::MAX {
            self.request_counter = 0;
        } else {
            self.request_counter = self.request_counter + 1;
        }
        id
    }

    /// Reads an event.
    pub fn parse_sse_event(event_text: &str) -> (r: Option<ServerEvent>)
        ensures
            opt_event(r) == event_in(Dialect::Separate, event_text@),
    {
        read_event(Dialect::Separate, event_text)
    }

    /// The kind of transport.
    pub fn transport_type(&self) -> (t: TransportType)
        ensures
            t == TransportType::Sse,
    {
        TransportType::Sse
    }

    /// What the transport can do.
    pub fn capabilities(&self) -> (c: TransportCapabilities)
        ensures
            c == (TransportCapabilities {
                streaming: true,
                bidirectional: true,
                server_events: true,
                max_message_size: None,
                persistent: true,
            }),
    {
        TransportCapabilities {
            streaming: true,
            bidirectional: true,
            server_events: true,
            max_message_size: None,
            persistent: true,
        }
    }

    /// Marks the transport connected: the request that follows shows whether the server can be
    /// reached.
    pub fn connect(&mut self) -> (r: McpClientResult<()>)
        ensures
            r is Ok,
            *final(self) == (SseTransport { connected: true, ..*old(self) }),
    {
        self.connected = true;
        Ok(())
    }

    /// Marks the transport disconnected, and hands out the last event for the listener, if there is
    /// one.
    pub fn disconnect(&mut self) -> (last: Option<ServerEvent>)
        ensures
            *final(self) == (SseTransport { connected: false, listening: false, ..*old(self) }),
            old(self).listening ==> last == Some(ServerEvent::ConnectionLost),
            !old(self).listening ==> last is None,
    {
        self.connected = false;
        let last = if self.listening {
            Some(ServerEvent::ConnectionLost)
        } else {
            None
        };
        self.listening = false;
        last
    }

    /// Whether the transport is connected.
    pub fn is_connected(&self) -> (r: bool)
        ensures
            r == self.connected,
    {
        self.connected
    }

    /// Sets the session ID that later requests name.
    pub fn set_session_id(&mut self, session_id: String)
        ensures
            *final(self) == (SseTransport { session_id: Some(session_id), ..*old(self) }),
    {
        self.session_id = Some(session_id);
    }

    /// Prepares a request: with an identifier, where it has none, and with the session in its
    /// headers.
    pub fn send_request(&mut self, request: Json) -> (r: McpClientResult<PreparedRequest>)
        requires
            old(self).connected ==> has_member(request@, "id"@) || takes_members(request@),
            old(self).connected ==> old(self).stats.requests_sent < u64::MAX,
        ensures
            !old(self).connected ==> *final(self) == *old(self) && (r matches Err(e) && is_connection_error(
                e,
                "Not connected"@,
            )),
            old(self).connected ==> {
                let named = has_member(request@, "id"@);
                &&& r matches Ok(p)
                &&& p.method == HttpMethod::Post
                &&& p.url@ == old(self).endpoint.text@
                &&& p.body matches Some(body) && body@ == with_id(
                    request@,
                    request_id(old(self).request_counter),
                )
                &&& pair_views(p.headers@) == message_headers(
                    Some("application/json"@),
                    opt_text(old(self).session_id),
                )
                &&& *final(self) == (SseTransport {
                    request_counter: final(self).request_counter,
                    stats: TransportStatistics {
                        requests_sent: (old(self).stats.requests_sent + 1) as u64,
                        ..old(self).stats
                    },
                    ..*old(self)
                })
                &&& final(self).request_counter == (if named {
                    old(self).request_counter as int
                } else if old(self).request_counter == u64::MAX {
                    0
                } else {
                    old(self).request_counter + 1
                })
            },
    {
        if !self.connected {
            return Err(not_connected());
        }
        let named = request.has("id");
        let body = if named {
            request
        } else {
            let id = self.next_request_id();
            add_id(request, id)
        };
        self.stats.requests_sent = self.stats.requests_sent + 1;
        Ok(
            PreparedRequest {
                method: HttpMethod::Post,
                url: self.endpoint.text.clone(),
                headers: write_headers(Some("application/json"), &self.session_id),
                body: Some(body),
            },
        )
    }

    /// Prepares a request whose answer is wanted with its headers. It is sent as it is, and nothing
    /// is counted.
    pub fn send_request_with_headers(&self, request: Json) -> (r: McpClientResult<PreparedRequest>)
        ensures
            !self.connected ==> (r matches Err(e) && is_connection_error(e, "Not connected"@)),
            self.connected ==> {
                &&& r matches Ok(p)
                &&& p.method == HttpMethod::Post
                &&& p.url@ == self.endpoint.text@
                &&& p.body == Some(request)
                &&& pair_views(p.headers@) == message_headers(
                    Some("application/json"@),
                    opt_text(self.session_id),
                )
            },
    {
        if !self.connected {
            return Err(not_connected());
        }
        Ok(
            PreparedRequest {
                method: HttpMethod::Post,
                url: self.endpoint.text.clone(),
                headers: write_headers(Some("application/json"), &self.session_id),
                body: Some(request),
            },
        )
    }

    /// Prepares a notification.
    pub fn send_notification(&mut self, notification: Json) -> (r: McpClientResult<PreparedRequest>)
        requires
            old(self).connected ==> old(self).stats.notifications_sent < u64::MAX,
        ensures
            !old(self).connected ==> *final(self) == *old(self) && (r matches Err(e) && is_connection_error(
                e,
                "Not connected"@,
            )),
            old(self).connected ==> {
                &&& r matches Ok(p)
                &&& p.method == HttpMethod::Post
                &&& p.url@ == old(self).endpoint.text@
                &&& p.body == Some(notification)
                &&& pair_views(p.headers@) == message_headers(None, opt_text(old(self).session_id))
                &&& *final(self) == (SseTransport {
                    stats: TransportStatistics {
                        notifications_sent: (old(self).stats.notifications_sent + 1) as u64,
                        ..old(self).stats
                    },
                    ..*old(self)
                })
            },
    {
        if !self.connected {
            return Err(not_connected());
        }
        self.stats.notifications_sent = self.stats.notifications_sent + 1;
        Ok(
            PreparedRequest {
                method: HttpMethod::Post,
                url: self.endpoint.text.clone(),
                headers: write_headers(None, &self.session_id),
                body: Some(notification),
            },
        )
    }

    /// Prepares the request that ends a session.
    pub fn send_delete(&mut self, session_id: &str) -> (r: McpClientResult<PreparedRequest>)
        requires
            old(self).connected ==> old(self).stats.requests_sent < u64::MAX,
        ensures
            !old(self).connected ==> *final(self) == *old(self) && (r matches Err(e) && is_connection_error(
                e,
                "Not connected"@,
            )),
            old(self).connected ==> {
                &&& r matches Ok(p)
                &&& p.method == HttpMethod::Delete
                &&& p.url@ == old(self).endpoint.text@
                &&& p.body is None
                &&& pair_views(p.headers@) == message_headers(None, Some(session_id@))
                &&& *final(self) == (SseTransport {
                    stats: TransportStatistics {
                        requests_sent: (old(self).stats.requests_sent + 1) as u64,
                        ..old(self).stats
                    },
                    ..*old(self)
                })
            },
    {
        if !self.connected {
            return Err(not_connected());
        }
        self.stats.requests_sent = self.stats.requests_sent + 1;
        let id: Option<String> = Some(session_id.to_owned());
        Ok(
            PreparedRequest {
                method: HttpMethod::Delete,
                url: self.endpoint.text.clone(),
                headers: write_headers(None, &id),
                body: None,
            },
        )
    }

    /// The session was ended, or not: any answer will do, since the session is forgotten anyway.
    pub fn deleted(&mut self) -> (r: McpClientResult<()>)
        requires
            old(self).stats.responses_received < u64::MAX,
        ensures
            r is Ok,
            *final(self) == (SseTransport {
                stats: TransportStatistics {
                    responses_received: (old(self).stats.responses_received + 1) as u64,
                    ..old(self).stats
                },
                ..*old(self)
            }),
    {
        self.stats.responses_received = self.stats.responses_received + 1;
        Ok(())
    }

    /// The error of a message that could not be sent; `what` names the message.
    pub fn unsent(what: &str, error: &str) -> (e: McpClientError)
        ensures
            is_sse_error(e, "Failed to send "@ + what@ + ": "@ + error@),
    {
        let mut message = joined("Failed to send ", what);
        message.append(": ");
        message.append(error);
        sse_error(message)
    }

    /// What comes of a notification: an error where the server refuses it.
    pub fn notified(status: u16, status_text: &str, reason: Option<String>) -> (r: McpClientResult<()>)
        ensures
            is_success(status) ==> r is Ok,
            !is_success(status) ==> (r matches Err(e) && is_sse_error(
                e,
                "Notification failed with status "@ + status_text@ + ": "@ + reason_text(opt_text(reason)),
            )),
    {
        if 200 <= status && status < 300 {
            return Ok(());
        }
        let mut message = joined("Notification failed with status ", status_text);
        message.append(": ");
        message.append(reason_or_unknown(reason).as_str());
        Err(sse_error(message))
    }

    /// What an answer to a request gives, and what is counted for it.
    pub open spec fn takes_answer(
        self,
        after: Self,
        status: u16,
        body: Result<String, String>,
        r: McpClientResult<Json>,
    ) -> bool {
        let json = match body {
            Ok(text) => match parsed(vstd::utf8::encode_utf8(text@)) {
                Ok(json) => Some(json),
                Err(_) => None,
            },
            Err(_) => None,
        };
        &&& r is Ok <==> is_success(status) && json is Some
        &&& r matches Ok(j) ==> json == Some(j@)
        &&& after.stats.responses_received == self.stats.responses_received + (if r is Ok {
            1int
        } else {
            0int
        })
        &&& after.stats.errors == self.stats.errors + (if is_success(status) {
            0int
        } else {
            1int
        })
        &&& after.session_id == self.session_id
    }

    /// Reads the answer to a request: its status, and its body as text where it could be read.
    pub fn handle_response(&mut self, status: u16, status_text: &str, body: Result<String, String>) -> (r:
        McpClientResult<Json>)
        requires
            old(self).stats.errors < u64::MAX,
            old(self).stats.responses_received < u64::MAX,
        ensures
            *final(self) == (SseTransport { stats: final(self).stats, ..*old(self) }),
            !is_success(status) ==> {
                let reason = match body {
                    Ok(text) => text@,
                    Err(_) => "Unknown error"@,
                };
                &&& r matches Err(e) && is_sse_error(e, "HTTP error "@ + status_text@ + ": "@ + reason)
                &&& final(self).stats == (TransportStatistics {
                    errors: (old(self).stats.errors + 1) as u64,
                    last_error: final(self).stats.last_error,
                    ..old(self).stats
                })
                &&& opt_text(final(self).stats.last_error) == Some("HTTP "@ + status_text@ + ": "@ + reason)
            },
            is_success(status) ==> match body {
                Ok(text) => match parsed(vstd::utf8::encode_utf8(text@)) {
                    Ok(json) => {
                        &&& r matches Ok(j) && j@ == json
                        &&& final(self).stats == (TransportStatistics {
                            responses_received: (old(self).stats.responses_received + 1) as u64,
                            ..old(self).stats
                        })
                    },
                    Err(fault) => {
                        &&& r matches Err(e) && is_sse_error(e, "Invalid JSON response: "@ + fault)
                        &&& final(self).stats == old(self).stats
                    },
                },
                Err(fault) => {
                    &&& r matches Err(e) && is_sse_error(e, "Failed to read response: "@ + fault@)
                    &&& final(self).stats == old(self).stats
                },
            },
            old(self).takes_answer(*final(self), status, body, r),
    {
        if !(200 <= status && status < 300) {
            let reason = match body {
                Ok(text) => text,
                Err(_) => "Unknown error".to_owned(),
            };
            let mut noted = joined("HTTP ", status_text);
            noted.append(": ");
            noted.append(reason.as_str());
            self.stats.errors = self.stats.errors + 1;
            self.stats.last_error = Some(noted);
            let mut message = joined("HTTP error ", status_text);
            message.append(": ");
            message.append(reason.as_str());
            return Err(sse_error(message));
        }
        match body {
            Ok(text) => match Json::parse(text.as_str().as_bytes()) {
                Ok(json) => {
                    self.stats.responses_received = self.stats.responses_received + 1;
                    Ok(json)
                },
                Err(fault) => Err(sse_error(joined("Invalid JSON response: ", fault.as_str()))),
            },
            Err(fault) => Err(sse_error(joined("Failed to read response: ", fault.as_str()))),
        }
    }

    /// Reads the answer to a request that is wanted with its headers, whatever its status.
    pub fn handle_response_with_headers(head: &ResponseHead, body: Result<String, String>) -> (r: McpClientResult<
        TransportResponse,
    >)
        ensures
            match body {
                Ok(text) => match parsed(vstd::utf8::encode_utf8(text@)) {
                    Ok(json) => r matches Ok(response) && response.body@ == json && map_texts(response.headers@)
                        == text_headers(header_views(head.headers@)),
                    Err(fault) => r matches Err(e) && is_http_error(e, "Invalid JSON response: "@ + fault),
                },
                Err(fault) => r matches Err(e) && is_http_error(e, "Failed to read response: "@ + fault@),
            },
    {
        match body {
            Ok(text) => match Json::parse(text.as_str().as_bytes()) {
                Ok(json) => Ok(TransportResponse { body: json, headers: collect_headers(&head.headers) }),
                Err(fault) => Err(http_error(joined("Invalid JSON response: ", fault.as_str()))),
            },
            Err(fault) => Err(http_error(joined("Failed to read response: ", fault.as_str()))),
        }
    }

    /// The request that opens the stream of events.
    pub fn listen_request(&self) -> (p: PreparedRequest)
        ensures
            p.method == HttpMethod::Get,
            p.url@ == self.sse_endpoint@,
            p.body is None,
            pair_views(p.headers@) == seq![
                ("Accept"@, "text/event-stream"@),
                ("Cache-Control"@, "no-cache"@),
                ("MCP-Protocol-Version"@, PROTOCOL_VERSION@),
            ],
    {
        let mut headers: Vec<(String, String)> = Vec::new();
        headers.push(("Accept".to_owned(), "text/event-stream".to_owned()));
        headers.push(("Cache-Control".to_owned(), "no-cache".to_owned()));
        headers.push(("MCP-Protocol-Version".to_owned(), PROTOCOL_VERSION.to_owned()));
        assert(pair_views(headers@) =~= seq![
            ("Accept"@, "text/event-stream"@),
            ("Cache-Control"@, "no-cache"@),
            ("MCP-Protocol-Version"@, PROTOCOL_VERSION@),
        ]);
        PreparedRequest { method: HttpMethod::Get, url: self.sse_endpoint.clone(), headers, body: None }
    }

    /// Starts listening.
    pub fn start_event_listener(&mut self)
        ensures
            *final(self) == (SseTransport { listening: true, ..*old(self) }),
    {
        self.listening = true;
    }

    /// Counts an event that was read off the stream.
    pub fn event_received(&mut self)
        requires
            old(self).stats.events_received < u64::MAX,
        ensures
            *final(self) == (SseTransport {
                stats: TransportStatistics {
                    events_received: (old(self).stats.events_received + 1) as u64,
                    ..old(self).stats
                },
                ..*old(self)
            }),
    {
        self.stats.events_received = self.stats.events_received + 1;
    }

    /// Describes the connection.
    pub fn connection_info(&self) -> (info: ConnectionInfo)
        ensures
            info.transport_type == TransportType::Sse,
            info.endpoint@ == self.endpoint.text@,
            info.connected == self.connected,
            info.capabilities == (TransportCapabilities {
                streaming: true,
                bidirectional: true,
                server_events: true,
                max_message_size: None,
                persistent: true,
            }),
            info.metadata@ == JsonView::Object(
                seq![
                    ("host"@, optional_text_json(opt_text(self.endpoint.host))),
                    ("main_endpoint"@, JsonView::Text(self.endpoint.text@)),
                    ("port"@, optional_port_json(self.endpoint.port)),
                    ("scheme"@, JsonView::Text(self.endpoint.scheme@)),
                    ("sse_endpoint"@, JsonView::Text(self.sse_endpoint@)),
                ],
            ),
    {
        let mut members: Vec<(String, Json)> = Vec::new();
        members.push(("host".to_owned(), optional_text(&self.endpoint.host)));
        members.push(("main_endpoint".to_owned(), text_json(self.endpoint.text.as_str())));
        members.push(("port".to_owned(), optional_port(self.endpoint.port)));
        members.push(("scheme".to_owned(), text_json(self.endpoint.scheme.as_str())));
        members.push(("sse_endpoint".to_owned(), text_json(self.sse_endpoint.as_str())));
        let ghost all = member_views(members@);
        let metadata = Json::Object(members);
        proof {
            lemma_object_view(metadata);
            assert(all =~= seq![
                ("host"@, optional_text_json(opt_text(self.endpoint.host))),
                ("main_endpoint"@, JsonView::Text(self.endpoint.text@)),
                ("port"@, optional_port_json(self.endpoint.port)),
                ("scheme"@, JsonView::Text(self.endpoint.scheme@)),
                ("sse_endpoint"@, JsonView::Text(self.sse_endpoint@)),
            ]);
        }
        ConnectionInfo {
            transport_type: self.transport_type(),
            endpoint: self.endpoint.text.clone(),
            connected: self.connected,
            capabilities: self.capabilities(),
            metadata,
        }
    }

    /// What the transport counted.
    pub fn statistics(&self) -> (s: &TransportStatistics)
        ensures
            *s == self.stats,
    {
        &self.stats
    }
}

/// The events of a server come from the path `sse` below its own, whether or not that ends in slashes; and
/// a new transport is not connected and has counted nothing.
pub proof fn events_come_from_below(endpoint: Seq<char>, url: UrlView, r: McpClientResult<SseTransport>)
    requires
        creates(endpoint, r),
        parsed_url(endpoint) == Ok::<UrlView, Seq<char>>(url),
    ensures
        r is Ok <==> url.scheme == "http"@ || url.scheme == "https"@,
        r matches Ok(t) ==> {
            &&& t.endpoint@ == url
            &&& t.sse_endpoint@ == url_with_path(endpoint, trimmed_end(url.path, '/') + "/sse"@)
            &&& !t.connected && !t.listening
            &&& t.request_counter == 0
            &&& t.session_id is None
            &&& t.stats.requests_sent == 0 && t.stats.responses_received == 0 && t.stats.notifications_sent == 0
            &&& t.stats.events_received == 0 && t.stats.errors == 0 && t.stats.last_error is None
        },
{
}

/// A successful answer whose body is a document is that document, and counts as a response; an answer that is
/// no success is an error, and counts as one.
pub proof fn answers_are_documents(
    before: SseTransport,
    after: SseTransport,
    status: u16,
    text: String,
    r: McpClientResult<Json>,
)
    requires
        before.takes_answer(after, status, Ok(text), r),
    ensures
        200 <= status < 300 ==> (parsed(vstd::utf8::encode_utf8(text@)) matches Ok(json) ==> {
            &&& r is Ok && r->Ok_0@ == json
            &&& after.stats.responses_received == before.stats.responses_received + 1
            &&& after.stats.errors == before.stats.errors
        }),
        status < 200 || status >= 300 ==> {
            &&& r is Err
            &&& after.stats.errors == before.stats.errors + 1
            &&& after.stats.responses_received == before.stats.responses_received
        },
        parsed(vstd::utf8::encode_utf8(text@)) is Err ==> r is Err,
{
}

} // verus!
