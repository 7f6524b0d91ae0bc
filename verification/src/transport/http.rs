//! Streamable HTTP: every request is a POST to one endpoint, and the answer is a stream of JSON
//! documents.
use vstd::hash_map::*;
use vstd::prelude::*;
use vstd::string::*;

use crate::error::{McpClientError, McpClientResult, TransportError};
use crate::encoding::{holds_none, holds_only, lemma_holds_only};
use crate::exchange::is_success;
use crate::json::{
    compact, first_document, has_member, lemma_object_view, member, member_views, parsed, text_json,
    the_first_member_counts, Json, JsonView,
};
use crate::text::{
    contains_part, decimal, decimal_text, decimals_stand_for_their_numbers, has_part, joined, number_of, opt_text,
    same_text,
};
use crate::transport::frames::{
    all_bytes, all_close, behind, continued, documents, documents_decide, end_in, ends_at, is_first_response,
    lemma_behind_behind, notifications, reading, responses_end_a_stream, rest_is_read_out, scan_frames, stream_reading,
    unbroken, with_method, EndView, FrameEnd, Piece, Reading,
};
use crate::transport::{
    add_id, collect_headers, connection_error, event_views, every_request_has_an_id, find_header, header_of,
    header_views, http_error, is_connection_error, is_http_error, map_texts, not_connected, request_id,
    request_id_text, request_ids_are_unique, takes_members, text_headers, the_first_header_counts, with_id,
    ConnectionInfo, EventView, HttpMethod, PreparedRequest, ResponseHead, ServerEvent, TransportCapabilities,
    TransportResponse, TransportStatistics, TransportType, PROTOCOL_VERSION,
};
use crate::urls::{parse_url, parsed_url, UrlParts, UrlView};

verus! {

/// HTTP transport for MCP clients (Streamable HTTP).
#[derive(Debug)]
pub struct HttpTransport {
    /// Server endpoint URL.
    pub endpoint: UrlParts,
    /// Connection state.
    pub connected: bool,
    /// The number of the next request.
    pub request_counter: u64,
    /// Statistics.
    pub stats: TransportStatistics,
    /// Whether a listener takes the server's events.
    pub listening: bool,
    /// Notifications that came while nobody listened.
    pub queued_events: Vec<ServerEvent>,
    /// Session ID from the server.
    pub session_id: Option<String>,
}

/// What a list of name and value pairs says.
pub open spec fn pair_views(pairs: Seq<(String, String)>) -> Seq<(Seq<char>, Seq<char>)> {
    Seq::new(pairs.len(), |i: int| (pairs[i].0@, pairs[i].1@))
}

/// The header that names the session, where there is one.
pub open spec fn session_header(session_id: Option<Seq<char>>) -> Seq<(Seq<char>, Seq<char>)> {
    match session_id {
        Some(id) => seq![("Mcp-Session-Id"@, id)],
        None => Seq::empty(),
    }
}

/// The headers of a message: its own type, what may come back where anything may, the protocol
/// version, and the session.
pub open spec fn message_headers(accept: Option<Seq<char>>, session_id: Option<Seq<char>>) -> Seq<
    (Seq<char>, Seq<char>),
> {
    (match accept {
        Some(types) => seq![("Content-Type"@, "application/json"@), ("Accept"@, types)],
        None => seq![("Content-Type"@, "application/json"@)],
    }).push(("MCP-Protocol-Version"@, PROTOCOL_VERSION@)) + session_header(session_id)
}

/// Writes the headers of a message.
pub fn write_headers(accept: Option<&str>, session_id: &Option<String>) -> (h: Vec<(String, String)>)
    ensures
        pair_views(h@) == message_headers(
            match accept {
                Some(types) => Some(types@),
                None => None,
            },
            opt_text(*session_id),
        ),
{
    let mut h: Vec<(String, String)> = Vec::new();
    h.push(("Content-Type".to_owned(), "application/json".to_owned()));
    match accept {
        Some(types) => {
            h.push(("Accept".to_owned(), types.to_owned()));
        },
        None => {},
    }
    h.push(("MCP-Protocol-Version".to_owned(), PROTOCOL_VERSION.to_owned()));
    match session_id {
        Some(id) => {
            h.push(("Mcp-Session-Id".to_owned(), id.clone()));
        },
        None => {},
    }
    assert(pair_views(h@) =~= message_headers(
        match accept {
            Some(types) => Some(types@),
            None => None,
        },
        opt_text(*session_id),
    ));
    h
}

/// What an answer to a request calls for, by its head.
#[derive(Debug)]
pub enum HeadOutcome {
    /// The body is a stream of JSON documents: read it.
    ReadStream,
    /// The request was refused: read the body for the reason.
    ReadReason,
    /// Nothing that the transport understands.
    Failed(McpClientError),
}

/// What came of a chunk.
#[derive(Debug)]
pub struct ChunkOutcome {
    /// The notifications for the listener.
    pub forwarded: Vec<ServerEvent>,
    /// The answer, where the chunk completed it.
    pub finished: Option<McpClientResult<Json>>,
}

/// What came of a stream.
#[derive(Debug)]
pub struct StreamOutcome {
    /// The notifications for the listener.
    pub forwarded: Vec<ServerEvent>,
    pub result: McpClientResult<Json>,
}

/// Whether a document that the end of the stream left in the buffer is an answer.
pub open spec fn is_answer(json: JsonView) -> bool {
    has_member(json, "id"@) && (has_member(json, "result"@) || has_member(json, "error"@))
}

/// The answer in what is left at the end of the stream.
pub open spec fn last_answer(rest: Seq<u8>) -> Option<JsonView> {
    if rest.len() == 0 {
        None
    } else {
        match parsed(rest) {
            Ok(json) => if is_answer(json) {
                Some(json)
            } else {
                None
            },
            Err(_) => None,
        }
    }
}

/// Whether the result says how the stream ended.
pub open spec fn reports(r: McpClientResult<Json>, end: EndView) -> bool {
    match end {
        EndView::Success(json) => r matches Ok(j) && j@ == json,
        EndView::Failure(text) => r matches Err(e) && is_http_error(e, "Server error: "@ + text),
        EndView::Broken(text) => r matches Err(e) && is_http_error(e, "Stream error: "@ + text),
    }
}

/// The statistics after a stream ended: a result is counted as a response, an error as an error.
pub open spec fn counted(before: TransportStatistics, after: TransportStatistics, end: Option<EndView>) -> bool {
    match end {
        Some(EndView::Success(_)) => after == (TransportStatistics {
            responses_received: (before.responses_received + 1) as u64,
            ..before
        }),
        Some(EndView::Failure(text)) => {
            &&& after == (TransportStatistics {
                errors: (before.errors + 1) as u64,
                last_error: after.last_error,
                ..before
            })
            &&& opt_text(after.last_error) == Some("JSON-RPC error: "@ + text)
        },
        _ => after == before,
    }
}

/// Whether the result and the statistics say how a whole stream was read.
pub open spec fn concludes(
    r: McpClientResult<Json>,
    before: TransportStatistics,
    after: TransportStatistics,
    reading: Reading,
) -> bool {
    match reading.end {
        Some(end) => reports(r, end) && counted(before, after, Some(end)),
        None => match last_answer(reading.rest) {
            Some(json) => reports(r, EndView::Success(json)) && counted(before, after, Some(EndView::Success(json))),
            None => {
                &&& r matches Err(e) && is_http_error(e, "Stream ended without final result"@)
                &&& after == before
            },
        },
    }
}

impl HttpTransport {
    /// Whether notifications reached the listener, or the queue where nobody listens.
    pub open spec fn told(self, after: Self, forwarded: Seq<EventView>, notes: Seq<JsonView>) -> bool {
        if self.listening {
            forwarded == notifications(notes) && after.queued_events == self.queued_events
        } else {
            forwarded == Seq::<EventView>::empty() && event_views(after.queued_events@) == event_views(
                self.queued_events@,
            ) + notifications(notes)
        }
    }

    /// A transport for an endpoint that was not used yet.
    pub open spec fn is_fresh(self, endpoint: UrlView) -> bool {
        &&& self.endpoint@ == endpoint
        &&& !self.connected
        &&& self.request_counter == 0
        &&& self.stats.is_fresh()
        &&& !self.listening
        &&& self.queued_events@ == Seq::<ServerEvent>::empty()
        &&& self.session_id is None
    }

    fn at(endpoint: UrlParts) -> (t: Self)
        ensures
            t.is_fresh(endpoint@),
    {
        HttpTransport {
            endpoint,
            connected: false,
            request_counter: 0,
            stats: TransportStatistics::new(),
            listening: false,
            queued_events: Vec::new(),
            session_id: None,
        }
    }

    /// Creates an HTTP transport. The endpoint has to be an `http` or `https` URL.
    pub fn new(endpoint: &str) -> (r: McpClientResult<Self>)
        ensures
            match parsed_url(endpoint@) {
                Ok(url) => if url.scheme == "http"@ || url.scheme == "https"@ {
                    r matches Ok(t) && t.is_fresh(url)
                } else {
                    r matches Err(e) && is_connection_error(e, "Invalid scheme for HTTP transport: "@ + url.scheme)
                },
                Err(text) => r matches Err(e) && is_connection_error(e, "Invalid URL: "@ + text),
            },
    {
        match parse_url(endpoint) {
            Ok(url) => if same_text(url.scheme.as_str(), "http") || same_text(url.scheme.as_str(), "https") {
                Ok(HttpTransport::at(url))
            } else {
                Err(connection_error(joined("Invalid scheme for HTTP transport: ", url.scheme.as_str())))
            },
            Err(text) => Err(connection_error(joined("Invalid URL: ", text.as_str()))),
        }
    }

    /// Creates an HTTP transport for a client of the caller's own. Any URL will do.
    pub fn with_client(endpoint: &str) -> (r: McpClientResult<Self>)
        ensures
            match parsed_url(endpoint@) {
                Ok(url) => r matches Ok(t) && t.is_fresh(url),
                Err(text) => r matches Err(e) && is_connection_error(e, "Invalid URL: "@ + text),
            },
    {
        match parse_url(endpoint) {
            Ok(url) => Ok(HttpTransport::at(url)),
            Err(text) => Err(connection_error(joined("Invalid URL: ", text.as_str()))),
        }
    }

    /// Sets the session ID that later requests name.
    pub fn set_session_id(&mut self, session_id: String)
        ensures
            *final(self) == (HttpTransport { session_id: Some(session_id), ..*old(self) }),
    {
        self.session_id = Some(session_id);
    }

    /// Generates a request ID. The counter wraps around.
    pub fn next_request_id(&mut self) -> (id: String)
        ensures
            id@ == request_id(old(self).request_counter),
            *final(self) == (HttpTransport {
                request_counter: if old(self).request_counter == u64::MAX {
                    0
                } else {
                    (old(self).request_counter + 1) as u64
                },
                ..*old(self)
            }),
    {
        let id = request_id_text(self.request_counter);
        if self.request_counter == u64::MAX {
            self.request_counter = 0;
        } else {
            self.request_counter = self.request_counter + 1;
        }
        id
    }

    /// The kind of transport.
    pub fn transport_type(&self) -> (t: TransportType)
        ensures
            t == TransportType::Http,
    {
        TransportType::Http
    }

    /// What the transport can do.
    pub fn capabilities(&self) -> (c: TransportCapabilities)
        ensures
            c == (TransportCapabilities {
                streaming: true,
                bidirectional: false,
                server_events: false,
                max_message_size: None,
                persistent: false,
            }),
    {
        TransportCapabilities {
            streaming: true,
            bidirectional: false,
            server_events: false,
            max_message_size: None,
            persistent: false,
        }
    }

    /// Marks the transport connected. HTTP has no connection to establish: the request that follows
    /// shows whether the server can be reached.
    pub fn connect(&mut self) -> (r: McpClientResult<()>)
        ensures
            r is Ok,
            *final(self) == (HttpTransport { connected: true, ..*old(self) }),
    {
        self.connected = true;
        Ok(())
    }

    /// Marks the transport disconnected, and hands out the last event for the listener, if there is
    /// one.
    pub fn disconnect(&mut self) -> (last: Option<ServerEvent>)
        ensures
            *final(self) == (HttpTransport { connected: false, listening: false, ..*old(self) }),
            old(self).listening ==> last == Some(ServerEvent::ConnectionLost),
            !old(self).listening ==> last is None,
    {
        self.connected = false;
        let last = if self.listening {
            Some(ServerEvent::ConnectionLost)
        } else {
            None
        };
        self.listening = false;
        last
    }

    /// Whether the transport is connected.
    pub fn is_connected(&self) -> (r: bool)
        ensures
            r == self.connected,
    {
        self.connected
    }

    /// What is sent for a request, and what the transport counts for it.
    pub open spec fn prepares(self, after: Self, request: JsonView, p: PreparedRequest) -> bool {
        &&& self.connected
        &&& p.method == HttpMethod::Post
        &&& p.url@ == self.endpoint.text@
        &&& p.body matches Some(body) && body@ == with_id(request, request_id(self.request_counter))
        &&& pair_views(p.headers@) == message_headers(
            Some("application/json, text/event-stream"@),
            opt_text(self.session_id),
        )
        &&& after.stats.requests_sent == self.stats.requests_sent + 1
        &&& after.session_id == self.session_id
        &&& !has_member(request, "id"@) && self.request_counter < u64::MAX ==> after.request_counter
            == self.request_counter + 1
    }

    /// Prepares a request: with an identifier, where it has none, and with the session in its
    /// headers.
    pub fn send_request(&mut self, request: Json) -> (r: McpClientResult<PreparedRequest>)
        requires
            old(self).connected ==> has_member(request@, "id"@) || takes_members(request@),
            old(self).connected ==> old(self).stats.requests_sent < u64::MAX,
        ensures
            !old(self).connected ==> *final(self) == *old(self) && (r matches Err(e) && is_connection_error(
                e,
                "Not connected"@,
            )),
            old(self).connected ==> {
                let named = has_member(request@, "id"@);
                &&& r matches Ok(p)
                &&& p.method == HttpMethod::Post
                &&& p.url@ == old(self).endpoint.text@
                &&& p.body matches Some(body) && body@ == with_id(
                    request@,
                    request_id(old(self).request_counter),
                )
                &&& pair_views(p.headers@) == message_headers(
                    Some("application/json, text/event-stream"@),
                    opt_text(old(self).session_id),
                )
                &&& *final(self) == (HttpTransport {
                    request_counter: final(self).request_counter,
                    stats: TransportStatistics {
                        requests_sent: (old(self).stats.requests_sent + 1) as u64,
                        ..old(self).stats
                    },
                    ..*old(self)
                })
                &&& final(self).request_counter == (if named {
                    old(self).request_counter as int
                } else if old(self).request_counter == u64::MAX {
                    0
                } else {
                    old(self).request_counter + 1
                })
            },
            r matches Ok(p) ==> old(self).prepares(*final(self), request@, p),
    {
        if !self.connected {
            return Err(not_connected());
        }
        let named = request.has("id");
        let body = if named {
            request
        } else {
            let id = self.next_request_id();
            add_id(request, id)
        };
        self.stats.requests_sent = self.stats.requests_sent + 1;
        Ok(
            PreparedRequest {
                method: HttpMethod::Post,
                url: self.endpoint.text.clone(),
                headers: write_headers(Some("application/json, text/event-stream"), &self.session_id),
                body: Some(body),
            },
        )
    }

    /// Prepares a notification.
    pub fn send_notification(&mut self, notification: Json) -> (r: McpClientResult<PreparedRequest>)
        requires
            old(self).connected ==> old(self).stats.notifications_sent < u64::MAX,
        ensures
            !old(self).connected ==> *final(self) == *old(self) && (r matches Err(e) && is_connection_error(
                e,
                "Not connected"@,
            )),
            old(self).connected ==> {
                &&& r matches Ok(p)
                &&& p.method == HttpMethod::Post
                &&& p.url@ == old(self).endpoint.text@
                &&& p.body == Some(notification)
                &&& pair_views(p.headers@) == message_headers(None, opt_text(old(self).session_id))
                &&& *final(self) == (HttpTransport {
                    stats: TransportStatistics {
                        notifications_sent: (old(self).stats.notifications_sent + 1) as u64,
                        ..old(self).stats
                    },
                    ..*old(self)
                })
            },
    {
        if !self.connected {
            return Err(not_connected());
        }
        self.stats.notifications_sent = self.stats.notifications_sent + 1;
        Ok(
            PreparedRequest {
                method: HttpMethod::Post,
                url: self.endpoint.text.clone(),
                headers: write_headers(None, &self.session_id),
                body: Some(notification),
            },
        )
    }

    /// Prepares the request that ends a session.
    pub fn send_delete(&mut self, session_id: &str) -> (r: McpClientResult<PreparedRequest>)
        requires
            old(self).connected ==> old(self).stats.requests_sent < u64::MAX,
        ensures
            !old(self).connected ==> *final(self) == *old(self) && (r matches Err(e) && is_connection_error(
                e,
                "Not connected"@,
            )),
            old(self).connected ==> {
                &&& r matches Ok(p)
                &&& p.method == HttpMethod::Delete
                &&& p.url@ == old(self).endpoint.text@
                &&& p.body is None
                &&& pair_views(p.headers@) == message_headers(None, Some(session_id@))
                &&& *final(self) == (HttpTransport {
                    stats: TransportStatistics {
                        requests_sent: (old(self).stats.requests_sent + 1) as u64,
                        ..old(self).stats
                    },
                    ..*old(self)
                })
            },
    {
        if !self.connected {
            return Err(not_connected());
        }
        self.stats.requests_sent = self.stats.requests_sent + 1;
        let id: Option<String> = Some(session_id.to_owned());
        Ok(
            PreparedRequest {
                method: HttpMethod::Delete,
                url: self.endpoint.text.clone(),
                headers: write_headers(None, &id),
                body: None,
            },
        )
    }

    /// The session was ended, or not: any answer will do, since the session is forgotten anyway.
    pub fn deleted(&mut self) -> (r: McpClientResult<()>)
        requires
            old(self).stats.responses_received < u64::MAX,
        ensures
            r is Ok,
            *final(self) == (HttpTransport {
                stats: TransportStatistics {
                    responses_received: (old(self).stats.responses_received + 1) as u64,
                    ..old(self).stats
                },
                ..*old(self)
            }),
    {
        self.stats.responses_received = self.stats.responses_received + 1;
        Ok(())
    }

    /// The error of a message that could not be sent; `what` names the message.
    pub fn unsent(what: &str, error: &str) -> (e: McpClientError)
        ensures
            is_http_error(e, "Failed to send "@ + what@ + ": "@ + error@),
    {
        let mut message = joined("Failed to send ", what);
        message.append(": ");
        message.append(error);
        http_error(message)
    }

    /// What comes of a notification: an error where the server refuses it.
    pub fn notified(status: u16, status_text: &str, reason: Option<String>) -> (r: McpClientResult<()>)
        ensures
            is_success(status) ==> r is Ok,
            !is_success(status) ==> (r matches Err(e) && is_http_error(
                e,
                "Notification failed with status "@ + status_text@ + ": "@ + reason_text(opt_text(reason)),
            )),
    {
        if 200 <= status && status < 300 {
            return Ok(());
        }
        let mut message = joined("Notification failed with status ", status_text);
        message.append(": ");
        message.append(reason_or_unknown(reason).as_str());
        Err(http_error(message))
    }

    /// What the head of an answer leads to, and the session that is named from then on.
    pub open spec fn takes_head(self, after: Self, head: ResponseHead, r: HeadOutcome) -> bool {
        let headers = header_views(head.headers@);
        let content_type = header_of(headers, "content-type"@);
        &&& after == (HttpTransport { session_id: after.session_id, ..self })
        &&& opt_text(after.session_id) == (match header_of(headers, "mcp-session-id"@) {
            Some(id) if is_success(head.status) => Some(id),
            _ => opt_text(self.session_id),
        })
        &&& r is ReadReason <==> !is_success(head.status)
        &&& r is ReadStream <==> is_success(head.status) && content_type is Some && contains_part(
            content_type->0,
            "application/json"@,
        )
    }

    /// Reads the head of an answer. A successful one may bring a session ID, and its body is read if
    /// it is JSON; `caller` names the operation for which the answer came.
    pub fn handle_head(&mut self, head: &ResponseHead, caller: &str) -> (r: HeadOutcome)
        ensures
            !is_success(head.status) ==> r is ReadReason && *final(self) == *old(self),
            is_success(head.status) ==> {
                let headers = header_views(head.headers@);
                let content_type = match header_of(headers, "content-type"@) {
                    Some(t) => t,
                    None => Seq::empty(),
                };
                &&& *final(self) == (HttpTransport { session_id: final(self).session_id, ..*old(self) })
                &&& opt_text(final(self).session_id) == (match header_of(headers, "mcp-session-id"@) {
                    Some(id) => Some(id),
                    None => opt_text(old(self).session_id),
                })
                &&& if contains_part(content_type, "application/json"@) {
                    r is ReadStream
                } else if contains_part(content_type, "text/event-stream"@) {
                    r matches HeadOutcome::Failed(e) && is_http_error(
                        e,
                        "Unexpected SSE response in "@ + caller@,
                    )
                } else {
                    r matches HeadOutcome::Failed(e) && is_http_error(
                        e,
                        "Unsupported content type: "@ + content_type,
                    )
                }
            },
            old(self).takes_head(*final(self), *head, r),
    {
        proof {
            reveal_strlit("application/json");
            assert(!contains_part(Seq::<char>::empty(), "application/json"@));
        }
        if !(200 <= head.status && head.status < 300) {
            return HeadOutcome::ReadReason;
        }
        match find_header(&head.headers, "mcp-session-id") {
            Some(id) => {
                self.session_id = Some(id);
            },
            None => {},
        }
        let content_type = match find_header(&head.headers, "content-type") {
            Some(t) => t,
            None => String::new(),
        };
        assert(opt_text(Some(content_type)) == Some(content_type@));
        if has_part(content_type.as_str(), "application/json") {
            HeadOutcome::ReadStream
        } else if has_part(content_type.as_str(), "text/event-stream") {
            HeadOutcome::Failed(http_error(joined("Unexpected SSE response in ", caller)))
        } else {
            HeadOutcome::Failed(http_error(joined("Unsupported content type: ", content_type.as_str())))
        }
    }

    /// An answer with the headers that came before it.
    pub fn with_headers(head: &ResponseHead, result: McpClientResult<Json>) -> (r: McpClientResult<TransportResponse>)
        ensures
            match result {
                Ok(json) => r matches Ok(response) && response.body == json && map_texts(response.headers@)
                    == text_headers(header_views(head.headers@)),
                Err(error) => r matches Err(e) && e == error,
            },
    {
        match result {
            Ok(json) => Ok(TransportResponse { body: json, headers: collect_headers(&head.headers) }),
            Err(error) => Err(error),
        }
    }

    /// The request was refused, for a reason that the body gives.
    pub fn refused(&mut self, status_text: &str, reason: Option<String>) -> (e: McpClientError)
        requires
            old(self).stats.errors < u64::MAX,
        ensures
            is_http_error(e, "HTTP error "@ + status_text@ + ": "@ + reason_text(opt_text(reason))),
            *final(self) == (HttpTransport { stats: final(self).stats, ..*old(self) }),
            final(self).stats == (TransportStatistics {
                errors: (old(self).stats.errors + 1) as u64,
                last_error: final(self).stats.last_error,
                ..old(self).stats
            }),
            opt_text(final(self).stats.last_error) == Some(
                "HTTP "@ + status_text@ + ": "@ + reason_text(opt_text(reason)),
            ),
    {
        let reason = reason_or_unknown(reason);
        let mut noted = joined("HTTP ", status_text);
        noted.append(": ");
        noted.append(reason.as_str());
        self.stats.errors = self.stats.errors + 1;
        self.stats.last_error = Some(noted);
        let mut message = joined("HTTP error ", status_text);
        message.append(": ");
        message.append(reason.as_str());
        http_error(message)
    }
}

/// A text, or null where there is none.
pub fn optional_text(text: &Option<String>) -> (j: Json)
    ensures
        j@ == optional_text_json(opt_text(*text)),
{
    match text {
        Some(t) => Json::Text(t.clone()),
        None => Json::Null,
    }
}

/// A text, or null where there is none.
pub open spec fn optional_text_json(text: Option<Seq<char>>) -> JsonView {
    match text {
        Some(t) => JsonView::Text(t),
        None => JsonView::Null,
    }
}

/// A port, or null where there is none.
pub fn optional_port(port: Option<u16>) -> (j: Json)
    ensures
        j@ == optional_port_json(port),
{
    match port {
        Some(p) => Json::Number(decimal_text(p as u64)),
        None => Json::Null,
    }
}

/// A port, or null where there is none.
pub open spec fn optional_port_json(port: Option<u16>) -> JsonView {
    match port {
        Some(p) => JsonView::Number(decimal(p as nat)),
        None => JsonView::Null,
    }
}

impl HttpTransport {
    /// Starts listening: the queue is emptied, and its events are the first that the listener gets.
    pub fn start_event_listener(&mut self) -> (replayed: Vec<ServerEvent>)
        ensures
            replayed == old(self).queued_events,
            final(self).queued_events@ == Seq::<ServerEvent>::empty(),
            *final(self) == (HttpTransport {
                listening: true,
                queued_events: final(self).queued_events,
                ..*old(self)
            }),
    {
        let mut replayed: Vec<ServerEvent> = Vec::new();
        std::mem::swap(&mut replayed, &mut self.queued_events);
        self.listening = true;
        replayed
    }

    /// The listener went away before it took these events: they wait for the next one.
    pub fn listener_lost(&mut self, unheard: Vec<ServerEvent>)
        ensures
            final(self).queued_events@ == old(self).queued_events@ + unheard@,
            *final(self) == (HttpTransport {
                listening: false,
                queued_events: final(self).queued_events,
                ..*old(self)
            }),
    {
        let mut unheard = unheard;
        self.queued_events.append(&mut unheard);
        self.listening = false;
    }

    /// The request that opens the stream of events, where the transport is connected.
    pub fn listen_request(&self) -> (r: Option<PreparedRequest>)
        ensures
            !self.connected ==> r is None,
            self.connected ==> {
                &&& r matches Some(p)
                &&& p.method == HttpMethod::Get
                &&& p.url@ == self.endpoint.text@
                &&& p.body is None
                &&& pair_views(p.headers@) == seq![
                    ("Accept"@, "text/event-stream"@),
                    ("MCP-Protocol-Version"@, PROTOCOL_VERSION@),
                ] + session_header(opt_text(self.session_id))
            },
    {
        if !self.connected {
            return None;
        }
        let mut headers: Vec<(String, String)> = Vec::new();
        headers.push(("Accept".to_owned(), "text/event-stream".to_owned()));
        headers.push(("MCP-Protocol-Version".to_owned(), PROTOCOL_VERSION.to_owned()));
        match &self.session_id {
            Some(id) => {
                headers.push(("Mcp-Session-Id".to_owned(), id.clone()));
            },
            None => {},
        }
        assert(pair_views(headers@) =~= seq![
            ("Accept"@, "text/event-stream"@),
            ("MCP-Protocol-Version"@, PROTOCOL_VERSION@),
        ] + session_header(opt_text(self.session_id)));
        Some(PreparedRequest { method: HttpMethod::Get, url: self.endpoint.text.clone(), headers, body: None })
    }

    /// Describes the connection.
    pub fn connection_info(&self) -> (info: ConnectionInfo)
        ensures
            info.transport_type == TransportType::Http,
            info.endpoint@ == self.endpoint.text@,
            info.connected == self.connected,
            info.capabilities == (TransportCapabilities {
                streaming: true,
                bidirectional: false,
                server_events: false,
                max_message_size: None,
                persistent: false,
            }),
            info.metadata@ == JsonView::Object(
                seq![
                    ("host"@, optional_text_json(opt_text(self.endpoint.host))),
                    ("path"@, JsonView::Text(self.endpoint.path@)),
                    ("port"@, optional_port_json(self.endpoint.port)),
                    ("scheme"@, JsonView::Text(self.endpoint.scheme@)),
                ],
            ),
    {
        let mut members: Vec<(String, Json)> = Vec::new();
        members.push(("host".to_owned(), optional_text(&self.endpoint.host)));
        members.push(("path".to_owned(), text_json(self.endpoint.path.as_str())));
        members.push(("port".to_owned(), optional_port(self.endpoint.port)));
        members.push(("scheme".to_owned(), text_json(self.endpoint.scheme.as_str())));
        let ghost all = member_views(members@);
        let metadata = Json::Object(members);
        proof {
            lemma_object_view(metadata);
            assert(all =~= seq![
                ("host"@, optional_text_json(opt_text(self.endpoint.host))),
                ("path"@, JsonView::Text(self.endpoint.path@)),
                ("port"@, optional_port_json(self.endpoint.port)),
                ("scheme"@, JsonView::Text(self.endpoint.scheme@)),
            ]);
        }
        ConnectionInfo {
            transport_type: self.transport_type(),
            endpoint: self.endpoint.text.clone(),
            connected: self.connected,
            capabilities: self.capabilities(),
            metadata,
        }
    }

    /// The request of a health check, where the transport is connected; without a connection the
    /// check has failed.
    pub fn health_check(&self) -> (r: Option<Json>)
        ensures
            self.connected ==> (r matches Some(j) && j@ == ping()),
            !self.connected ==> r is None,
    {
        if !self.connected {
            return None;
        }
        let mut members: Vec<(String, Json)> = Vec::new();
        members.push(("id".to_owned(), text_json("health_check")));
        members.push(("jsonrpc".to_owned(), text_json("2.0")));
        members.push(("method".to_owned(), text_json("ping")));
        let params = Json::Object(Vec::new());
        proof {
            lemma_object_view(params);
            assert(params@->Object_0 =~= Seq::empty());
        }
        members.push(("params".to_owned(), params));
        let ghost all = member_views(members@);
        let request = Json::Object(members);
        proof {
            lemma_object_view(request);
            assert(all =~= ping()->Object_0);
        }
        Some(request)
    }

    /// What the transport counted.
    pub fn statistics(&self) -> (s: &TransportStatistics)
        ensures
            *s == self.stats,
    {
        &self.stats
    }
}

/// The request of a health check.
pub open spec fn ping() -> JsonView {
    JsonView::Object(
        seq![
            ("id"@, JsonView::Text("health_check"@)),
            ("jsonrpc"@, JsonView::Text("2.0"@)),
            ("method"@, JsonView::Text("ping"@)),
            ("params"@, JsonView::Object(Seq::empty())),
        ],
    )
}

/// No notification is lost and none is heard twice: what waited and what came is what waits now and
/// what the listener got.
pub proof fn notifications_are_kept(
    before: HttpTransport,
    after: HttpTransport,
    forwarded: Seq<EventView>,
    notes: Seq<JsonView>,
)
    requires
        before.told(after, forwarded, notes),
    ensures
        event_views(before.queued_events@) + notifications(notes) == event_views(after.queued_events@) + forwarded,
{
    assert(event_views(after.queued_events@) + Seq::<EventView>::empty() =~= event_views(after.queued_events@));
}

/// What the pieces of a stream say.
pub open spec fn piece_views(pieces: Seq<Result<Vec<u8>, String>>) -> Seq<Piece> {
    Seq::new(
        pieces.len(),
        |i: int|
            match pieces[i] {
                Ok(bytes) => Ok(bytes@),
                Err(text) => Err(text@),
            },
    )
}

impl HttpTransport {
    /// Hands notifications to the listener, or puts them into the queue.
    fn tell(&mut self, notes: Vec<ServerEvent>) -> (forwarded: Vec<ServerEvent>)
        ensures
            *final(self) == (HttpTransport { queued_events: final(self).queued_events, ..*old(self) }),
            old(self).listening ==> forwarded == notes && final(self).queued_events == old(self).queued_events,
            !old(self).listening ==> forwarded@ == Seq::<ServerEvent>::empty() && final(self).queued_events@ == old(
                self,
            ).queued_events@ + notes@,
    {
        if self.listening {
            notes
        } else {
            let mut notes = notes;
            self.queued_events.append(&mut notes);
            Vec::new()
        }
    }

    /// Reads a chunk of an answer behind what the chunks before it left in the buffer.
    pub fn handle_chunk(&mut self, buffer: &mut Vec<u8>, chunk: &Vec<u8>) -> (r: ChunkOutcome)
        requires
            old(self).stats.responses_received < u64::MAX,
            old(self).stats.errors < u64::MAX,
        ensures
            ({
                let read = reading(old(buffer)@ + chunk@);
                &&& *final(self) == (HttpTransport {
                    queued_events: final(self).queued_events,
                    stats: final(self).stats,
                    ..*old(self)
                })
                &&& old(self).told(*final(self), event_views(r.forwarded@), read.notes)
                &&& counted(old(self).stats, final(self).stats, read.end)
                &&& match read.end {
                    Some(end) => r.finished matches Some(result) && reports(result, end),
                    None => r.finished is None && final(buffer)@ == read.rest,
                }
                &&& r.finished is None ==> first_document(final(buffer)@) is None
                &&& forall|more: Seq<u8>| #[trigger]
                    all_close(old(buffer)@ + chunk@ + more) ==> {
                        &&& reading(old(buffer)@ + chunk@ + more) == continued(read, more)
                        &&& r.finished is None ==> all_close(final(buffer)@ + more)
                    }
            }),
    {
        let mut whole: Vec<u8> = buffer.clone();
        whole.extend_from_slice(chunk.as_slice());
        assert(whole@ =~= buffer@ + chunk@);
        let ghost start = whole@;
        let scan = scan_frames(&whole);
        let ghost notes = scan.notes@;
        let forwarded = self.tell(scan.notes);
        proof {
            if old(self).listening {
            } else {
                assert(event_views(self.queued_events@) =~= event_views(old(self).queued_events@) + event_views(notes));
                assert(event_views(forwarded@) =~= Seq::empty());
            }
        }
        match scan.end {
            Some(FrameEnd::Success(json)) => {
                self.stats.responses_received = self.stats.responses_received + 1;
                ChunkOutcome { forwarded, finished: Some(Ok(json)) }
            },
            Some(FrameEnd::Failure(text)) => {
                self.stats.errors = self.stats.errors + 1;
                self.stats.last_error = Some(joined("JSON-RPC error: ", text.as_str()));
                ChunkOutcome { forwarded, finished: Some(Err(http_error(joined("Server error: ", text.as_str())))) }
            },
            None => {
                let kept = whole.split_off(scan.consumed);
                *buffer = kept;
                ChunkOutcome { forwarded, finished: None }
            },
        }
    }

    /// The stream ended: what is left in the buffer may be the answer.
    pub fn handle_end(&mut self, buffer: &Vec<u8>) -> (r: McpClientResult<Json>)
        requires
            old(self).stats.responses_received < u64::MAX,
        ensures
            *final(self) == (HttpTransport { stats: final(self).stats, ..*old(self) }),
            concludes(
                r,
                old(self).stats,
                final(self).stats,
                (Reading { notes: Seq::empty(), rest: buffer@, end: None }),
            ),
            first_document(buffer@) is None ==> last_answer(buffer@) is None,
    {
        if buffer.len() > 0 {
            match Json::parse(buffer.as_slice()) {
                Ok(json) => if json.has("id") && (json.has("result") || json.has("error")) {
                    self.stats.responses_received = self.stats.responses_received + 1;
                    return Ok(json);
                },
                Err(_) => {},
            }
        }
        Err(http_error("Stream ended without final result".to_owned()))
    }

    /// The stream broke off.
    pub fn stream_error(error: &str) -> (e: McpClientError)
        ensures
            is_http_error(e, "Stream error: "@ + error@),
    {
        http_error(joined("Stream error: ", error))
    }

    /// How a whole stream is read. The answer depends on the bytes and not on how they are cut into
    /// chunks, as long as every document closes itself.
    pub open spec fn reads(
        self,
        after: Self,
        pieces: Seq<Piece>,
        forwarded: Seq<EventView>,
        r: McpClientResult<Json>,
    ) -> bool {
        let read = stream_reading(Seq::empty(), pieces);
        &&& after == (HttpTransport { queued_events: after.queued_events, stats: after.stats, ..self })
        &&& self.told(after, forwarded, read.notes)
        &&& concludes(r, self.stats, after.stats, read)
        &&& read.end is None ==> last_answer(read.rest) is None
        &&& unbroken(pieces) && all_close(all_bytes(pieces)) ==> read == reading(all_bytes(pieces))
    }

    /// Reads a whole stream of chunks.
    pub fn test_handle_byte_stream(&mut self, stream: &Vec<Result<Vec<u8>, String>>) -> (r: StreamOutcome)
        requires
            old(self).stats.responses_received < u64::MAX,
            old(self).stats.errors < u64::MAX,
        ensures
            old(self).reads(*final(self), piece_views(stream@), event_views(r.forwarded@), r.result),
    {
        let ghost pieces = piece_views(stream@);
        let ghost whole = all_bytes(pieces);
        let ghost closing = unbroken(pieces) && all_close(whole);
        let ghost mut seen: Seq<JsonView> = Seq::empty();
        let mut forwarded: Vec<ServerEvent> = Vec::new();
        let mut buffer: Vec<u8> = Vec::new();
        let mut i: usize = 0;
        proof {
            assert(buffer@ =~= Seq::empty());
            assert(pieces.skip(0) =~= pieces);
            lemma_behind_behind(Seq::empty(), Seq::empty(), stream_reading(Seq::empty(), pieces));
            assert(event_views(forwarded@) =~= Seq::empty());
            assert(notifications(seen) =~= Seq::empty());
            assert(event_views(self.queued_events@) + notifications(seen) =~= event_views(self.queued_events@));
            assert(reading(buffer@) == (Reading { notes: Seq::empty(), rest: buffer@, end: None })) by {
                match first_document(buffer@) {
                    Some((json, n)) => {},
                    None => {},
                }
            }
            lemma_behind_behind(Seq::empty(), Seq::empty(), reading(whole));
            assert(buffer@ + whole =~= whole);
        }
        while i < stream.len()
            invariant
                i <= stream@.len(),
                pieces == piece_views(stream@),
                whole == all_bytes(pieces),
                closing == (unbroken(pieces) && all_close(whole)),
                self.stats == old(self).stats,
                old(self).stats.responses_received < u64::MAX,
                old(self).stats.errors < u64::MAX,
                *self == (HttpTransport { queued_events: self.queued_events, ..*old(self) }),
                old(self).told(*self, event_views(forwarded@), seen),
                stream_reading(Seq::empty(), pieces) == behind(seen, stream_reading(buffer@, pieces.skip(i as int))),
                reading(buffer@) == (Reading { notes: Seq::empty(), rest: buffer@, end: None }),
                buffer@.len() == 0 || first_document(buffer@) is None,
                closing ==> reading(whole) == behind(seen, reading(buffer@ + all_bytes(pieces.skip(i as int)))),
                closing ==> all_close(buffer@ + all_bytes(pieces.skip(i as int))),
            decreases stream@.len() - i,
        {
            let ghost here = pieces.skip(i as int);
            proof {
                assert(here[0] == pieces[i as int]);
                assert(here.drop_first() =~= pieces.skip(i + 1));
            }
            match &stream[i] {
                Err(text) => {
                    assert(seen + Seq::<JsonView>::empty() =~= seen);
                    assert(!(pieces[i as int] is Ok));
                    return StreamOutcome { forwarded, result: Err(HttpTransport::stream_error(text.as_str())) };
                },
                Ok(chunk) => {
                    let ghost kept = buffer@;
                    let ghost read = reading(kept + chunk@);
                    let ghost later = all_bytes(pieces.skip(i + 1));
                    let ghost out = forwarded@;
                    let step = self.handle_chunk(&mut buffer, chunk);
                    let mut heard = step.forwarded;
                    let ghost new = heard@;
                    forwarded.append(&mut heard);
                    proof {
                        assert(event_views(forwarded@) =~= event_views(out) + event_views(new));
                        assert(notifications(seen + read.notes) =~= notifications(seen) + notifications(read.notes));
                        assert(event_views(old(self).queued_events@) + notifications(seen + read.notes)
                            =~= event_views(old(self).queued_events@) + notifications(seen) + notifications(
                            read.notes,
                        ));
                        assert(old(self).told(*self, event_views(forwarded@), seen + read.notes));
                        assert(kept + all_bytes(here) =~= kept + chunk@ + later);
                        if closing {
                            assert(all_close(kept + chunk@ + later));
                        }
                        lemma_behind_behind(seen, read.notes, stream_reading(read.rest, pieces.skip(i + 1)));
                        lemma_behind_behind(seen, read.notes, reading(read.rest + later));
                        rest_is_read_out(kept + chunk@);
                    }
                    match step.finished {
                        Some(result) => {
                            return StreamOutcome { forwarded, result };
                        },
                        None => {},
                    }
                    proof {
                        seen = seen + read.notes;
                    }
                    i = i + 1;
                },
            }
        }
        proof {
            assert(seen + Seq::<JsonView>::empty() =~= seen);
            assert(buffer@ + all_bytes(pieces.skip(i as int)) =~= buffer@);
        }
        let result = self.handle_end(&buffer);
        StreamOutcome { forwarded, result }
    }
}

/// However a stream of documents that close themselves is cut into chunks, its documents decide. The
/// first one with an identifier and a result is the answer; one with an identifier and an error that
/// comes before it is the failure; without either there is no answer. The documents before it that
/// have a method are the notifications, in their order and each once. One response is counted where
/// there is an answer, and none elsewhere.
pub proof fn documents_decide_the_answer(
    before: HttpTransport,
    after: HttpTransport,
    pieces: Seq<Piece>,
    forwarded: Seq<EventView>,
    r: McpClientResult<Json>,
    k: int,
)
    requires
        before.stats.responses_received < u64::MAX,
        before.reads(after, pieces, forwarded, r),
        unbroken(pieces),
        all_close(all_bytes(pieces)),
        ends_at(documents(all_bytes(pieces)), k),
    ensures
        ({
            let docs = documents(all_bytes(pieces));
            &&& before.told(after, forwarded, with_method(docs.take(k)))
            &&& if k == docs.len() {
                r matches Err(e) && is_http_error(e, "Stream ended without final result"@)
            } else if has_member(docs[k], "result"@) {
                r matches Ok(json) && json@ == docs[k]
            } else {
                r matches Err(e) && is_http_error(e, "Server error: "@ + compact(member(docs[k], "error"@)->0))
            }
            &&& after.stats.responses_received == before.stats.responses_received + (if r is Ok {
                1int
            } else {
                0int
            })
        }),
{
    documents_decide(all_bytes(pieces), k);
}

/// A stream of documents that close themselves is answered by the first of them that has an identifier
/// together with a result or an error, whatever the identifier is and however the stream is cut: with a
/// result that document is the answer and counts as a response, with an error alone it is the failure
/// and counts as an error. Without such a document there is no answer, and nothing is counted.
pub proof fn the_first_response_is_the_answer(
    before: HttpTransport,
    after: HttpTransport,
    pieces: Seq<Piece>,
    forwarded: Seq<EventView>,
    r: McpClientResult<Json>,
    k: int,
)
    requires
        before.stats.responses_received < u64::MAX,
        before.stats.errors < u64::MAX,
        before.reads(after, pieces, forwarded, r),
        unbroken(pieces),
        all_close(all_bytes(pieces)),
        is_first_response(documents(all_bytes(pieces)), k),
    ensures
        ({
            let docs = documents(all_bytes(pieces));
            let notes = docs.take(k).filter(|json: JsonView| has_member(json, "method"@));
            let told = Seq::new(notes.len(), |i: int| EventView::Notification(notes[i]));
            &&& k < docs.len() && has_member(docs[k], "result"@) ==> {
                &&& r matches Ok(json) && json@ == docs[k]
                &&& after.stats.responses_received == before.stats.responses_received + 1
                &&& after.stats.errors == before.stats.errors
            }
            &&& k < docs.len() && !has_member(docs[k], "result"@) ==> {
                &&& r matches Err(McpClientError::Transport(TransportError::Http(m))) && m@ == "Server error: "@
                    + compact(member(docs[k], "error"@)->0)
                &&& after.stats.responses_received == before.stats.responses_received
                &&& after.stats.errors == before.stats.errors + 1
                &&& opt_text(after.stats.last_error) == Some(
                    "JSON-RPC error: "@ + compact(member(docs[k], "error"@)->0),
                )
            }
            &&& k == docs.len() ==> {
                &&& r matches Err(McpClientError::Transport(TransportError::Http(m))) && m@
                    == "Stream ended without final result"@
                &&& after.stats == before.stats
            }
            // Every notification goes to the listener, or waits for one behind what waits already.
            &&& before.listening ==> forwarded == told && event_views(after.queued_events@) == event_views(
                before.queued_events@,
            )
            &&& !before.listening ==> forwarded.len() == 0 && event_views(after.queued_events@) == event_views(
                before.queued_events@,
            ) + told
        }),
{
    responses_end_a_stream(all_bytes(pieces), k);
    let docs = documents(all_bytes(pieces));
    let notes = docs.take(k).filter(|json: JsonView| has_member(json, "method"@));
    assert(notifications(notes) =~= Seq::new(notes.len(), |i: int| EventView::Notification(notes[i])));
}

/// The answer to a request that the transport numbered is recognised by the number that it was given.
pub proof fn the_answer_to_a_numbered_request_is_recognised(
    before: HttpTransport,
    after: HttpTransport,
    pieces: Seq<Piece>,
    forwarded: Seq<EventView>,
    r: McpClientResult<Json>,
    request: JsonView,
    counter: u64,
)
    requires
        before.stats.responses_received < u64::MAX,
        before.stats.errors < u64::MAX,
        before.reads(after, pieces, forwarded, r),
        unbroken(pieces),
        all_close(all_bytes(pieces)),
        takes_members(request),
        !has_member(request, "id"@),
        documents(all_bytes(pieces)).len() > 0,
        member(documents(all_bytes(pieces))[0], "id"@) == member(with_id(request, request_id(counter)), "id"@),
        has_member(documents(all_bytes(pieces))[0], "result"@),
    ensures
        r matches Ok(json) && json@ == documents(all_bytes(pieces))[0],
        member(documents(all_bytes(pieces))[0], "id"@) == Some(JsonView::Text("req_"@ + decimal(counter as nat))),
{
    every_request_has_an_id(request, request_id(counter));
    the_first_response_is_the_answer(before, after, pieces, forwarded, r, 0);
}

/// The reason for a refusal, or what stands for one that could not be read.
pub open spec fn reason_text(reason: Option<Seq<char>>) -> Seq<char> {
    match reason {
        Some(text) => text,
        None => "Unknown error"@,
    }
}

/// The reason for a refusal, or what stands for one that could not be read.
pub fn reason_or_unknown(reason: Option<String>) -> (r: String)
    ensures
        r@ == reason_text(opt_text(reason)),
{
    match reason {
        Some(text) => text,
        None => "Unknown error".to_owned(),
    }
}

// -- What holds of the requests.

/// Every message says that it is JSON, names the protocol version, and names the session exactly where
/// there is one.
pub proof fn messages_name_the_session(accept: Option<Seq<char>>, session_id: Option<Seq<char>>)
    ensures
        ({
            let headers = message_headers(accept, session_id);
            &&& holds_only(headers, "Content-Type"@, "application/json"@)
            &&& holds_only(headers, "MCP-Protocol-Version"@, "2025-11-25"@)
            &&& match session_id {
                Some(id) => holds_only(headers, "Mcp-Session-Id"@, id),
                None => holds_none(headers, "Mcp-Session-Id"@),
            }
            &&& match accept {
                Some(types) => holds_only(headers, "Accept"@, types),
                None => holds_none(headers, "Accept"@),
            }
        }),
{
    reveal_strlit("Content-Type");
    reveal_strlit("Accept");
    reveal_strlit("MCP-Protocol-Version");
    reveal_strlit("Mcp-Session-Id");
    let headers = message_headers(accept, session_id);
    assert("Content-Type"@.len() == 12 && "Accept"@.len() == 6 && "MCP-Protocol-Version"@.len() == 20
        && "Mcp-Session-Id"@.len() == 14);
    let version: int = if accept is Some {
        2
    } else {
        1
    };
    assert(headers[0].0 == "Content-Type"@);
    assert(accept is Some ==> headers[1].0 == "Accept"@);
    assert(headers[version] == ("MCP-Protocol-Version"@, "2025-11-25"@));
    assert(headers.len() == version + 1 + session_header(session_id).len());
    assert(session_id is Some ==> headers[version + 1].0 == "Mcp-Session-Id"@);
    lemma_holds_only(headers, 0);
    lemma_holds_only(headers, 1);
    if accept is Some {
        lemma_holds_only(headers, 2);
    }
    if session_id is Some {
        lemma_holds_only(headers, headers.len() - 1);
    }
}

/// A health check is a JSON-RPC request with an identifier.
pub proof fn a_health_check_is_a_request()
    ensures
        has_member(ping(), "id"@),
        member(ping(), "jsonrpc"@) == Some(JsonView::Text("2.0"@)),
        member(ping(), "method"@) == Some(JsonView::Text("ping"@)),
{
    reveal_strlit("id");
    reveal_strlit("jsonrpc");
    reveal_strlit("method");
    reveal_strlit("params");
    let members = ping()->Object_0;
    the_first_member_counts(members.take(0), "id"@, members[0].1, members.skip(1));
    assert(members =~= members.take(0) + seq![members[0]] + members.skip(1));
    assert("id"@.len() == 2 && "jsonrpc"@.len() == 7 && "method"@.len() == 6);
    assert(members.take(1)[0].0 == "id"@);
    assert(members.take(2)[0].0 == "id"@ && members.take(2)[1].0 == "jsonrpc"@);
    the_first_member_counts(members.take(1), "jsonrpc"@, members[1].1, members.skip(2));
    assert(members =~= members.take(1) + seq![members[1]] + members.skip(2));
    the_first_member_counts(members.take(2), "method"@, members[2].1, members.skip(3));
    assert(members =~= members.take(2) + seq![members[2]] + members.skip(3));
}

/// A stream that breaks off behind some pieces is reported as broken where those pieces held no answer, with
/// the same notifications; and where they held one, the break makes no difference.
pub proof fn a_break_matters_only_before_the_answer(
    before: HttpTransport,
    good: Seq<Piece>,
    text: Seq<char>,
    more: Seq<Piece>,
    whole: HttpTransport,
    heard: Seq<EventView>,
    answer: McpClientResult<Json>,
    broken: HttpTransport,
    heard_broken: Seq<EventView>,
    r: McpClientResult<Json>,
)
    requires
        before.stats.responses_received < u64::MAX,
        before.stats.errors < u64::MAX,
        unbroken(good),
        before.reads(whole, good, heard, answer),
        before.reads(broken, good + seq![Err(text)] + more, heard_broken, r),
    ensures
        heard_broken == heard,
        event_views(broken.queued_events@) == event_views(whole.queued_events@),
        whole.stats == before.stats ==> {
            &&& r matches Err(McpClientError::Transport(TransportError::Http(m))) && m@ == "Stream error: "@ + text
            &&& broken.stats == before.stats
        },
        whole.stats != before.stats ==> {
            &&& broken.stats.responses_received == whole.stats.responses_received
            &&& broken.stats.errors == whole.stats.errors
            &&& answer is Ok <==> r is Ok
            &&& answer is Ok ==> r->Ok_0@ == answer->Ok_0@
        },
{
    lemma_broken_reading(Seq::empty(), good, text, more);
    match stream_reading(Seq::empty(), good).end {
        Some(EndView::Success(_)) => {
            assert(whole.stats.responses_received == before.stats.responses_received + 1);
        },
        Some(EndView::Failure(_)) => {
            assert(whole.stats.errors == before.stats.errors + 1);
        },
        _ => {},
    }
}

proof fn lemma_reading_does_not_break(bytes: Seq<u8>)
    ensures
        reading(bytes).end matches Some(end) ==> !(end is Broken),
    decreases bytes.len(),
{
    match first_document(bytes) {
        Some((json, n)) => if 0 < n <= bytes.len() && end_in(json) is None {
            lemma_reading_does_not_break(bytes.skip(n as int));
        },
        None => {},
    }
}

proof fn lemma_broken_reading(rest: Seq<u8>, good: Seq<Piece>, text: Seq<char>, more: Seq<Piece>)
    requires
        unbroken(good),
    ensures
        ({
            let whole = stream_reading(rest, good);
            let broken = stream_reading(rest, good + seq![Err(text)] + more);
            &&& broken.notes == whole.notes
            &&& whole.end is Some ==> broken == whole && !(whole.end->0 is Broken)
            &&& whole.end is None ==> broken.end == Some(EndView::Broken(text))
        }),
    decreases good.len(),
{
    let all = good + seq![Err::<Seq<u8>, Seq<char>>(text)] + more;
    if good.len() == 0 {
        assert(all[0] == Err::<Seq<u8>, Seq<char>>(text));
    } else {
        assert(all[0] == good[0]);
        assert(good[0] is Ok);
        let fewer = good.drop_first();
        assert(all.drop_first() =~= fewer + seq![Err::<Seq<u8>, Seq<char>>(text)] + more);
        assert forall|i: int| 0 <= i < fewer.len() implies #[trigger] fewer[i] is Ok by {
            assert(fewer[i] == good[i + 1]);
        }
        let read = reading(rest + good[0]->Ok_0);
        lemma_reading_does_not_break(rest + good[0]->Ok_0);
        if read.end is None {
            lemma_broken_reading(read.rest, fewer, text, more);
        }
    }
}

/// A transport that was not used yet is not connected, names no session and has counted nothing; its first
/// request gets the first number.
pub proof fn a_fresh_transport_has_done_nothing(t: HttpTransport, endpoint: UrlView)
    requires
        t.is_fresh(endpoint),
    ensures
        t.endpoint@ == endpoint,
        !t.connected && !t.listening,
        t.session_id is None,
        t.queued_events@.len() == 0,
        request_id(t.request_counter) == "req_"@ + decimal(0),
        t.stats.requests_sent == 0 && t.stats.responses_received == 0 && t.stats.notifications_sent == 0,
        t.stats.events_received == 0 && t.stats.errors == 0 && t.stats.last_error is None,
{
}

/// A reason that could be read is the reason that is given.
pub proof fn reasons_are_passed_on(reason: Seq<char>)
    ensures
        reason_text(Some(reason)) == reason,
        reason_text(None).len() > 0,
{
    reveal_strlit("Unknown error");
}

/// In a description a text stands for itself, a port is a number that stands for the port, and what is not
/// there is null.
pub proof fn what_is_not_there_is_null(text: Seq<char>, port: u16)
    ensures
        optional_text_json(Some(text)) == JsonView::Text(text),
        optional_text_json(None) == JsonView::Null,
        optional_port_json(Some(port)) matches JsonView::Number(digits) && number_of(digits) == port,
        optional_port_json(None) == JsonView::Null,
{
    decimals_stand_for_their_numbers(port as nat);
}

/// A successful answer is read exactly where its content type is JSON. The session that it names is the one
/// that every later message names; an answer that is no success names none.
pub proof fn the_named_session_goes_along(
    before: HttpTransport,
    after: HttpTransport,
    head: ResponseHead,
    r: HeadOutcome,
    earlier: Seq<(Seq<char>, Seq<u8>)>,
    value: Seq<u8>,
    later: Seq<(Seq<char>, Seq<u8>)>,
    accept: Option<Seq<char>>,
)
    requires
        before.takes_head(after, head, r),
        header_views(head.headers@) == earlier + seq![("mcp-session-id"@, value)] + later,
        forall|i: int| 0 <= i < earlier.len() ==> (#[trigger] earlier[i]).0 != "mcp-session-id"@,
        forall|i: int| 0 <= i < value.len() ==> #[trigger] value[i] == 9 || 32 <= value[i] < 127,
    ensures
        200 <= head.status < 300 ==> holds_only(
            message_headers(accept, opt_text(after.session_id)),
            "Mcp-Session-Id"@,
            Seq::new(value.len(), |i: int| value[i] as char),
        ),
        head.status < 200 || head.status >= 300 ==> r is ReadReason && opt_text(after.session_id) == opt_text(
            before.session_id,
        ),
        r is ReadStream <==> 200 <= head.status < 300 && (header_of(
            header_views(head.headers@),
            "content-type"@,
        ) matches Some(t) && contains_part(t, "application/json"@)),
{
    the_first_header_counts(earlier, "mcp-session-id"@, value, later);
    messages_name_the_session(accept, opt_text(after.session_id));
}

/// Two requests without an identifier, one sent after the other, get different ones; each is sent to the
/// endpoint with everything that it says, and names the session exactly where there is one.
pub proof fn requests_are_numbered_apart(
    before: HttpTransport,
    between: HttpTransport,
    after: HttpTransport,
    first: JsonView,
    second: JsonView,
    p: PreparedRequest,
    q: PreparedRequest,
)
    requires
        before.prepares(between, first, p),
        between.prepares(after, second, q),
        before.request_counter < u64::MAX,
        takes_members(first) && !has_member(first, "id"@),
        takes_members(second) && !has_member(second, "id"@),
    ensures
        p.body is Some && q.body is Some,
        member(p.body->0@, "id"@) is Some && member(q.body->0@, "id"@) is Some,
        member(p.body->0@, "id"@) != member(q.body->0@, "id"@),
        forall|key: Seq<char>| key != "id"@ ==> #[trigger] member(p.body->0@, key) == member(first, key),
        p.method is Post && p.url@ == before.endpoint.text@,
        after.stats.requests_sent == before.stats.requests_sent + 2,
        match before.session_id {
            Some(id) => holds_only(pair_views(p.headers@), "Mcp-Session-Id"@, id@) && holds_only(
                pair_views(q.headers@),
                "Mcp-Session-Id"@,
                id@,
            ),
            None => holds_none(pair_views(p.headers@), "Mcp-Session-Id"@),
        },
{
    every_request_has_an_id(first, request_id(before.request_counter));
    every_request_has_an_id(second, request_id(between.request_counter));
    request_ids_are_unique(before.request_counter, between.request_counter);
    messages_name_the_session(Some("application/json, text/event-stream"@), opt_text(before.session_id));
}

/// What is left over where a stream ends is the answer where it is a response, whether it tells of a success or
/// of a failure. Anything else is no answer and is not counted.
pub proof fn a_response_left_over_is_the_answer(
    r: McpClientResult<Json>,
    before: TransportStatistics,
    after: TransportStatistics,
    rest: Seq<u8>,
    json: JsonView,
)
    requires
        rest.len() > 0,
        parsed(rest) == Ok::<JsonView, Seq<char>>(json),
        before.responses_received < u64::MAX,
        concludes(r, before, after, (Reading { notes: Seq::empty(), rest, end: None })),
    ensures
        has_member(json, "id"@) && has_member(json, "result"@) ==> r is Ok,
        has_member(json, "id"@) && has_member(json, "error"@) ==> r is Ok,
        r is Ok ==> r->Ok_0@ == json && has_member(json, "id"@) && after.responses_received
            == before.responses_received + 1 && after.errors == before.errors,
        !has_member(json, "result"@) && !has_member(json, "error"@) ==> r is Err,
        r is Err ==> after == before,
{
}

} // verus!
