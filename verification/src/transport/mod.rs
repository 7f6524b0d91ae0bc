//! Transports: what they share.
use vstd::hash_map::*;
use vstd::prelude::*;

use crate::error::{McpClientError, TransportError};
use crate::json::{has_member, lemma_object_view, lookup, member, member_views, Json, JsonView};
use crate::text::{decimal, joined, opt_text, same_text};

pub mod events;
pub mod frames;
pub mod http;
pub mod sse;

verus! {

/// The kinds of transport.
#[derive(Debug, Clone, Copy, PartialEq, Eq, Structural)]
pub enum TransportType {
    /// Streamable HTTP.
    Http,
    /// HTTP with server-sent events.
    Sse,
}

/// What a transport can do.
#[derive(Debug, Clone, Copy)]
pub struct TransportCapabilities {
    pub streaming: bool,
    pub bidirectional: bool,
    pub server_events: bool,
    pub max_message_size: Option<usize>,
    pub persistent: bool,
}

/// What a transport counts.
#[derive(Debug, Clone)]
pub struct TransportStatistics {
    pub requests_sent: u64,
    pub responses_received: u64,
    pub notifications_sent: u64,
    pub events_received: u64,
    pub errors: u64,
    pub last_error: Option<String>,
}

impl TransportStatistics {
    /// Nothing was counted yet.
    pub open spec fn is_fresh(self) -> bool {
        &&& self.requests_sent == 0
        &&& self.responses_received == 0
        &&& self.notifications_sent == 0
        &&& self.events_received == 0
        &&& self.errors == 0
        &&& self.last_error is None
    }

    /// Counters at zero.
    pub fn new() -> (s: Self)
        ensures
            s.is_fresh(),
    {
        TransportStatistics {
            requests_sent: 0,
            responses_received: 0,
            notifications_sent: 0,
            events_received: 0,
            errors: 0,
            last_error: None,
        }
    }
}

/// What a server tells its listener.
#[derive(Debug)]
pub enum ServerEvent {
    Notification(Json),
    Request(Json),
    ConnectionLost,
    Error(String),
    Heartbeat,
}

/// What an event says.
pub enum EventView {
    Notification(JsonView),
    Request(JsonView),
    ConnectionLost,
    Error(Seq<char>),
    Heartbeat,
}

impl View for ServerEvent {
    type V = EventView;

    open spec fn view(&self) -> EventView {
        match self {
            ServerEvent::Notification(j) => EventView::Notification(j@),
            ServerEvent::Request(j) => EventView::Request(j@),
            ServerEvent::ConnectionLost => EventView::ConnectionLost,
            ServerEvent::Error(e) => EventView::Error(e@),
            ServerEvent::Heartbeat => EventView::Heartbeat,
        }
    }
}

/// What a list of events says.
pub open spec fn event_views(events: Seq<ServerEvent>) -> Seq<EventView> {
    Seq::new(events.len(), |i: int| events[i]@)
}

/// A description of a connection.
#[derive(Debug)]
pub struct ConnectionInfo {
    pub transport_type: TransportType,
    pub endpoint: String,
    pub connected: bool,
    pub capabilities: TransportCapabilities,
    pub metadata: Json,
}

/// The methods that transports use.
#[derive(Debug, Clone, Copy, PartialEq, Eq, Structural)]
pub enum HttpMethod {
    Get,
    Post,
    Delete,
}

/// A request, ready to be sent.
#[derive(Debug)]
pub struct PreparedRequest {
    pub method: HttpMethod,
    pub url: String,
    pub headers: Vec<(String, String)>,
    pub body: Option<Json>,
}

/// The protocol version that every request names.
pub const PROTOCOL_VERSION: &'static str = "2025-11-25";

/// The error of a transport that is not connected.
pub fn not_connected() -> (e: McpClientError)
    ensures
        is_connection_error(e, "Not connected"@),
{
    connection_error("Not connected".to_owned())
}

/// Whether the error is an HTTP transport error with that message.
pub open spec fn is_http_error(e: McpClientError, message: Seq<char>) -> bool {
    e matches McpClientError::Transport(TransportError::Http(m)) && m@ == message
}

/// Whether the error is an SSE transport error with that message.
pub open spec fn is_sse_error(e: McpClientError, message: Seq<char>) -> bool {
    e matches McpClientError::Transport(TransportError::Sse(m)) && m@ == message
}

/// Whether the error is a failed connection with that message.
pub open spec fn is_connection_error(e: McpClientError, message: Seq<char>) -> bool {
    e matches McpClientError::Transport(TransportError::ConnectionFailed(m)) && m@ == message
}

/// An HTTP transport error.
pub fn http_error(message: String) -> (e: McpClientError)
    ensures
        is_http_error(e, message@),
{
    McpClientError::Transport(TransportError::Http(message))
}

/// An SSE transport error.
pub fn sse_error(message: String) -> (e: McpClientError)
    ensures
        is_sse_error(e, message@),
{
    McpClientError::Transport(TransportError::Sse(message))
}

/// A failed connection.
pub fn connection_error(message: String) -> (e: McpClientError)
    ensures
        is_connection_error(e, message@),
{
    McpClientError::Transport(TransportError::ConnectionFailed(message))
}

// -- Headers.

/// The start of an answer: its status, and its headers in the order in which they came, with their
/// names in lower case and their values as bytes.
#[derive(Debug)]
pub struct ResponseHead {
    pub status: u16,
    /// The status with its reason, such as `404 Not Found`.
    pub status_text: String,
    pub headers: Vec<(String, Vec<u8>)>,
}

/// What headers say.
pub open spec fn header_views(headers: Seq<(String, Vec<u8>)>) -> Seq<(Seq<char>, Seq<u8>)> {
    Seq::new(headers.len(), |i: int| (headers[i].0@, headers[i].1@))
}

/// Whether a byte is a tab or a printable ASCII character.
pub open spec fn is_visible(b: u8) -> bool {
    b == 9 || 32 <= b < 127
}

/// The text of a header value, if every byte of it is visible.
pub open spec fn header_text(value: Seq<u8>) -> Option<Seq<char>> {
    if forall|i: int| 0 <= i < value.len() ==> is_visible(#[trigger] value[i]) {
        Some(Seq::new(value.len(), |i: int| value[i] as char))
    } else {
        None
    }
}

/// Reads a header value as text.
pub fn read_header(value: &Vec<u8>) -> (r: Option<String>)
    ensures
        opt_text(r) == header_text(value@),
{
    let mut text = String::new();
    let mut i: usize = 0;
    assert(text@ =~= Seq::empty());
    while i < value.len()
        invariant
            i <= value@.len(),
            text@.len() == i,
            forall|j: int| 0 <= j < i ==> is_visible(#[trigger] value@[j]),
            forall|j: int| 0 <= j < i ==> text@[j] == #[trigger] value@[j] as char,
        decreases value@.len() - i,
    {
        let b = value[i];
        if b != 9 && !(32 <= b && b < 127) {
            assert(!is_visible(value@[i as int]));
            return None;
        }
        text.push(b as char);
        i = i + 1;
    }
    assert(text@ =~= Seq::new(value@.len(), |j: int| value@[j] as char));
    Some(text)
}

/// The text of the first header of that name, if it has one.
pub open spec fn header_of(headers: Seq<(Seq<char>, Seq<u8>)>, name: Seq<char>) -> Option<Seq<char>>
    decreases headers.len(),
{
    if headers.len() == 0 {
        None
    } else if headers[0].0 == name {
        header_text(headers[0].1)
    } else {
        header_of(headers.drop_first(), name)
    }
}

/// Looks a header up.
pub fn find_header(headers: &Vec<(String, Vec<u8>)>, name: &str) -> (r: Option<String>)
    ensures
        opt_text(r) == header_of(header_views(headers@), name@),
{
    let ghost all = header_views(headers@);
    let mut i: usize = 0;
    assert(all.skip(0) =~= all);
    while i < headers.len()
        invariant
            i <= headers@.len(),
            all == header_views(headers@),
            header_of(all, name@) == header_of(all.skip(i as int), name@),
        decreases headers@.len() - i,
    {
        assert(all.skip(i as int)[0] == all[i as int]);
        if same_text(headers[i].0.as_str(), name) {
            return read_header(&headers[i].1);
        }
        assert(all.skip(i as int).drop_first() =~= all.skip(i + 1));
        i = i + 1;
    }
    None
}

/// The headers whose values are text, by name; the last one of a name counts.
pub open spec fn text_headers(headers: Seq<(Seq<char>, Seq<u8>)>) -> Map<Seq<char>, Seq<char>>
    decreases headers.len(),
{
    if headers.len() == 0 {
        Map::empty()
    } else {
        let before = text_headers(headers.drop_last());
        match header_text(headers.last().1) {
            Some(text) => before.insert(headers.last().0, text),
            None => before,
        }
    }
}

/// What a map of strings says.
pub open spec fn map_texts(map: Map<Seq<char>, String>) -> Map<Seq<char>, Seq<char>> {
    map.map_values(|s: String| s@)
}

/// Collects the headers whose values are text.
pub fn collect_headers(headers: &Vec<(String, Vec<u8>)>) -> (r: StringHashMap<String>)
    ensures
        map_texts(r@) == text_headers(header_views(headers@)),
{
    let mut r: StringHashMap<String> = StringHashMap::new();
    let ghost all = header_views(headers@);
    let mut i: usize = 0;
    assert(all.take(0) =~= Seq::empty());
    assert(map_texts(r@) =~= Map::empty());
    while i < headers.len()
        invariant
            i <= headers@.len(),
            all == header_views(headers@),
            map_texts(r@) == text_headers(all.take(i as int)),
        decreases headers@.len() - i,
    {
        proof {
            assert(all.take(i + 1).drop_last() =~= all.take(i as int));
            assert(all.take(i + 1).last() == all[i as int]);
        }
        match read_header(&headers[i].1) {
            Some(text) => {
                let ghost before = r@;
                let ghost said = text@;
                r.insert(headers[i].0.clone(), text);
                assert(map_texts(r@) =~= map_texts(before).insert(headers@[i as int].0@, said));
            },
            None => {},
        }
        i = i + 1;
    }
    assert(all.take(i as int) =~= all);
    r
}

/// An answer with its headers.
pub struct TransportResponse {
    pub body: Json,
    pub headers: StringHashMap<String>,
}

/// A document whose members can be set: an object, or nothing yet.
pub open spec fn takes_members(json: JsonView) -> bool {
    json is Object || json is Null
}

/// The members of a document whose members can be set.
pub open spec fn members_of(json: JsonView) -> Seq<(Seq<char>, JsonView)> {
    match json {
        JsonView::Object(members) => members,
        _ => Seq::empty(),
    }
}

/// A request with an identifier: its own, or the one it is given.
pub open spec fn with_id(request: JsonView, id: Seq<char>) -> JsonView {
    if has_member(request, "id"@) {
        request
    } else {
        JsonView::Object(members_of(request).push(("id"@, JsonView::Text(id))))
    }
}

/// Adds an identifier to a request that has none.
pub fn add_id(request: Json, id: String) -> (r: Json)
    requires
        !has_member(request@, "id"@),
        takes_members(request@),
    ensures
        r@ == with_id(request@, id@),
{
    let ghost before = request;
    let mut members = match request {
        Json::Object(members) => members,
        _ => Vec::new(),
    };
    proof {
        if before is Object {
            lemma_object_view(before);
        }
        assert(members_of(before@) =~= member_views(members@));
    }
    members.push(("id".to_owned(), Json::Text(id)));
    let r = Json::Object(members);
    proof {
        lemma_object_view(r);
        assert(r@->Object_0 =~= members_of(before@).push(("id"@, JsonView::Text(id@))));
    }
    r
}

/// A request is sent with an identifier: the one that it has, or the one that it was given.
pub proof fn every_request_has_an_id(request: JsonView, id: Seq<char>)
    requires
        takes_members(request),
    ensures
        has_member(with_id(request, id), "id"@),
        !has_member(request, "id"@) ==> member(with_id(request, id), "id"@) == Some(JsonView::Text(id)),
        forall|key: Seq<char>|
            key != "id"@ ==> #[trigger] member(with_id(request, id), key) == member(request, key),
{
    if !has_member(request, "id"@) {
        let members = members_of(request);
        lemma_lookup_push(members, ("id"@, JsonView::Text(id)), "id"@);
        assert forall|key: Seq<char>| key != "id"@ implies #[trigger] member(with_id(request, id), key) == member(
            request,
            key,
        ) by {
            lemma_lookup_push(members, ("id"@, JsonView::Text(id)), key);
        }
    }
}

proof fn lemma_lookup_push(members: Seq<(Seq<char>, JsonView)>, new: (Seq<char>, JsonView), key: Seq<char>)
    ensures
        lookup(members.push(new), key) == (if lookup(members, key) is Some {
            lookup(members, key)
        } else if new.0 == key {
            Some(new.1)
        } else {
            None
        }),
    decreases members.len(),
{
    let all = members.push(new);
    if members.len() == 0 {
        assert(all.drop_first() =~= Seq::empty());
        assert(lookup(all.drop_first(), key) is None);
    } else {
        assert(all[0] == members[0]);
        assert(all.drop_first() =~= members.drop_first().push(new));
        lemma_lookup_push(members.drop_first(), new, key);
    }
}

/// The identifier with that number.
pub open spec fn request_id(counter: u64) -> Seq<char> {
    "req_"@ + decimal(counter as nat)
}

/// Writes the identifier with that number.
pub fn request_id_text(counter: u64) -> (r: String)
    ensures
        r@ == request_id(counter),
{
    joined("req_", crate::text::decimal_text(counter).as_str())
}

/// Different numbers give different identifiers.
pub proof fn request_ids_are_unique(a: u64, b: u64)
    ensures
        request_id(a) == request_id(b) ==> a == b,
{
    if request_id(a) == request_id(b) {
        let p = "req_"@;
        assert(decimal(a as nat) =~= request_id(a).skip(p.len() as int));
        assert(decimal(b as nat) =~= request_id(b).skip(p.len() as int));
        crate::text::lemma_numeral_injective(a as nat, b as nat, 10);
    }
}

// -- What holds of headers.

/// The first header of a name counts, where all its bytes are visible; the others of that name do not.
pub proof fn the_first_header_counts(
    before: Seq<(Seq<char>, Seq<u8>)>,
    name: Seq<char>,
    value: Seq<u8>,
    after: Seq<(Seq<char>, Seq<u8>)>,
)
    requires
        forall|i: int| 0 <= i < before.len() ==> (#[trigger] before[i]).0 != name,
    ensures
        header_of(before, name) is None,
        (forall|i: int| 0 <= i < value.len() ==> #[trigger] value[i] == 9 || 32 <= value[i] < 127) ==> header_of(
            before + seq![(name, value)] + after,
            name,
        ) == Some(Seq::new(value.len(), |i: int| value[i] as char)),
        (exists|i: int| 0 <= i < value.len() && !(#[trigger] value[i] == 9 || 32 <= value[i] < 127)) ==> header_of(
            before + seq![(name, value)] + after,
            name,
        ) is None,
    decreases before.len(),
{
    let all = before + seq![(name, value)] + after;
    if before.len() > 0 {
        let fewer = before.drop_first();
        assert forall|i: int| 0 <= i < fewer.len() implies (#[trigger] fewer[i]).0 != name by {
            assert(fewer[i] == before[i + 1]);
        }
        the_first_header_counts(fewer, name, value, after);
        assert(all[0] == before[0]);
        assert(all.drop_first() =~= fewer + seq![(name, value)] + after);
    } else {
        assert(all[0] == (name, value));
        assert forall|i: int| 0 <= i < value.len() implies is_visible(#[trigger] value[i]) == (value[i] == 9 || 32
            <= value[i] < 127) by {}
        if forall|i: int| 0 <= i < value.len() ==> #[trigger] value[i] == 9 || 32 <= value[i] < 127 {
            assert(forall|i: int| 0 <= i < value.len() ==> is_visible(#[trigger] value[i]));
        } else {
            let i = choose|i: int| 0 <= i < value.len() && !(#[trigger] value[i] == 9 || 32 <= value[i] < 127);
            assert(!is_visible(value[i]));
        }
    }
}

/// A header whose value is text is found under its name, unless a later one of that name is text too; and
/// only names that came are found.
pub proof fn text_headers_are_found(
    before: Seq<(Seq<char>, Seq<u8>)>,
    name: Seq<char>,
    value: Seq<u8>,
    after: Seq<(Seq<char>, Seq<u8>)>,
)
    requires
        forall|i: int| 0 <= i < value.len() ==> #[trigger] value[i] == 9 || 32 <= value[i] < 127,
        forall|i: int| 0 <= i < after.len() ==> (#[trigger] after[i]).0 != name,
    ensures
        text_headers(before + seq![(name, value)] + after).contains_key(name),
        text_headers(before + seq![(name, value)] + after)[name] == Seq::new(value.len(), |i: int| value[i] as char),
        !text_headers(after).contains_key(name),
    decreases after.len(),
{
    let all = before + seq![(name, value)] + after;
    if after.len() > 0 {
        let fewer = after.drop_last();
        text_headers_are_found(before, name, value, fewer);
        assert(all.drop_last() =~= before + seq![(name, value)] + fewer);
        assert(all.last() == after.last());
    } else {
        assert(all.drop_last() =~= before);
        assert(all.last() == (name, value));
        assert(forall|i: int| 0 <= i < value.len() ==> is_visible(#[trigger] value[i]));
    }
}

} // verus!
