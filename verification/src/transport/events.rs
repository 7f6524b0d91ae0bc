//! Server-sent events: the stream is cut into blocks at empty lines, the lines of a block are read
//! as fields, and the fields say what the server tells its listener.
use vstd::prelude::*;
use vstd::string::*;
use vstd::utf8::*;

use crate::exchange::is_success;
use crate::json::{has_member, parsed, Json, JsonView};
use crate::text::{
    after_prefix, chars_of, decode_lossy, joined, line_list, lines_of, lossy_text, opt_text, same_text, text_between,
    texts,
};
use crate::transport::{event_views, EventView, ServerEvent};

verus! {

/// The position of the first empty line at or after `from`: of the first of two line feeds in a
/// row. The length of the text where there is none.
pub open spec fn break_at(text: Seq<char>, from: int) -> int
    decreases text.len() - from,
{
    if from < 0 || from + 2 > text.len() {
        text.len() as int
    } else if text[from] == '\n' && text[from + 1] == '\n' {
        from
    } else {
        break_at(text, from + 1)
    }
}

/// A break stands within the text, and none stands before it.
proof fn lemma_break_at(text: Seq<char>, from: int)
    requires
        0 <= from <= text.len(),
    ensures
        from <= break_at(text, from) <= text.len(),
        break_at(text, from) < text.len() ==> break_at(text, from) + 2 <= text.len() && text[break_at(text, from)]
            == '\n' && text[break_at(text, from) + 1] == '\n',
        forall|j: int|
            from <= j < break_at(text, from) && j + 1 < text.len() ==> !(#[trigger] text[j] == '\n' && text[j + 1]
                == '\n'),
    decreases text.len() - from,
{
    if from + 2 <= text.len() && !(text[from] == '\n' && text[from + 1] == '\n') {
        lemma_break_at(text, from + 1);
    }
}

/// The position of a break is the first one.
proof fn lemma_break_is_first(text: Seq<char>, from: int, at: int)
    requires
        0 <= from <= at,
        at + 2 <= text.len(),
        text[at] == '\n' && text[at + 1] == '\n',
        forall|j: int| from <= j < at ==> !(#[trigger] text[j] == '\n' && text[j + 1] == '\n'),
    ensures
        break_at(text, from) == at,
    decreases at - from,
{
    if from < at {
        assert(!(text[from] == '\n' && text[from + 1] == '\n'));
        lemma_break_is_first(text, from + 1, at);
    }
}

/// The complete blocks of a stream: what stands before each empty line.
pub open spec fn blocks(text: Seq<char>) -> Seq<Seq<char>>
    decreases text.len(),
{
    let at = break_at(text, 0);
    if 0 <= at && at + 2 <= text.len() {
        seq![text.take(at)] + blocks(text.skip(at + 2))
    } else {
        Seq::empty()
    }
}

/// What stands behind the last complete block.
pub open spec fn unfinished(text: Seq<char>) -> Seq<char>
    decreases text.len(),
{
    let at = break_at(text, 0);
    if 0 <= at && at + 2 <= text.len() {
        unfinished(text.skip(at + 2))
    } else {
        text
    }
}

/// Where a stream is cut into pieces makes no difference: the blocks of the whole are the blocks of
/// the first piece, and then those of what it left unfinished with the second piece behind it.
pub proof fn blocks_do_not_depend_on_the_cut(first: Seq<char>, second: Seq<char>)
    ensures
        blocks(first + second) == blocks(first) + blocks(unfinished(first) + second),
        unfinished(first + second) == unfinished(unfinished(first) + second),
    decreases first.len(),
{
    let whole = first + second;
    let at = break_at(first, 0);
    lemma_break_at(first, 0);
    if at + 2 <= first.len() {
        assert(whole[at] == first[at] && whole[at + 1] == first[at + 1]);
        assert forall|j: int| 0 <= j < at implies !(#[trigger] whole[j] == '\n' && whole[j + 1] == '\n') by {
            assert(whole[j] == first[j] && whole[j + 1] == first[j + 1]);
        }
        lemma_break_is_first(whole, 0, at);
        assert(whole.take(at) =~= first.take(at));
        assert(whole.skip(at + 2) =~= first.skip(at + 2) + second);
        blocks_do_not_depend_on_the_cut(first.skip(at + 2), second);
        assert(blocks(whole) =~= blocks(first) + blocks(unfinished(first) + second));
    } else {
        assert(blocks(first) =~= Seq::empty());
        assert(blocks(whole) =~= blocks(first) + blocks(unfinished(first) + second));
    }
}

/// Nothing unfinished holds an empty line.
pub proof fn unfinished_holds_no_block(text: Seq<char>)
    ensures
        blocks(unfinished(text)) == Seq::<Seq<char>>::empty(),
        unfinished(unfinished(text)) == unfinished(text),
    decreases text.len(),
{
    let at = break_at(text, 0);
    if 0 <= at && at + 2 <= text.len() {
        unfinished_holds_no_block(text.skip(at + 2));
    }
}

/// The blocks of a stream, and what is left over.
pub struct Split {
    pub blocks: Vec<String>,
    pub rest: String,
}

/// Cuts a stream into blocks.
pub fn split_blocks(text: &str) -> (r: Split)
    ensures
        texts(r.blocks@) == blocks(text@),
        r.rest@ == unfinished(text@),
{
    let v = chars_of(text);
    let mut found: Vec<String> = Vec::new();
    let mut start: usize = 0;
    let mut i: usize = 0;
    assert(v@.skip(0) =~= v@);
    assert(texts(found@) + blocks(v@) =~= blocks(v@));
    while i < v.len() && v.len() - i >= 2
        invariant
            v@ == text@,
            start <= i <= v@.len(),
            blocks(v@) == texts(found@) + blocks(v@.skip(start as int)),
            unfinished(v@) == unfinished(v@.skip(start as int)),
            forall|j: int|
                start <= j < i ==> !(#[trigger] v@[j] == '\n' && j + 1 < v@.len() && v@[j + 1] == '\n'),
        decreases v@.len() - i,
    {
        if v[i] == '\n' && v[i + 1] == '\n' {
            let ghost tail = v@.skip(start as int);
            let ghost before = texts(found@);
            proof {
                assert(tail[i - start] == v@[i as int] && tail[i - start + 1] == v@[i + 1]);
                assert forall|j: int| 0 <= j < i - start implies !(#[trigger] tail[j] == '\n' && tail[j + 1]
                    == '\n') by {
                    assert(tail[j] == v@[start + j] && tail[j + 1] == v@[start + j + 1]);
                }
                lemma_break_is_first(tail, 0, i - start);
                assert(tail.take(i - start) =~= v@.subrange(start as int, i as int));
                assert(tail.skip(i - start + 2) =~= v@.skip(i + 2));
            }
            found.push(text_between(&v, start, i));
            proof {
                assert(texts(found@) =~= before + seq![v@.subrange(start as int, i as int)]);
                assert(before + blocks(tail) =~= texts(found@) + blocks(v@.skip(i + 2)));
            }
            i = i + 2;
            start = i;
        } else {
            i = i + 1;
        }
    }
    let rest = text_between(&v, start, v.len());
    proof {
        let tail = v@.skip(start as int);
        assert(v@.subrange(start as int, v@.len() as int) =~= tail);
        lemma_break_at(tail, 0);
        let at = break_at(tail, 0);
        if at + 2 <= tail.len() {
            assert(tail[at] == v@[start + at] && tail[at + 1] == v@[start + at + 1]);
        }
        assert(texts(found@) + Seq::<Seq<char>>::empty() =~= texts(found@));
    }
    Split { blocks: found, rest }
}

/// The fields of a block that matter.
pub struct FieldsView {
    pub event: Option<Seq<char>>,
    pub data: Seq<char>,
}

/// The data so far with another line of data below it.
pub open spec fn more_data(data: Seq<char>, line: Seq<char>) -> Seq<char> {
    if data.len() == 0 {
        line
    } else {
        data.push('\n') + line
    }
}

/// The fields that lines hold: the last event name, and the lines of data one below the other.
pub open spec fn fields(lines: Seq<Seq<char>>) -> FieldsView
    decreases lines.len(),
{
    if lines.len() == 0 {
        FieldsView { event: None, data: Seq::empty() }
    } else {
        let before = fields(lines.drop_last());
        let line = lines.last();
        if "event: "@.is_prefix_of(line) {
            FieldsView { event: Some(line.skip("event: "@.len() as int)), data: before.data }
        } else if "data: "@.is_prefix_of(line) {
            FieldsView { event: before.event, data: more_data(before.data, line.skip("data: "@.len() as int)) }
        } else {
            before
        }
    }
}

/// The fields of a block.
#[derive(Debug)]
pub struct EventFields {
    pub event: Option<String>,
    pub data: String,
}

impl View for EventFields {
    type V = FieldsView;

    open spec fn view(&self) -> FieldsView {
        FieldsView { event: opt_text(self.event), data: self.data@ }
    }
}

/// Reads the fields of a block.
pub fn read_fields(block: &str) -> (r: EventFields)
    ensures
        r@ == fields(line_list(block@)),
{
    let lines = lines_of(block);
    let mut event: Option<String> = None;
    let mut data = String::new();
    let mut i: usize = 0;
    assert(texts(lines@).take(0) =~= Seq::empty());
    assert(data@ =~= Seq::empty());
    while i < lines.len()
        invariant
            i <= lines@.len(),
            fields(texts(lines@).take(i as int)) == (FieldsView { event: opt_text(event), data: data@ }),
        decreases lines@.len() - i,
    {
        proof {
            let upto = texts(lines@).take(i + 1);
            assert(upto.drop_last() =~= texts(lines@).take(i as int));
            assert(upto.last() == lines@[i as int]@);
        }
        let line = lines[i].as_str();
        match after_prefix(line, "event: ") {
            Some(value) => {
                proof {
                    assert(line@.skip("event: "@.len() as int) =~= value@);
                    assert("event: "@.is_prefix_of(line@));
                }
                event = Some(value);
            },
            None => match after_prefix(line, "data: ") {
                Some(value) => {
                    let ghost so_far = data@;
                    proof {
                        assert(line@.skip("data: "@.len() as int) =~= value@);
                        assert("data: "@.is_prefix_of(line@));
                    }
                    let filled = data.as_str().unicode_len() > 0;
                    if filled {
                        data.push('\n');
                    }
                    data.append(value.as_str());
                    assert(data@ =~= more_data(so_far, value@));
                },
                None => {},
            },
        }
        i = i + 1;
    }
    assert(texts(lines@).take(i as int) =~= texts(lines@));
    EventFields { event, data }
}

/// The two dialects of event streams.
#[derive(Debug, Clone, Copy, PartialEq, Eq, Structural)]
pub enum Dialect {
    /// The stream that answers a GET on a Streamable HTTP endpoint.
    Streamable,
    /// The stream of a separate SSE endpoint.
    Separate,
}

/// A document as a notification, where the data is one.
pub open spec fn notification_in(data: Seq<char>) -> Option<EventView> {
    match parsed(encode_utf8(data)) {
        Ok(json) => Some(EventView::Notification(json)),
        Err(_) => None,
    }
}

/// On a Streamable HTTP endpoint the document itself says what it is: with a method, or with
/// neither method nor identifier, a notification; with an identifier alone, a request.
pub open spec fn streamed_event(data: Seq<char>) -> Option<EventView> {
    match parsed(encode_utf8(data)) {
        Ok(json) => if !has_member(json, "method"@) && has_member(json, "id"@) {
            Some(EventView::Request(json))
        } else {
            Some(EventView::Notification(json))
        },
        Err(_) => None,
    }
}

/// On a separate endpoint the event name says what the document is; without a name it is a
/// notification, and an unknown name says nothing.
pub open spec fn named_event(name: Option<Seq<char>>, data: Seq<char>) -> Option<EventView> {
    match name {
        Some(n) => if n == "notification"@ {
            notification_in(data)
        } else if n == "request"@ {
            match parsed(encode_utf8(data)) {
                Ok(json) => Some(EventView::Request(json)),
                Err(_) => None,
            }
        } else if n == "heartbeat"@ || n == "ping"@ {
            Some(EventView::Heartbeat)
        } else {
            None
        },
        None => notification_in(data),
    }
}

/// What a block tells the listener; without data it tells nothing.
pub open spec fn event_in(dialect: Dialect, block: Seq<char>) -> Option<EventView> {
    let f = fields(line_list(block));
    if f.data.len() == 0 {
        None
    } else {
        match dialect {
            Dialect::Streamable => streamed_event(f.data),
            Dialect::Separate => named_event(f.event, f.data),
        }
    }
}

/// What an optional event says.
pub open spec fn opt_event(event: Option<ServerEvent>) -> Option<EventView> {
    match event {
        Some(e) => Some(e@),
        None => None,
    }
}

/// Reads the data of a notification.
fn read_notification(data: &str) -> (r: Option<ServerEvent>)
    ensures
        opt_event(r) == notification_in(data@),
{
    match Json::parse(data.as_bytes()) {
        Ok(json) => Some(ServerEvent::Notification(json)),
        Err(_) => None,
    }
}

/// Reads the data of an event that its document classifies.
pub fn read_streamed(data: &str) -> (r: Option<ServerEvent>)
    ensures
        opt_event(r) == streamed_event(data@),
{
    match Json::parse(data.as_bytes()) {
        Ok(json) => if !json.has("method") && json.has("id") {
            Some(ServerEvent::Request(json))
        } else {
            Some(ServerEvent::Notification(json))
        },
        Err(_) => None,
    }
}

/// Reads the data of an event that its name classifies.
pub fn read_named(name: &Option<String>, data: &str) -> (r: Option<ServerEvent>)
    ensures
        opt_event(r) == named_event(opt_text(*name), data@),
{
    match name {
        Some(n) => {
            let n = n.as_str();
            if same_text(n, "notification") {
                read_notification(data)
            } else if same_text(n, "request") {
                match Json::parse(data.as_bytes()) {
                    Ok(json) => Some(ServerEvent::Request(json)),
                    Err(_) => None,
                }
            } else if same_text(n, "heartbeat") || same_text(n, "ping") {
                Some(ServerEvent::Heartbeat)
            } else {
                None
            }
        },
        None => read_notification(data),
    }
}

/// Reads a block.
pub fn read_event(dialect: Dialect, block: &str) -> (r: Option<ServerEvent>)
    ensures
        opt_event(r) == event_in(dialect, block@),
{
    let f = read_fields(block);
    let filled = f.data.as_str().unicode_len() > 0;
    if !filled {
        None
    } else {
        match dialect {
            Dialect::Streamable => read_streamed(f.data.as_str()),
            Dialect::Separate => read_named(&f.event, f.data.as_str()),
        }
    }
}

/// What blocks tell the listener, in their order.
pub open spec fn events_in(dialect: Dialect, found: Seq<Seq<char>>) -> Seq<EventView>
    decreases found.len(),
{
    if found.len() == 0 {
        Seq::empty()
    } else {
        let before = events_in(dialect, found.drop_last());
        match event_in(dialect, found.last()) {
            Some(event) => before.push(event),
            None => before,
        }
    }
}

/// The events of two lists of blocks, one behind the other.
proof fn lemma_events_in_concat(dialect: Dialect, a: Seq<Seq<char>>, b: Seq<Seq<char>>)
    ensures
        events_in(dialect, a + b) == events_in(dialect, a) + events_in(dialect, b),
    decreases b.len(),
{
    if b.len() == 0 {
        assert(a + b =~= a);
        assert(events_in(dialect, a) + events_in(dialect, b) =~= events_in(dialect, a));
    } else {
        assert((a + b).drop_last() =~= a + b.drop_last());
        assert((a + b).last() == b.last());
        lemma_events_in_concat(dialect, a, b.drop_last());
        assert(events_in(dialect, a + b) =~= events_in(dialect, a) + events_in(dialect, b));
    }
}

/// A listener hears the same events, and is left with the same rest, whether bytes come at once or
/// in two chunks that are cut between characters. (A cut within a character does make a
/// difference: each chunk is decoded by itself.)
pub proof fn chunks_are_heard_like_the_whole(dialect: Dialect, buffer: Seq<char>, bytes: Seq<u8>, cut: int)
    requires
        valid_utf8(bytes),
        is_char_boundary(bytes, cut),
        0 <= cut <= bytes.len(),
    ensures
        ({
            let one = bytes.subrange(0, cut);
            let two = bytes.subrange(cut, bytes.len() as int);
            let kept = unfinished(buffer + lossy_text(one));
            &&& events_in(dialect, blocks(buffer + lossy_text(bytes))) == events_in(
                dialect,
                blocks(buffer + lossy_text(one)),
            ) + events_in(dialect, blocks(kept + lossy_text(two)))
            &&& unfinished(buffer + lossy_text(bytes)) == unfinished(kept + lossy_text(two))
        }),
{
    let one = bytes.subrange(0, cut);
    let two = bytes.subrange(cut, bytes.len() as int);
    valid_utf8_split(bytes, cut);
    decode_utf8_split(bytes, cut);
    let first = buffer + lossy_text(one);
    let second = lossy_text(two);
    assert(buffer + lossy_text(bytes) =~= first + second);
    blocks_do_not_depend_on_the_cut(first, second);
    lemma_events_in_concat(dialect, blocks(first), blocks(unfinished(first) + second));
}

/// What to do after the events were delivered.
#[derive(Debug, Clone, Copy, PartialEq, Eq, Structural)]
pub enum Afterwards {
    /// Read on.
    Read,
    /// Connect anew after that many seconds.
    Reconnect { seconds: u64 },
}

/// What a listener does with what came off its connection.
#[derive(Debug)]
pub struct ListenerStep {
    pub events: Vec<ServerEvent>,
    pub next: Afterwards,
}

impl ListenerStep {
    /// Whether the step delivers these events and goes on like that.
    pub open spec fn does(self, events: Seq<EventView>, afterwards: Afterwards) -> bool {
        event_views(self.events@) == events && self.next == afterwards
    }
}

/// Whether an event is counted as received.
pub open spec fn is_counted(dialect: Dialect, event: EventView) -> bool {
    dialect == Dialect::Separate && !(event is Error || event is ConnectionLost)
}

/// Every event that comes off the stream of a separate endpoint is counted.
pub proof fn streamed_events_are_counted(blocks: Seq<Seq<char>>)
    ensures
        forall|i: int|
            0 <= i < events_in(Dialect::Separate, blocks).len() ==> is_counted(
                Dialect::Separate,
                #[trigger] events_in(Dialect::Separate, blocks)[i],
            ),
    decreases blocks.len(),
{
    if blocks.len() > 0 {
        let before = events_in(Dialect::Separate, blocks.drop_last());
        let all = events_in(Dialect::Separate, blocks);
        streamed_events_are_counted(blocks.drop_last());
        assert forall|i: int| 0 <= i < all.len() implies is_counted(Dialect::Separate, #[trigger] all[i]) by {
            if i < before.len() {
                assert(all[i] == before[i]);
            }
        }
    }
}

/// A listener on a stream of server-sent events.
#[derive(Debug)]
pub struct Listener {
    pub dialect: Dialect,
    /// What the stream left unfinished.
    pub buffer: String,
}

impl Listener {
    /// The seconds between the end of a stream and the next connection.
    pub open spec fn patience(self) -> u64 {
        match self.dialect {
            Dialect::Streamable => 2,
            Dialect::Separate => 5,
        }
    }

    /// What bytes tell the listener, and what it keeps of them.
    pub open spec fn hears(self, after: Listener, bytes: Seq<u8>, step: ListenerStep) -> bool {
        let text = self.buffer@ + lossy_text(bytes);
        &&& after.dialect == self.dialect
        &&& after.buffer@ == unfinished(text)
        &&& step.does(events_in(self.dialect, blocks(text)), Afterwards::Read)
    }

    /// A listener that is not connected yet.
    pub fn new(dialect: Dialect) -> (l: Self)
        ensures
            l.dialect == dialect,
            l.buffer@ == Seq::<char>::empty(),
    {
        Listener { dialect, buffer: String::new() }
    }

    /// The server answered: with success the stream begins, otherwise there is another try in five
    /// seconds.
    pub fn answered(&mut self, status: u16, status_text: &str) -> (step: ListenerStep)
        ensures
            final(self).dialect == old(self).dialect,
            is_success(status) ==> final(self).buffer@ == Seq::<char>::empty() && step.does(
                Seq::empty(),
                Afterwards::Read,
            ),
            !is_success(status) ==> final(self).buffer@ == old(self).buffer@ && step.does(
                seq![
                    EventView::Error(
                        match old(self).dialect {
                            Dialect::Streamable => "HTTP "@ + status_text@,
                            Dialect::Separate => "SSE error: "@ + status_text@,
                        },
                    ),
                ],
                (Afterwards::Reconnect { seconds: 5 }),
            ),
    {
        let mut events: Vec<ServerEvent> = Vec::new();
        if 200 <= status && status < 300 {
            self.buffer = String::new();
            assert(event_views(events@) =~= Seq::empty());
            return ListenerStep { events, next: Afterwards::Read };
        }
        let message = match self.dialect {
            Dialect::Streamable => joined("HTTP ", status_text),
            Dialect::Separate => joined("SSE error: ", status_text),
        };
        let ghost said = message@;
        events.push(ServerEvent::Error(message));
        assert(event_views(events@) =~= seq![EventView::Error(said)]);
        ListenerStep { events, next: Afterwards::Reconnect { seconds: 5 } }
    }

    /// The server could not be reached: another try in five seconds.
    pub fn unreachable(&self, error: &str) -> (step: ListenerStep)
        ensures
            step.does(
                seq![
                    EventView::Error(
                        match self.dialect {
                            Dialect::Streamable => error@,
                            Dialect::Separate => "SSE connection failed: "@ + error@,
                        },
                    ),
                ],
                (Afterwards::Reconnect { seconds: 5 }),
            ),
    {
        let message = match self.dialect {
            Dialect::Streamable => error.to_owned(),
            Dialect::Separate => joined("SSE connection failed: ", error),
        };
        let ghost said = message@;
        let mut events: Vec<ServerEvent> = Vec::new();
        events.push(ServerEvent::Error(message));
        assert(event_views(events@) =~= seq![EventView::Error(said)]);
        ListenerStep { events, next: Afterwards::Reconnect { seconds: 5 } }
    }

    /// Bytes came: what they complete is delivered, the rest is kept.
    pub fn received(&mut self, bytes: &[u8]) -> (step: ListenerStep)
        ensures
            final(self).dialect == old(self).dialect,
            final(self).buffer@ == unfinished(old(self).buffer@ + lossy_text(bytes@)),
            step.does(
                events_in(old(self).dialect, blocks(old(self).buffer@ + lossy_text(bytes@))),
                Afterwards::Read,
            ),
            old(self).hears(*final(self), bytes@, step),
    {
        let more = decode_lossy(bytes);
        let text = joined(self.buffer.as_str(), more.as_str());
        let split = split_blocks(text.as_str());
        self.buffer = split.rest;
        let found = split.blocks;
        let dialect = self.dialect;
        let mut events: Vec<ServerEvent> = Vec::new();
        let mut i: usize = 0;
        assert(texts(found@).take(0) =~= Seq::empty());
        assert(event_views(events@) =~= Seq::empty());
        while i < found.len()
            invariant
                i <= found@.len(),
                event_views(events@) == events_in(dialect, texts(found@).take(i as int)),
            decreases found@.len() - i,
        {
            proof {
                let upto = texts(found@).take(i + 1);
                assert(upto.drop_last() =~= texts(found@).take(i as int));
                assert(upto.last() == found@[i as int]@);
            }
            match read_event(dialect, found[i].as_str()) {
                Some(event) => {
                    let ghost before = event_views(events@);
                    let ghost said = event@;
                    events.push(event);
                    assert(event_views(events@) =~= before.push(said));
                },
                None => {},
            }
            i = i + 1;
        }
        assert(texts(found@).take(i as int) =~= texts(found@));
        ListenerStep { events, next: Afterwards::Read }
    }

    /// The stream broke off with an error. Only the separate endpoint's listener is told of it.
    pub fn broken(&self, error: &str) -> (step: ListenerStep)
        ensures
            step.does(
                match self.dialect {
                    Dialect::Streamable => seq![EventView::ConnectionLost],
                    Dialect::Separate => seq![
                        EventView::Error("SSE stream error: "@ + error@),
                        EventView::ConnectionLost,
                    ],
                },
                (Afterwards::Reconnect { seconds: self.patience() }),
            ),
    {
        let mut events: Vec<ServerEvent> = Vec::new();
        match self.dialect {
            Dialect::Streamable => {
                events.push(ServerEvent::ConnectionLost);
                assert(event_views(events@) =~= seq![EventView::ConnectionLost]);
                ListenerStep { events, next: Afterwards::Reconnect { seconds: 2 } }
            },
            Dialect::Separate => {
                let message = joined("SSE stream error: ", error);
                let ghost said = message@;
                events.push(ServerEvent::Error(message));
                events.push(ServerEvent::ConnectionLost);
                assert(event_views(events@) =~= seq![EventView::Error(said), EventView::ConnectionLost]);
                ListenerStep { events, next: Afterwards::Reconnect { seconds: 5 } }
            },
        }
    }

    /// The stream ended.
    pub fn ended(&self) -> (step: ListenerStep)
        ensures
            step.does(seq![EventView::ConnectionLost], (Afterwards::Reconnect { seconds: self.patience() })),
    {
        let mut events: Vec<ServerEvent> = Vec::new();
        events.push(ServerEvent::ConnectionLost);
        assert(event_views(events@) =~= seq![EventView::ConnectionLost]);
        match self.dialect {
            Dialect::Streamable => ListenerStep { events, next: Afterwards::Reconnect { seconds: 2 } },
            Dialect::Separate => ListenerStep { events, next: Afterwards::Reconnect { seconds: 5 } },
        }
    }

    /// Whether an event is counted as received: on a separate endpoint what came off the stream, and not
    /// the listener's own notices; on a Streamable HTTP endpoint nothing is.
    pub fn counts(&self, event: &ServerEvent) -> (r: bool)
        ensures
            r == is_counted(self.dialect, event@),
    {
        match self.dialect {
            Dialect::Streamable => false,
            Dialect::Separate => match event {
                ServerEvent::Error(_) => false,
                ServerEvent::ConnectionLost => false,
                _ => true,
            },
        }
    }

    /// Whether to stop listening where something came and nobody is there any more: on a Streamable
    /// HTTP endpoint.
    pub fn stops_closed(&self) -> (r: bool)
        ensures
            r == (self.dialect == Dialect::Streamable),
    {
        match self.dialect {
            Dialect::Streamable => true,
            Dialect::Separate => false,
        }
    }

    /// Whether to stop listening where an event finds nobody to receive it: always on a Streamable
    /// HTTP endpoint; on a separate one the listener's own notices may go unheard.
    pub fn stops_unheard(&self, event: &ServerEvent) -> (r: bool)
        ensures
            r == (self.dialect == Dialect::Streamable || !(event is Error || event is ConnectionLost)),
    {
        match self.dialect {
            Dialect::Streamable => true,
            Dialect::Separate => match event {
                ServerEvent::Error(_) => false,
                ServerEvent::ConnectionLost => false,
                _ => true,
            },
        }
    }
}

// -- What holds of blocks and their lines.

/// The lines of data of a block.
pub open spec fn data_lines(block: Seq<char>) -> Seq<Seq<char>> {
    line_list(block).filter(|line: Seq<char>| "data: "@.is_prefix_of(line))
}

/// The lines of a block that name its event.
pub open spec fn event_lines(block: Seq<char>) -> Seq<Seq<char>> {
    line_list(block).filter(|line: Seq<char>| "event: "@.is_prefix_of(line))
}

/// The lines of data of a block are the given ones, in order.
pub open spec fn has_data(block: Seq<char>, datas: Seq<Seq<char>>) -> bool {
    data_lines(block) == Seq::new(datas.len(), |i: int| "data: "@ + datas[i])
}

/// The last line of a block that names its event gives that name; or there is no such line.
pub open spec fn has_name(block: Seq<char>, name: Option<Seq<char>>) -> bool {
    match name {
        Some(n) => event_lines(block).len() > 0 && event_lines(block).last() == "event: "@ + n,
        None => event_lines(block).len() == 0,
    }
}

/// Texts one below the other.
pub open spec fn stacked(datas: Seq<Seq<char>>) -> Seq<char>
    decreases datas.len(),
{
    if datas.len() == 0 {
        Seq::empty()
    } else if datas.len() == 1 {
        datas[0]
    } else {
        stacked(datas.drop_last()).push('\n') + datas.last()
    }
}

/// No line is a line of data and the name of an event.
proof fn lemma_data_is_no_event(line: Seq<char>)
    ensures
        !("data: "@.is_prefix_of(line) && "event: "@.is_prefix_of(line)),
{
    reveal_strlit("data: ");
    reveal_strlit("event: ");
    if "data: "@.is_prefix_of(line) && "event: "@.is_prefix_of(line) {
        assert(line[0] == "data: "@[0]);
        assert(line[0] == "event: "@[0]);
    }
}

proof fn lemma_fields_by_lines(lines: Seq<Seq<char>>)
    ensures
        fields(lines).data == fields(lines.filter(|line: Seq<char>| "data: "@.is_prefix_of(line))).data,
        ({
            let named = lines.filter(|line: Seq<char>| "event: "@.is_prefix_of(line));
            &&& named.len() == 0 ==> fields(lines).event is None
            &&& named.len() > 0 ==> fields(lines).event == Some(named.last().skip("event: "@.len() as int))
        }),
    decreases lines.len(),
{
    reveal(Seq::filter);
    if lines.len() > 0 {
        let head = lines.drop_last();
        let line = lines.last();
        lemma_fields_by_lines(head);
        lemma_data_is_no_event(line);
        let found = head.filter(|line: Seq<char>| "data: "@.is_prefix_of(line));
        if "data: "@.is_prefix_of(line) {
            assert(found.push(line).drop_last() =~= found);
            assert(lines.filter(|line: Seq<char>| "data: "@.is_prefix_of(line)) =~= found.push(line));
        }
    }
}

proof fn lemma_fields_of_data(datas: Seq<Seq<char>>)
    requires
        datas.len() > 0,
        datas[0].len() > 0,
    ensures
        fields(Seq::new(datas.len(), |i: int| "data: "@ + datas[i])).data == stacked(datas),
        stacked(datas).len() > 0,
    decreases datas.len(),
{
    let lines = Seq::new(datas.len(), |i: int| "data: "@ + datas[i]);
    let last = "data: "@ + datas.last();
    assert(lines.last() == last);
    assert(last.subrange(0, "data: "@.len() as int) =~= "data: "@);
    assert("data: "@.is_prefix_of(last));
    lemma_data_is_no_event(last);
    assert(last.skip("data: "@.len() as int) =~= datas.last());
    if datas.len() > 1 {
        let fewer = datas.drop_last();
        lemma_fields_of_data(fewer);
        assert(lines.drop_last() =~= Seq::new(fewer.len(), |i: int| "data: "@ + fewer[i]));
        assert(fields(lines.drop_last()).data == stacked(fewer));
        assert(fields(lines).data == stacked(datas));
    } else {
        assert(lines.drop_last() =~= Seq::empty());
        assert(fields(lines.drop_last()).data =~= Seq::empty());
        assert(fields(lines).data == datas[0]);
    }
}

/// On a Streamable HTTP endpoint only the lines of data matter: two blocks with the same ones tell the
/// same, whatever else stands in them, the name of an event included. On a separate endpoint the lines
/// that name the event matter as well, and nothing else.
pub proof fn other_lines_make_no_difference(a: Seq<char>, b: Seq<char>)
    requires
        data_lines(a) == data_lines(b),
    ensures
        event_in(Dialect::Streamable, a) == event_in(Dialect::Streamable, b),
        event_lines(a) == event_lines(b) ==> event_in(Dialect::Separate, a) == event_in(Dialect::Separate, b),
{
    lemma_fields_by_lines(line_list(a));
    lemma_fields_by_lines(line_list(b));
}

/// A block whose lines of data, one below the other, are a JSON document is always delivered. On a
/// Streamable HTTP endpoint it is a request where it has an identifier and no method, and a notification
/// otherwise. On a separate endpoint it is what the event's name says.
pub proof fn documents_are_delivered(block: Seq<char>, datas: Seq<Seq<char>>, json: JsonView)
    requires
        has_data(block, datas),
        datas.len() > 0,
        datas[0].len() > 0,
        parsed(encode_utf8(stacked(datas))) == Ok::<JsonView, Seq<char>>(json),
    ensures
        has_member(json, "method"@) ==> event_in(Dialect::Streamable, block) == Some(EventView::Notification(json)),
        !has_member(json, "method"@) && has_member(json, "id"@) ==> event_in(Dialect::Streamable, block) == Some(
            EventView::Request(json),
        ),
        !has_member(json, "id"@) ==> event_in(Dialect::Streamable, block) == Some(EventView::Notification(json)),
        has_name(block, None) ==> event_in(Dialect::Separate, block) == Some(EventView::Notification(json)),
        has_name(block, Some("notification"@)) ==> event_in(Dialect::Separate, block) == Some(
            EventView::Notification(json),
        ),
        has_name(block, Some("request"@)) ==> event_in(Dialect::Separate, block) == Some(EventView::Request(json)),
{
    reveal_strlit("notification");
    reveal_strlit("request");
    lemma_fields_by_lines(line_list(block));
    lemma_fields_of_data(datas);
    lemma_name_is_read(block, "notification"@);
    lemma_name_is_read(block, "request"@);
}

proof fn lemma_name_is_read(block: Seq<char>, name: Seq<char>)
    ensures
        has_name(block, Some(name)) ==> fields(line_list(block)).event == Some(name),
{
    lemma_fields_by_lines(line_list(block));
    assert(("event: "@ + name).skip("event: "@.len() as int) =~= name);
}

/// What is no document is not delivered, but for a heartbeat, which needs none; a name that is not known
/// says nothing; and a block without data says nothing at all.
pub proof fn what_is_not_delivered(block: Seq<char>, datas: Seq<Seq<char>>)
    requires
        has_data(block, datas),
        datas.len() > 0 ==> datas[0].len() > 0,
    ensures
        datas.len() == 0 ==> event_in(Dialect::Streamable, block) is None && event_in(
            Dialect::Separate,
            block,
        ) is None,
        parsed(encode_utf8(stacked(datas))) is Err ==> event_in(Dialect::Streamable, block) is None && (event_in(
            Dialect::Separate,
            block,
        ) is None || event_in(Dialect::Separate, block) == Some(EventView::Heartbeat)),
        datas.len() > 0 && (has_name(block, Some("heartbeat"@)) || has_name(block, Some("ping"@))) ==> event_in(
            Dialect::Separate,
            block,
        ) == Some(EventView::Heartbeat),
        forall|name: Seq<char>| #[trigger]
            has_name(block, Some(name)) && name != "notification"@ && name != "request"@ && name != "heartbeat"@
                && name != "ping"@ ==> event_in(Dialect::Separate, block) is None,
{
    reveal_strlit("notification");
    reveal_strlit("request");
    reveal_strlit("heartbeat");
    reveal_strlit("ping");
    lemma_fields_by_lines(line_list(block));
    if datas.len() > 0 {
        lemma_fields_of_data(datas);
    } else {
        assert(data_lines(block) =~= Seq::empty());
    }
    assert forall|name: Seq<char>| #[trigger] has_name(block, Some(name)) implies fields(line_list(block)).event
        == Some(name) by {
        lemma_name_is_read(block, name);
    }
}

/// An empty line ends a block, and the stream goes on behind it.
pub proof fn an_empty_line_ends_a_block(block: Seq<char>, more: Seq<char>)
    requires
        forall|i: int| 0 <= i < block.len() ==> !(#[trigger] block[i] == '\n' && (i + 1 == block.len() || block[i + 1]
            == '\n')),
    ensures
        blocks(block + seq!['\n', '\n'] + more) == seq![block] + blocks(more),
        unfinished(block + seq!['\n', '\n'] + more) == unfinished(more),
        blocks(block) == Seq::<Seq<char>>::empty(),
        unfinished(block) == block,
{
    let text = block + seq!['\n', '\n'] + more;
    let at = block.len() as int;
    assert(text[at] == '\n' && text[at + 1] == '\n');
    assert forall|j: int| 0 <= j < at implies !(#[trigger] text[j] == '\n' && text[j + 1] == '\n') by {
        assert(text[j] == block[j]);
        if j + 1 < at {
            assert(text[j + 1] == block[j + 1]);
        }
    }
    lemma_break_is_first(text, 0, at);
    assert(text.take(at) =~= block);
    assert(text.skip(at + 2) =~= more);
    lemma_break_at(block, 0);
}

/// The listener hears of every block as soon as its empty line has come, in order and once, and keeps
/// what stands behind.
pub proof fn every_block_is_heard(
    before: Listener,
    after: Listener,
    bytes: Seq<u8>,
    step: ListenerStep,
    block: Seq<char>,
    more: Seq<char>,
)
    requires
        before.hears(after, bytes, step),
        before.buffer@ + lossy_text(bytes) == block + seq!['\n', '\n'] + more,
        forall|i: int| 0 <= i < block.len() ==> !(#[trigger] block[i] == '\n' && (i + 1 == block.len() || block[i + 1]
            == '\n')),
    ensures
        step.next is Read,
        after.dialect == before.dialect,
        after.buffer@ == unfinished(more),
        event_views(step.events@) == (match event_in(before.dialect, block) {
            Some(event) => seq![event],
            None => Seq::empty(),
        }) + events_in(before.dialect, blocks(more)),
{
    an_empty_line_ends_a_block(block, more);
    lemma_events_in_concat(before.dialect, seq![block], blocks(more));
    let one = seq![block];
    assert(one.drop_last() =~= Seq::empty());
    assert(events_in(before.dialect, one.drop_last()) =~= Seq::empty());
    assert(events_in(before.dialect, one) =~= (match event_in(before.dialect, block) {
        Some(event) => seq![event],
        None => Seq::empty(),
    }));
}

/// What a listener notices itself is not counted as received, and on a Streamable HTTP endpoint nothing is.
pub proof fn only_what_came_is_counted(dialect: Dialect, event: EventView, text: Seq<char>)
    ensures
        !is_counted(dialect, EventView::ConnectionLost),
        !is_counted(dialect, EventView::Error(text)),
        is_counted(dialect, event) ==> dialect == Dialect::Separate,
        is_counted(Dialect::Separate, EventView::Heartbeat),
{
}

} // verus!
