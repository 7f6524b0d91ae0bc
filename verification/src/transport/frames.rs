//! The frames of a JSON byte stream: documents one behind the other, the last of which answers the
//! request.
use vstd::prelude::*;

use crate::json::{closes_itself, compact, first_document, has_member, member, Json, JsonView};
use crate::transport::{event_views, EventView, ServerEvent};

verus! {

/// How a stream ends.
pub enum EndView {
    /// With a result.
    Success(JsonView),
    /// With an error, in print.
    Failure(Seq<char>),
    /// With an error of the stream itself.
    Broken(Seq<char>),
}

/// How a document ends the stream: with an identifier and a result it does so well, with an
/// identifier and an error badly; any other document does not end it.
pub open spec fn end_in(json: JsonView) -> Option<EndView> {
    if !has_member(json, "id"@) {
        None
    } else if has_member(json, "result"@) {
        Some(EndView::Success(json))
    } else {
        match member(json, "error"@) {
            Some(e) => Some(EndView::Failure(compact(e))),
            None => None,
        }
    }
}

/// The notification in a document that does not end the stream: one with a method.
pub open spec fn note_in(json: JsonView) -> Seq<JsonView> {
    if has_member(json, "method"@) {
        seq![json]
    } else {
        Seq::empty()
    }
}

/// What is read out of bytes: the notifications, the bytes that no complete document has used, and
/// the end, where it came.
pub struct Reading {
    pub notes: Seq<JsonView>,
    pub rest: Seq<u8>,
    pub end: Option<EndView>,
}

/// A reading with notifications before it.
pub open spec fn behind(notes: Seq<JsonView>, r: Reading) -> Reading {
    Reading { notes: notes + r.notes, rest: r.rest, end: r.end }
}

/// Reads documents one after the other, up to the one that ends the stream.
pub open spec fn reading(bytes: Seq<u8>) -> Reading
    decreases bytes.len(),
{
    match first_document(bytes) {
        Some((json, n)) => if 0 < n <= bytes.len() {
            match end_in(json) {
                Some(end) => Reading { notes: Seq::empty(), rest: Seq::empty(), end: Some(end) },
                None => behind(note_in(json), reading(bytes.skip(n as int))),
            }
        } else {
            Reading { notes: Seq::empty(), rest: bytes, end: None }
        },
        None => Reading { notes: Seq::empty(), rest: bytes, end: None },
    }
}

/// Whether the bytes are documents that close themselves, up to the one that ends the stream. Where
/// none does, what is behind the last one holds no document, however little of it has come.
pub open spec fn all_close(bytes: Seq<u8>) -> bool
    decreases bytes.len(),
{
    match first_document(bytes) {
        Some((json, n)) => {
            &&& closes_itself(json)
            &&& 0 < n <= bytes.len()
            &&& end_in(json) is None ==> all_close(bytes.skip(n as int))
        },
        None => bytes.len() == 0 || forall|m: int|
            0 <= m <= bytes.len() ==> first_document(#[trigger] bytes.take(m)) is None,
    }
}

/// A reading that goes on with more bytes.
pub open spec fn continued(r: Reading, more: Seq<u8>) -> Reading {
    if r.end is Some {
        r
    } else {
        behind(r.notes, reading(r.rest + more))
    }
}

/// One piece of a stream: bytes, or the error that breaks it.
pub type Piece = Result<Seq<u8>, Seq<char>>;

/// Reads a stream piece by piece: each piece goes behind what the pieces before it left over.
pub open spec fn stream_reading(rest: Seq<u8>, pieces: Seq<Piece>) -> Reading
    decreases pieces.len(),
{
    if pieces.len() == 0 {
        Reading { notes: Seq::empty(), rest, end: None }
    } else {
        match pieces[0] {
            Err(e) => Reading { notes: Seq::empty(), rest, end: Some(EndView::Broken(e)) },
            Ok(bytes) => {
                let r = reading(rest + bytes);
                if r.end is Some {
                    r
                } else {
                    behind(r.notes, stream_reading(r.rest, pieces.drop_first()))
                }
            },
        }
    }
}

/// Whether the stream does not break.
pub open spec fn unbroken(pieces: Seq<Piece>) -> bool {
    forall|i: int| 0 <= i < pieces.len() ==> #[trigger] pieces[i] is Ok
}

/// The bytes of the pieces, one behind the other.
pub open spec fn all_bytes(pieces: Seq<Piece>) -> Seq<u8>
    decreases pieces.len(),
{
    if pieces.len() == 0 {
        Seq::empty()
    } else {
        match pieces[0] {
            Ok(bytes) => bytes + all_bytes(pieces.drop_first()),
            Err(_) => all_bytes(pieces.drop_first()),
        }
    }
}

/// Nothing more can be read out of what a reading left over.
pub proof fn rest_is_read_out(bytes: Seq<u8>)
    ensures
        reading(bytes).end is None ==> reading(reading(bytes).rest) == (Reading {
            notes: Seq::empty(),
            rest: reading(bytes).rest,
            end: None,
        }),
    decreases bytes.len(),
{
    match first_document(bytes) {
        Some((json, n)) => if 0 < n <= bytes.len() && end_in(json) is None {
            rest_is_read_out(bytes.skip(n as int));
        },
        None => {},
    }
}

/// The documents that stand one behind the other.
pub open spec fn documents(bytes: Seq<u8>) -> Seq<JsonView>
    decreases bytes.len(),
{
    match first_document(bytes) {
        Some((json, n)) => if 0 < n <= bytes.len() {
            seq![json] + documents(bytes.skip(n as int))
        } else {
            Seq::empty()
        },
        None => Seq::empty(),
    }
}

/// Whether `k` is the place of the first document that ends the stream, or behind all of them where
/// none does.
pub open spec fn ends_at(docs: Seq<JsonView>, k: int) -> bool {
    &&& 0 <= k <= docs.len()
    &&& forall|i: int| 0 <= i < k ==> end_in(#[trigger] docs[i]) is None
    &&& k < docs.len() ==> end_in(docs[k]) is Some
}

/// The documents that have a method, in their order.
pub open spec fn with_method(docs: Seq<JsonView>) -> Seq<JsonView> {
    docs.filter(|json: JsonView| has_member(json, "method"@))
}

/// The first document that ends the stream decides how it ends, and every document before it that has
/// a method is a notification.
pub proof fn documents_decide(bytes: Seq<u8>, k: int)
    requires
        ends_at(documents(bytes), k),
    ensures
        reading(bytes).notes == with_method(documents(bytes).take(k)),
        reading(bytes).end == (if k < documents(bytes).len() {
            end_in(documents(bytes)[k])
        } else {
            None
        }),
    decreases bytes.len(),
{
    reveal(Seq::filter);
    let docs = documents(bytes);
    let method = |json: JsonView| has_member(json, "method"@);
    assert(docs.take(0).filter(method) =~= Seq::empty());
    match first_document(bytes) {
        Some((json, n)) => if 0 < n <= bytes.len() {
            let later = bytes.skip(n as int);
            assert(docs[0] == json);
            if k > 0 {
                assert(documents(later) =~= docs.skip(1));
                assert forall|i: int| 0 <= i < k - 1 implies end_in(#[trigger] documents(later)[i]) is None by {
                    assert(documents(later)[i] == docs[i + 1]);
                }
                documents_decide(later, k - 1);
                assert(docs.take(k) =~= seq![json] + documents(later).take(k - 1));
                Seq::filter_distributes_over_add(seq![json], documents(later).take(k - 1), method);
                assert(seq![json].drop_last() =~= Seq::empty());
                assert(Seq::<JsonView>::empty().filter(method) =~= Seq::empty());
                assert(seq![json].filter(method) =~= note_in(json));
            }
        },
        None => {},
    }
}

/// Whether `k` is the place of the first document that has an identifier, of whatever kind, together
/// with a result or an error; or behind all of them where there is none.
pub open spec fn is_first_response(docs: Seq<JsonView>, k: int) -> bool {
    &&& 0 <= k <= docs.len()
    &&& forall|i: int|
        0 <= i < k ==> !(has_member(#[trigger] docs[i], "id"@) && (has_member(docs[i], "result"@) || has_member(
            docs[i],
            "error"@,
        )))
    &&& k < docs.len() ==> has_member(docs[k], "id"@) && (has_member(docs[k], "result"@) || has_member(
        docs[k],
        "error"@,
    ))
}

/// Every document with an identifier and a result answers, and every one with an identifier and an
/// error alone fails, whatever the identifier is: a text, a number or null. Nothing else ends a
/// stream. What has a method and comes before that is a notification, and nothing else is.
pub proof fn responses_end_a_stream(bytes: Seq<u8>, k: int)
    requires
        is_first_response(documents(bytes), k),
    ensures
        ({
            let docs = documents(bytes);
            let read = reading(bytes);
            &&& k == docs.len() ==> read.end is None
            &&& k < docs.len() && has_member(docs[k], "result"@) ==> read.end == Some(EndView::Success(docs[k]))
            &&& k < docs.len() && !has_member(docs[k], "result"@) ==> read.end == Some(
                EndView::Failure(compact(member(docs[k], "error"@)->0)),
            )
            &&& read.notes == docs.take(k).filter(|json: JsonView| has_member(json, "method"@))
        }),
{
    documents_decide(bytes, k);
}

/// Notifications before notifications, and none before any.
pub proof fn lemma_behind_behind(a: Seq<JsonView>, b: Seq<JsonView>, r: Reading)
    ensures
        behind(a, behind(b, r)) == behind(a + b, r),
        behind(Seq::empty(), r) == r,
{
    assert(a + (b + r.notes) =~= a + b + r.notes);
    assert(Seq::<JsonView>::empty() + r.notes =~= r.notes);
}

/// What was read out of bytes.
pub struct FrameScan {
    pub notes: Vec<ServerEvent>,
    /// How many bytes the documents used.
    pub consumed: usize,
    pub end: Option<FrameEnd>,
}

/// How a stream ended.
pub enum FrameEnd {
    Success(Json),
    Failure(String),
}

impl FrameEnd {
    /// What the end says.
    pub open spec fn said(self) -> EndView {
        match self {
            FrameEnd::Success(json) => EndView::Success(json@),
            FrameEnd::Failure(text) => EndView::Failure(text@),
        }
    }
}

/// The notifications as events.
pub open spec fn notifications(notes: Seq<JsonView>) -> Seq<EventView> {
    Seq::new(notes.len(), |i: int| EventView::Notification(notes[i]))
}

/// A document at the beginning of bytes that all close themselves does so too, though it was found
/// before all of the bytes had come.
proof fn lemma_found_closes(here: Seq<u8>, more: Seq<u8>)
    requires
        all_close(here + more),
        first_document(here) is Some,
        here.len() > 0,
        !closes_itself((first_document(here)->0).0) ==> (first_document(here + more) is Some ==> !closes_itself(
            (first_document(here + more)->0).0,
        )),
    ensures
        closes_itself((first_document(here)->0).0),
{
    assert((here + more).take(here.len() as int) =~= here);
}

/// Reads the documents out of bytes.
pub fn scan_frames(bytes: &Vec<u8>) -> (r: FrameScan)
    ensures
        event_views(r.notes@) == notifications(reading(bytes@).notes),
        match r.end {
            Some(end) => reading(bytes@).end == Some(end.said()),
            None => reading(bytes@).end is None,
        },
        r.consumed <= bytes@.len(),
        r.end is None ==> bytes@.skip(r.consumed as int) == reading(bytes@).rest,
        r.end is None ==> first_document(reading(bytes@).rest) is None,
        forall|more: Seq<u8>| #[trigger]
            all_close(bytes@ + more) ==> {
                &&& reading(bytes@ + more) == continued(reading(bytes@), more)
                &&& r.end is None ==> all_close(reading(bytes@).rest + more)
            },
{
    let mut notes: Vec<ServerEvent> = Vec::new();
    let mut at: usize = 0;
    let ghost mut seen: Seq<JsonView> = Seq::empty();
    proof {
        assert(bytes@.skip(0) =~= bytes@);
        lemma_behind_behind(Seq::empty(), Seq::empty(), reading(bytes@));
        assert(event_views(notes@) =~= notifications(seen));
        assert forall|more: Seq<u8>| #[trigger] all_close(bytes@ + more) implies reading(bytes@ + more) == behind(
            seen,
            reading(bytes@.skip(0) + more),
        ) by {
            lemma_behind_behind(Seq::empty(), Seq::empty(), reading(bytes@ + more));
        }
    }
    loop
        invariant
            at <= bytes@.len(),
            event_views(notes@) == notifications(seen),
            reading(bytes@) == behind(seen, reading(bytes@.skip(at as int))),
            forall|more: Seq<u8>| #[trigger]
                all_close(bytes@ + more) ==> {
                    &&& reading(bytes@ + more) == behind(seen, reading(bytes@.skip(at as int) + more))
                    &&& all_close(bytes@.skip(at as int) + more)
                },
        decreases bytes@.len() - at,
    {
        let tail = vstd::slice::slice_subrange(bytes.as_slice(), at, bytes.len());
        let ghost here = bytes@.skip(at as int);
        assert(tail@ =~= here);
        match Json::parse_frame(tail) {
            Some(frame) => {
                let ghost json = frame.json@;
                let ghost n = frame.consumed as int;
                let ended = if frame.json.has("id") {
                    if frame.json.has("result") {
                        true
                    } else {
                        frame.error.is_some()
                    }
                } else {
                    false
                };
                if ended {
                    proof {
                        assert(end_in(json) is Some);
                        assert(closes_itself(json));
                        assert forall|more: Seq<u8>| #[trigger] all_close(bytes@ + more) implies reading(bytes@ + more)
                            == continued(reading(bytes@), more) by {
                            assert(first_document(here + more) == first_document(here));
                        }
                        assert(seen + Seq::<JsonView>::empty() =~= seen);
                    }
                    let has_result = frame.json.has("result");
                    if has_result {
                        return FrameScan { notes, consumed: at, end: Some(FrameEnd::Success(frame.json)) };
                    }
                    match frame.error {
                        Some(text) => {
                            return FrameScan { notes, consumed: at, end: Some(FrameEnd::Failure(text)) };
                        },
                        None => {},
                    }
                } else {
                    proof {
                        assert(end_in(json) is None);
                        assert(here.skip(n) =~= bytes@.skip(at + n));
                        lemma_behind_behind(seen, note_in(json), reading(here.skip(n)));
                        assert forall|more: Seq<u8>| #[trigger] all_close(bytes@ + more) implies {
                            &&& reading(bytes@ + more) == behind(
                                seen + note_in(json),
                                reading(bytes@.skip(at + n) + more),
                            )
                            &&& all_close(bytes@.skip(at + n) + more)
                        } by {
                            lemma_found_closes(here, more);
                            assert(first_document(here + more) == first_document(here));
                            assert((here + more).skip(n) =~= bytes@.skip(at + n) + more);
                            lemma_behind_behind(seen, note_in(json), reading(bytes@.skip(at + n) + more));
                        }
                    }
                    let is_note = frame.json.has("method");
                    if is_note {
                        let ghost before = notes@;
                        notes.push(ServerEvent::Notification(frame.json));
                        assert(event_views(notes@) =~= notifications(seen + note_in(json))) by {
                            assert(event_views(notes@) =~= event_views(before).push(EventView::Notification(json)));
                        }
                    } else {
                        assert(seen + note_in(json) =~= seen);
                    }
                    proof {
                        seen = seen + note_in(json);
                    }
                    at = at + frame.consumed;
                }
            },
            None => {
                proof {
                    assert(reading(here) == (Reading { notes: Seq::empty(), rest: here, end: None }));
                    assert(seen + Seq::<JsonView>::empty() =~= seen);
                }
                return FrameScan { notes, consumed: at, end: None };
            },
        }
    }
}

} // verus!
