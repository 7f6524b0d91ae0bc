//! JSON documents as plain values, and the four things that `serde_json` does for them: parsing a
//! document, parsing the first document of a byte stream, and printing compactly or indented.
use vstd::prelude::*;

use crate::text::same_text;

verus! {

/// A JSON document. Numbers are kept as the text that they print as; the members of an object
/// stand in the order in which the parser hands them out.
#[derive(Debug, PartialEq)]
pub enum Json {
    Null,
    Bool(bool),
    Number(String),
    Text(String),
    Array(Vec<Json>),
    Object(Vec<(String, Json)>),
}

/// What a JSON document says.
pub enum JsonView {
    Null,
    Bool(bool),
    Number(Seq<char>),
    Text(Seq<char>),
    Array(Seq<JsonView>),
    Object(Seq<(Seq<char>, JsonView)>),
}

impl View for Json {
    type V = JsonView;

    open spec fn view(&self) -> JsonView
        decreases self,
    {
        match self {
            Json::Null => JsonView::Null,
            Json::Bool(b) => JsonView::Bool(*b),
            Json::Number(n) => JsonView::Number(n@),
            Json::Text(s) => JsonView::Text(s@),
            Json::Array(items) => JsonView::Array(
                Seq::new(
                    items@.len(),
                    |i: int|
                        if 0 <= i < items@.len() {
                            items@[i].view()
                        } else {
                            JsonView::Null
                        },
                ),
            ),
            Json::Object(members) => JsonView::Object(
                Seq::new(
                    members@.len(),
                    |i: int|
                        if 0 <= i < members@.len() {
                            (members@[i].0@, members@[i].1.view())
                        } else {
                            (Seq::empty(), JsonView::Null)
                        },
                ),
            ),
        }
    }
}

/// The first member of that name.
pub open spec fn lookup(members: Seq<(Seq<char>, JsonView)>, key: Seq<char>) -> Option<JsonView>
    decreases members.len(),
{
    if members.len() == 0 {
        None
    } else if members[0].0 == key {
        Some(members[0].1)
    } else {
        lookup(members.drop_first(), key)
    }
}

/// The member of an object; any other document has none.
pub open spec fn member(json: JsonView, key: Seq<char>) -> Option<JsonView> {
    match json {
        JsonView::Object(members) => lookup(members, key),
        _ => None,
    }
}

/// Whether the document is an object with that member.
pub open spec fn has_member(json: JsonView, key: Seq<char>) -> bool {
    member(json, key) is Some
}

/// The text of a document that is a string.
pub open spec fn string_of(json: JsonView) -> Option<Seq<char>> {
    match json {
        JsonView::Text(s) => Some(s),
        _ => None,
    }
}

/// The text of a member that is a string.
pub open spec fn member_string(json: JsonView, key: Seq<char>) -> Option<Seq<char>> {
    match member(json, key) {
        Some(m) => string_of(m),
        None => None,
    }
}

/// The string that a member holds; the empty one where it holds none.
pub open spec fn text_member(json: JsonView, key: Seq<char>) -> Seq<char> {
    match member(json, key) {
        Some(JsonView::Text(text)) => text,
        _ => Seq::empty(),
    }
}

/// The items of a document that is an array.
pub open spec fn items_of(json: JsonView) -> Option<Seq<JsonView>> {
    match json {
        JsonView::Array(items) => Some(items),
        _ => None,
    }
}

/// The items of a member that is an array.
pub open spec fn member_items(json: JsonView, key: Seq<char>) -> Option<Seq<JsonView>> {
    match member(json, key) {
        Some(m) => items_of(m),
        None => None,
    }
}

/// Whether the document is written with a character that closes it: an object, an array or a
/// string. Only behind such a document is its end certain before more bytes have come.
pub open spec fn closes_itself(json: JsonView) -> bool {
    json is Object || json is Array || json is Text
}

/// What an optional document says.
pub open spec fn opt_view(json: Option<Json>) -> Option<JsonView> {
    match json {
        Some(j) => Some(j@),
        None => None,
    }
}

// -- serde_json.

/// `serde_json::Value`, the parser's own tree.
#[verifier::external_type_specification]
#[verifier::external_body]
pub struct ExValue(serde_json::Value);

/// What a `serde_json::Value` holds.
pub uninterp spec fn value_view(value: serde_json::Value) -> JsonView;

/// What `serde_json::from_slice` makes of a byte string: the document, or the text of the error.
pub uninterp spec fn parsed(bytes: Seq<u8>) -> Result<JsonView, Seq<char>>;

/// The first document of a byte stream, and the number of bytes up to its end, as
/// `serde_json::StreamDeserializer` finds them; nothing where no document is complete yet.
pub uninterp spec fn first_document(bytes: Seq<u8>) -> Option<(JsonView, nat)>;

/// A document printed by `serde_json::to_string_pretty`.
pub uninterp spec fn pretty(json: JsonView) -> Seq<char>;

/// A document printed by the `Display` of `serde_json::Value`.
pub uninterp spec fn compact(json: JsonView) -> Seq<char>;

/// `serde_json::from_slice` into a `Value`: the parse is a function of the bytes, and so is the
/// text of its error. Bytes that are a document begin with one. What counts as JSON is the parser's
/// affair and is not spelled out.
#[verifier::external_body]
fn parse_value(bytes: &[u8]) -> (r: Result<serde_json::Value, String>)
    ensures
        match r {
            Ok(v) => parsed(bytes@) == Ok::<JsonView, Seq<char>>(value_view(v)),
            Err(e) => parsed(bytes@) == Err::<JsonView, Seq<char>>(e@),
        },
        r is Ok ==> first_document(bytes@) is Some,
{
    serde_json::from_slice(bytes).map_err(|e| e.to_string())
}

/// One step of `serde_json::Deserializer::from_slice(..).into_iter::<Value>()` and its
/// `byte_offset`: the first document with the offset behind it, which is past at least one byte
/// and within the slice; or nothing, where the iterator ends or reports an error. An object, an array
/// or a string ends at its closing character, so what follows it changes nothing. A number or a
/// literal may grow into another, but into none of those: its first character decides.
#[verifier::external_body]
fn parse_first(bytes: &[u8]) -> (r: Option<(serde_json::Value, usize)>)
    ensures
        match r {
            Some((v, n)) => first_document(bytes@) == Some((value_view(v), n as nat)) && 0 < n <= bytes@.len(),
            None => first_document(bytes@) is None,
        },
        r matches Some((v, n)) ==> closes_itself(value_view(v)) ==> forall|more: Seq<u8>| #[trigger]
            first_document(bytes@ + more) == first_document(bytes@),
        r matches Some((v, n)) ==> !closes_itself(value_view(v)) ==> forall|more: Seq<u8>|
            (#[trigger] first_document(bytes@ + more)) is Some ==> !closes_itself(
                (first_document(bytes@ + more)->0).0,
            ),
{
    let mut stream = serde_json::Deserializer::from_slice(bytes).into_iter::<serde_json::Value>();
    match stream.next() {
        Some(Ok(value)) => Some((value, stream.byte_offset())),
        Some(Err(_)) => None,
        None => None,
    }
}

/// Copies a `serde_json::Value` into a [`Json`], variant by variant; a number goes over as the
/// text that its `Display` prints.
#[verifier::external_body]
pub(crate) fn import(value: &serde_json::Value) -> (json: Json)
    ensures
        json@ == value_view(*value),
{
    match value {
        serde_json::Value::Null => Json::Null,
        serde_json::Value::Bool(b) => Json::Bool(*b),
        serde_json::Value::Number(n) => Json::Number(n.to_string()),
        serde_json::Value::String(s) => Json::Text(s.clone()),
        serde_json::Value::Array(items) => Json::Array(items.iter().map(import).collect()),
        serde_json::Value::Object(map) => {
            Json::Object(map.iter().map(|(k, v)| (k.clone(), import(v))).collect())
        },
    }
}

/// `serde_json::to_string_pretty` of a `Value`, which cannot fail: its keys are strings and its
/// numbers are finite.
#[verifier::external_body]
fn pretty_text(value: &serde_json::Value) -> (text: String)
    ensures
        text@ == pretty(value_view(*value)),
{
    serde_json::to_string_pretty(value).unwrap_or_default()
}

/// The `Display` of `serde_json::Value`.
#[verifier::external_body]
fn compact_text(value: &serde_json::Value) -> (text: String)
    ensures
        text@ == compact(value_view(*value)),
{
    value.to_string()
}

/// `serde_json::Value::get` with a string: the member of an object, nothing for other documents.
#[verifier::external_body]
fn value_member<'a>(value: &'a serde_json::Value, key: &str) -> (m: Option<&'a serde_json::Value>)
    ensures
        match m {
            Some(v) => member(value_view(*value), key@) == Some(value_view(*v)),
            None => member(value_view(*value), key@) is None,
        },
{
    value.get(key)
}

// -- Reading documents.

/// A document as it came off the wire, with its indented print.
pub struct Printed {
    pub json: Json,
    pub pretty: String,
}

/// The first document of a stream: the document, the print of its `error` member if it has one,
/// and the number of bytes up to its end.
pub struct Frame {
    pub json: Json,
    pub error: Option<String>,
    pub consumed: usize,
}

/// The print of the `error` member.
pub open spec fn error_print(json: JsonView) -> Option<Seq<char>> {
    match member(json, "error"@) {
        Some(e) => Some(compact(e)),
        None => None,
    }
}

impl Json {
    /// Parses a document.
    pub fn parse(bytes: &[u8]) -> (r: Result<Json, String>)
        ensures
            match r {
                Ok(j) => parsed(bytes@) == Ok::<JsonView, Seq<char>>(j@),
                Err(e) => parsed(bytes@) == Err::<JsonView, Seq<char>>(e@),
            },
            r is Ok ==> first_document(bytes@) is Some,
    {
        match parse_value(bytes) {
            Ok(v) => Ok(import(&v)),
            Err(e) => Err(e),
        }
    }

    /// Parses a document and prints it indented.
    pub fn parse_printed(bytes: &[u8]) -> (r: Result<Printed, String>)
        ensures
            match r {
                Ok(p) => parsed(bytes@) == Ok::<JsonView, Seq<char>>(p.json@) && p.pretty@ == pretty(p.json@),
                Err(e) => parsed(bytes@) == Err::<JsonView, Seq<char>>(e@),
            },
    {
        match parse_value(bytes) {
            Ok(v) => Ok(Printed { json: import(&v), pretty: pretty_text(&v) }),
            Err(e) => Err(e),
        }
    }

    /// Parses the first document of a byte stream.
    pub fn parse_frame(bytes: &[u8]) -> (r: Option<Frame>)
        ensures
            match r {
                Some(f) => first_document(bytes@) == Some((f.json@, f.consumed as nat)) && 0 < f.consumed
                    <= bytes@.len() && crate::text::opt_text(f.error) == error_print(f.json@),
                None => first_document(bytes@) is None,
            },
            r matches Some(f) ==> closes_itself(f.json@) ==> forall|more: Seq<u8>| #[trigger]
                first_document(bytes@ + more) == first_document(bytes@),
            r matches Some(f) ==> !closes_itself(f.json@) ==> forall|more: Seq<u8>|
                (#[trigger] first_document(bytes@ + more)) is Some ==> !closes_itself(
                    (first_document(bytes@ + more)->0).0,
                ),
    {
        match parse_first(bytes) {
            Some((v, n)) => {
                let error = match value_member(&v, "error") {
                    Some(e) => Some(compact_text(e)),
                    None => None,
                };
                Some(Frame { json: import(&v), error, consumed: n })
            },
            None => None,
        }
    }

    /// The member of an object.
    pub fn get(&self, key: &str) -> (m: Option<&Json>)
        ensures
            match m {
                Some(j) => member(self@, key@) == Some(j@),
                None => member(self@, key@) is None,
            },
    {
        match self {
            Json::Object(members) => {
                let ghost all = member_views(members@);
                assert(self@ =~= JsonView::Object(all)) by {
                    assert(self@->Object_0 =~= all);
                }
                assert(all.skip(0) =~= all);
                let mut i: usize = 0;
                while i < members.len()
                    invariant
                        i <= members@.len(),
                        self@ == JsonView::Object(all),
                        all.len() == members@.len(),
                        forall|j: int|
                            0 <= j < all.len() ==> #[trigger] all[j] == (members@[j].0@, members@[j].1@),
                        lookup(all, key@) == lookup(all.skip(i as int), key@),
                    decreases members@.len() - i,
                {
                    assert(all.skip(i as int)[0] == all[i as int]);
                    if same_text(members[i].0.as_str(), key) {
                        return Some(&members[i].1);
                    }
                    assert(all.skip(i as int).drop_first() =~= all.skip(i + 1));
                    i += 1;
                }
                None
            },
            _ => None,
        }
    }

    /// Whether the document is an object with that member.
    pub fn has(&self, key: &str) -> (found: bool)
        ensures
            found == has_member(self@, key@),
    {
        let m = self.get(key);
        m.is_some()
    }

    /// A copy of the document.
    pub fn copy(&self) -> (json: Json)
        ensures
            json@ == self@,
        decreases self,
    {
        match self {
            Json::Null => Json::Null,
            Json::Bool(b) => Json::Bool(*b),
            Json::Number(n) => Json::Number(n.clone()),
            Json::Text(s) => Json::Text(s.clone()),
            Json::Array(items) => {
                let mut copies: Vec<Json> = Vec::new();
                let mut i: usize = 0;
                while i < items.len()
                    invariant
                        i <= items@.len(),
                        views(copies@) == views(items@).take(i as int),
                        *self == Json::Array(*items),
                    decreases items@.len() - i,
                {
                    proof {
                        assert(decreases_to!(*self => self->Array_0));
                        assert(decreases_to!(self->Array_0 => self->Array_0@[i as int]));
                    }
                    let item = items[i].copy();
                    let ghost before = views(copies@);
                    copies.push(item);
                    assert(views(copies@) =~= before.push(items@[i as int]@));
                    assert(views(items@).take(i + 1) =~= views(items@).take(i as int).push(items@[i as int]@));
                    i = i + 1;
                }
                assert(views(items@).take(i as int) =~= views(items@));
                let json = Json::Array(copies);
                proof {
                    lemma_array_view(json);
                    lemma_array_view(*self);
                }
                json
            },
            Json::Object(members) => {
                let mut copies: Vec<(String, Json)> = Vec::new();
                let mut i: usize = 0;
                while i < members.len()
                    invariant
                        i <= members@.len(),
                        member_views(copies@) == member_views(members@).take(i as int),
                        *self == Json::Object(*members),
                    decreases members@.len() - i,
                {
                    proof {
                        assert(decreases_to!(*self => self->Object_0));
                        assert(decreases_to!(self->Object_0 => self->Object_0@[i as int]));
                        assert(decreases_to!(self->Object_0@[i as int] => self->Object_0@[i as int].1));
                    }
                    let item = members[i].1.copy();
                    let ghost before = member_views(copies@);
                    copies.push((members[i].0.clone(), item));
                    assert(member_views(copies@) =~= before.push(member_views(members@)[i as int]));
                    assert(member_views(members@).take(i + 1) =~= member_views(members@).take(i as int).push(
                        member_views(members@)[i as int],
                    ));
                    i = i + 1;
                }
                assert(member_views(members@).take(i as int) =~= member_views(members@));
                let json = Json::Object(copies);
                proof {
                    lemma_object_view(json);
                    lemma_object_view(*self);
                }
                json
            },
        }
    }

    /// The text of a document that is a string.
    pub fn as_str(&self) -> (s: Option<&String>)
        ensures
            match s {
                Some(t) => string_of(self@) == Some(t@),
                None => string_of(self@) is None,
            },
    {
        match self {
            Json::Text(s) => Some(s),
            _ => None,
        }
    }

    /// The text of a member that is a string.
    pub fn get_str(&self, key: &str) -> (s: Option<String>)
        ensures
            crate::text::opt_text(s) == member_string(self@, key@),
    {
        match self.get(key) {
            Some(m) => match m.as_str() {
                Some(t) => Some(t.clone()),
                None => None,
            },
            None => None,
        }
    }

    /// The items of a member that is an array.
    pub fn get_items(&self, key: &str) -> (items: Option<&Vec<Json>>)
        ensures
            match items {
                Some(v) => member_items(self@, key@) == Some(views(v@)),
                None => member_items(self@, key@) is None,
            },
    {
        match self.get(key) {
            Some(Json::Array(v)) => {
                assert(member(self@, key@)->0->Array_0 =~= views(v@));
                Some(v)
            },
            _ => None,
        }
    }
}

/// What a list of documents says.
pub open spec fn views(items: Seq<Json>) -> Seq<JsonView> {
    Seq::new(items.len(), |i: int| items[i]@)
}

/// What a list of members says.
pub open spec fn member_views(members: Seq<(String, Json)>) -> Seq<(Seq<char>, JsonView)> {
    Seq::new(members.len(), |i: int| (members[i].0@, members[i].1@))
}

/// An array says what its items say.
pub proof fn lemma_array_view(json: Json)
    requires
        json is Array,
    ensures
        json@ == JsonView::Array(views(json->Array_0@)),
{
    reveal_with_fuel(<Json as View>::view, 2);
    match json {
        Json::Array(items) => {
            assert(json@->Array_0 =~= views(items@));
        },
        _ => {},
    }
}

/// An object says what its members say.
pub proof fn lemma_object_view(json: Json)
    requires
        json is Object,
    ensures
        json@ == JsonView::Object(member_views(json->Object_0@)),
{
    reveal_with_fuel(<Json as View>::view, 2);
    match json {
        Json::Object(members) => {
            assert(json@->Object_0 =~= member_views(members@));
        },
        _ => {},
    }
}

/// A string document.
pub fn text_json(s: &str) -> (j: Json)
    ensures
        j@ == JsonView::Text(s@),
{
    Json::Text(s.to_owned())
}

/// The first member of a name counts, and the others of that name do not; without one there is none.
pub proof fn the_first_member_counts(
    before: Seq<(Seq<char>, JsonView)>,
    key: Seq<char>,
    value: JsonView,
    after: Seq<(Seq<char>, JsonView)>,
)
    requires
        forall|i: int| 0 <= i < before.len() ==> (#[trigger] before[i]).0 != key,
    ensures
        member(JsonView::Object(before + seq![(key, value)] + after), key) == Some(value),
        member(JsonView::Object(before), key) is None,
    decreases before.len(),
{
    let all = before + seq![(key, value)] + after;
    if before.len() > 0 {
        let fewer = before.drop_first();
        assert forall|i: int| 0 <= i < fewer.len() implies (#[trigger] fewer[i]).0 != key by {
            assert(fewer[i] == before[i + 1]);
        }
        the_first_member_counts(fewer, key, value, after);
        assert(all[0] == before[0]);
        assert(all.drop_first() =~= fewer + seq![(key, value)] + after);
    } else {
        assert(all[0] == (key, value));
    }
}

} // verus!
