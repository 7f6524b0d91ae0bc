//! What comes back from an HTTP request, as plain values.
use vstd::prelude::*;

use crate::json::{parsed, pretty, Json, JsonView, Printed};
use crate::text::{decode_lossy, lossy_text};

verus! {

/// The answer to an HTTP request.
#[derive(Debug)]
pub struct Answer {
    pub status: u16,
    /// The status with its reason, such as `404 Not Found`.
    pub status_text: String,
    /// The body, or the text of the error that cut it short.
    pub body: Result<Vec<u8>, String>,
}

/// What came of an HTTP request: an answer, or the text of the error.
#[derive(Debug)]
pub enum Fetched {
    Answer(Answer),
    Failed(String),
}

/// Whether a status says that the request succeeded.
pub open spec fn is_success(status: u16) -> bool {
    200 <= status < 300
}

/// The wording of a body that is no JSON document.
pub open spec fn not_json() -> Seq<char> {
    "error decoding response body"@
}

impl Answer {
    /// The document in the body, or the wording of why there is none.
    pub open spec fn document(self) -> Result<JsonView, Seq<char>> {
        match self.body {
            Ok(bytes) => match parsed(bytes@) {
                Ok(json) => Ok(json),
                Err(_) => Err(not_json()),
            },
            Err(e) => Err(e@),
        }
    }

    /// The body as text, empty where it was cut short.
    pub open spec fn text(self) -> Seq<char> {
        match self.body {
            Ok(bytes) => lossy_text(bytes@),
            Err(_) => Seq::empty(),
        }
    }

    /// Whether the request succeeded.
    pub fn succeeded(&self) -> (r: bool)
        ensures
            r == is_success(self.status),
    {
        200 <= self.status && self.status < 300
    }

    /// Reads the body as a JSON document.
    pub fn json(&self) -> (r: Result<Json, String>)
        ensures
            match r {
                Ok(j) => self.document() == Ok::<JsonView, Seq<char>>(j@),
                Err(e) => self.document() == Err::<JsonView, Seq<char>>(e@),
            },
    {
        match &self.body {
            Ok(bytes) => match Json::parse(bytes.as_slice()) {
                Ok(j) => Ok(j),
                Err(_) => Err("error decoding response body".to_owned()),
            },
            Err(e) => Err(e.clone()),
        }
    }

    /// Reads the body as a JSON document, and prints it indented.
    pub fn printed(&self) -> (r: Result<Printed, String>)
        ensures
            match r {
                Ok(p) => self.document() == Ok::<JsonView, Seq<char>>(p.json@) && p.pretty@ == pretty(p.json@),
                Err(e) => self.document() == Err::<JsonView, Seq<char>>(e@),
            },
    {
        match &self.body {
            Ok(bytes) => match Json::parse_printed(bytes.as_slice()) {
                Ok(p) => Ok(p),
                Err(_) => Err("error decoding response body".to_owned()),
            },
            Err(e) => Err(e.clone()),
        }
    }

    /// Reads the body as text.
    pub fn body_text(&self) -> (r: String)
        ensures
            r@ == self.text(),
    {
        match &self.body {
            Ok(bytes) => decode_lossy(bytes.as_slice()),
            Err(_) => String::new(),
        }
    }
}

impl Fetched {
    /// The document of a successful answer.
    pub open spec fn usable(self) -> Option<JsonView> {
        match self {
            Fetched::Answer(a) => if is_success(a.status) {
                match a.document() {
                    Ok(json) => Some(json),
                    Err(_) => None,
                }
            } else {
                None
            },
            Fetched::Failed(_) => None,
        }
    }

    /// The document of a successful answer.
    pub fn usable_json(&self) -> (r: Option<Json>)
        ensures
            crate::json::opt_view(r) == self.usable(),
    {
        match self {
            Fetched::Answer(a) => if a.succeeded() {
                match a.json() {
                    Ok(j) => Some(j),
                    Err(_) => None,
                }
            } else {
                None
            },
            Fetched::Failed(_) => None,
        }
    }
}

/// A document is usable exactly where the status is one of two hundred to two hundred and ninety-nine and
/// the body is a document; and then it is that document.
pub proof fn documents_of_success_are_usable(answer: Answer)
    ensures
        Fetched::Answer(answer).usable() is Some <==> 200 <= answer.status < 300 && answer.body is Ok && parsed(
            answer.body->Ok_0@,
        ) is Ok,
        Fetched::Answer(answer).usable() is Some ==> parsed(answer.body->Ok_0@) == Ok::<JsonView, Seq<char>>(
            Fetched::Answer(answer).usable()->0,
        ),
{
}

} // verus!
