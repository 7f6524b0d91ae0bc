//! What the page is told when it asks the connected server for something.
use vstd::prelude::*;

use crate::json::{lemma_object_view, member, member_views, text_json, the_first_member_counts, Json, JsonView};

verus! {

/// A refusal with its reason.
pub open spec fn failure(reason: Seq<char>) -> JsonView {
    JsonView::Object(seq![("error"@, JsonView::Text(reason)), ("ok"@, JsonView::Bool(false))])
}

/// What the server gave, under the name of what was asked for.
pub open spec fn success(name: Seq<char>, found: JsonView) -> JsonView {
    JsonView::Object(seq![("ok"@, JsonView::Bool(true)), (name, found)])
}

/// Refuses.
pub fn fail(reason: &str) -> (j: Json)
    ensures
        j@ == failure(reason@),
{
    let mut members: Vec<(String, Json)> = Vec::new();
    members.push(("error".to_owned(), text_json(reason)));
    members.push(("ok".to_owned(), Json::Bool(false)));
    let ghost all = member_views(members@);
    let j = Json::Object(members);
    proof {
        lemma_object_view(j);
        assert(all =~= failure(reason@)->Object_0);
    }
    j
}

/// Hands out what the server gave.
pub fn succeed(name: &str, found: Json) -> (j: Json)
    ensures
        j@ == success(name@, found@),
{
    let mut members: Vec<(String, Json)> = Vec::new();
    members.push(("ok".to_owned(), Json::Bool(true)));
    members.push((name.to_owned(), found));
    let ghost all = member_views(members@);
    let j = Json::Object(members);
    proof {
        lemma_object_view(j);
        assert(all =~= success(name@, found@)->Object_0);
    }
    j
}

/// What the page is told: that there is no connection, or what the server gave or why it did not.
pub open spec fn told(name: Seq<char>, outcome: Option<Result<Json, String>>) -> JsonView {
    match outcome {
        None => failure("Not connected"@),
        Some(Err(reason)) => failure(reason@),
        Some(Ok(found)) => success(name, found@),
    }
}

fn tell(name: &str, outcome: Option<Result<Json, String>>) -> (j: Json)
    ensures
        j@ == told(name@, outcome),
{
    match outcome {
        None => fail("Not connected"),
        Some(Err(reason)) => fail(reason.as_str()),
        Some(Ok(found)) => succeed(name, found),
    }
}

/// The tools of the server; without an outcome there is no connection.
pub fn api_tools(outcome: Option<Result<Json, String>>) -> (j: Json)
    ensures
        j@ == told("tools"@, outcome),
{
    tell("tools", outcome)
}

/// The resources of the server; without an outcome there is no connection.
pub fn api_resources(outcome: Option<Result<Json, String>>) -> (j: Json)
    ensures
        j@ == told("resources"@, outcome),
{
    tell("resources", outcome)
}

/// The prompts of the server; without an outcome there is no connection.
pub fn api_prompts(outcome: Option<Result<Json, String>>) -> (j: Json)
    ensures
        j@ == told("prompts"@, outcome),
{
    tell("prompts", outcome)
}

/// What a tool gave back, as the content of a result; without an outcome there is no connection.
pub fn api_call(outcome: Option<Result<Json, String>>) -> (j: Json)
    ensures
        j@ == (match outcome {
            None => failure("Not connected"@),
            Some(Err(reason)) => failure(reason@),
            Some(Ok(content)) => success("result"@, JsonView::Object(seq![("content"@, content@)])),
        }),
{
    match outcome {
        Some(Ok(content)) => {
            let mut members: Vec<(String, Json)> = Vec::new();
            members.push(("content".to_owned(), content));
            let ghost all = member_views(members@);
            let result = Json::Object(members);
            proof {
                lemma_object_view(result);
                assert(all =~= seq![("content"@, content@)]);
            }
            succeed("result", result)
        },
        Some(Err(reason)) => fail(reason.as_str()),
        None => fail("Not connected"),
    }
}

proof fn lemma_two_members(first: (Seq<char>, JsonView), second: (Seq<char>, JsonView))
    requires
        first.0 != second.0,
    ensures
        member(JsonView::Object(seq![first, second]), first.0) == Some(first.1),
        member(JsonView::Object(seq![first, second]), second.0) == Some(second.1),
{
    let members = seq![first, second];
    let none = Seq::<(Seq<char>, JsonView)>::empty();
    the_first_member_counts(none, first.0, first.1, members.skip(1));
    assert(members =~= none + seq![(first.0, first.1)] + members.skip(1));
    the_first_member_counts(members.take(1), second.0, second.1, none);
    assert(members =~= members.take(1) + seq![(second.0, second.1)] + none);
}

/// The page is told that all is well, with what the server gave under its name, exactly where the server
/// gave something; otherwise that it is not, with the reason.
pub proof fn the_page_is_told_what_came(name: Seq<char>, outcome: Option<Result<Json, String>>)
    requires
        name != "ok"@,
    ensures
        outcome matches Some(Ok(found)) ==> member(told(name, outcome), "ok"@) == Some(JsonView::Bool(true)) && member(
            told(name, outcome),
            name,
        ) == Some(found@),
        outcome matches Some(Err(reason)) ==> member(told(name, outcome), "ok"@) == Some(JsonView::Bool(false))
            && member(told(name, outcome), "error"@) == Some(JsonView::Text(reason@)),
        outcome is None ==> member(told(name, outcome), "ok"@) == Some(JsonView::Bool(false)) && member(
            told(name, outcome),
            "error"@,
        ) == Some(JsonView::Text("Not connected"@)),
{
    reveal_strlit("ok");
    reveal_strlit("error");
    assert("ok"@.len() != "error"@.len());
    match outcome {
        Some(Ok(found)) => {
            lemma_two_members(("ok"@, JsonView::Bool(true)), (name, found@));
        },
        Some(Err(reason)) => {
            lemma_two_members(("error"@, JsonView::Text(reason@)), ("ok"@, JsonView::Bool(false)));
        },
        None => {
            lemma_two_members(("error"@, JsonView::Text("Not connected"@)), ("ok"@, JsonView::Bool(false)));
        },
    }
}

} // verus!
