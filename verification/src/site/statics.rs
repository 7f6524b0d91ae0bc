//! Static files: which request path means which file, and when a browser's copy is still good.
use vstd::prelude::*;
use vstd::string::*;
use vstd::utf8::*;

use crate::encoding::{percent_decode, percent_decoded, percent_decoded_text};
use crate::site::hosts::{
    asked_host, asked_path, host_rule, https_location, https_url, plain_name, plain_target, request_host, rule_for,
    within, HostRule, RequestParts, RuleView, CURRENT_HOST, ZOOM_URL,
};
use crate::site::pages::{current_landing_html, landing_page};
use crate::text::{
    a_separator_ends_a_piece, after_prefix, ascii_lower, contains_part, first_index, has_part, has_prefix, hexadecimal,
    hex_text, joined, lemma_numeral_digits, lemma_numeral_injective, occurs_at, opt_text, same_text,
    split_char, split_on, texts, trim, trimmed, trimmed_end, trimmed_texts_stay,
};
use crate::transport::{header_text, read_header};

verus! {

// -- The pad.

/// The file of the pad that a path means, and its content type.
pub open spec fn pad_file(path: Seq<char>) -> Option<(Seq<char>, Seq<char>)> {
    if path == "/pad.js"@ || path == "/pad/pad.js"@ {
        Some(("pad.js"@, "text/javascript; charset=utf-8"@))
    } else if path == "/pad"@ || "/pad/"@.is_prefix_of(path) {
        Some(("pad.html"@, "text/html; charset=utf-8"@))
    } else {
        None
    }
}

/// The file of the pad that a path means, and its content type: the script by either of its
/// relative names, and the shell for every other path below the pad, which routes on the client.
pub fn pad_asset(path: &str) -> (r: Option<(&'static str, &'static str)>)
    ensures
        match r {
            Some((file, content_type)) => pad_file(path@) == Some((file@, content_type@)),
            None => pad_file(path@) is None,
        },
{
    if same_text(path, "/pad.js") || same_text(path, "/pad/pad.js") {
        Some(("pad.js", "text/javascript; charset=utf-8"))
    } else if same_text(path, "/pad") || has_prefix(path, "/pad/") {
        Some(("pad.html", "text/html; charset=utf-8"))
    } else {
        None
    }
}

/// The pad has two files, and each comes with its own content type.
pub proof fn the_pad_has_two_files(path: Seq<char>)
    ensures
        pad_file(path) matches Some(found) ==> found == ("pad.html"@, "text/html; charset=utf-8"@) || found == (
            "pad.js"@,
            "text/javascript; charset=utf-8"@,
        ),
{
}

// -- Static files.

/// Where certificate authorities look for tokens, below the static directory.
pub const ACME_CHALLENGE_DIR: &'static str = ".well-known/acme-challenge";

/// What of a request path names a file below the static directory. Tokens for certificate
/// authorities keep their path; what else is well known stands at the top.
pub open spec fn relative_path(path: Seq<char>) -> Option<Seq<char>> {
    if "/.well-known/acme-challenge/"@.is_prefix_of(path) {
        Some(path.skip(1))
    } else if "/static/"@.is_prefix_of(path) {
        Some(path.skip("/static/"@.len() as int))
    } else if "/.well-known/"@.is_prefix_of(path) {
        Some(path.skip("/.well-known/"@.len() as int))
    } else if path == "/static"@ || path == "/.well-known"@ {
        Some(Seq::empty())
    } else {
        None
    }
}

fn rest_after(path: &str, prefix: &str) -> (r: Option<String>)
    ensures
        match r {
            Some(rest) => prefix@.is_prefix_of(path@) && rest@ == path@.skip(prefix@.len() as int),
            None => !prefix@.is_prefix_of(path@),
        },
{
    match after_prefix(path, prefix) {
        Some(rest) => {
            assert(prefix@.is_prefix_of(path@));
            assert(path@.skip(prefix@.len() as int) =~= rest@);
            Some(rest)
        },
        None => None,
    }
}

/// What of a request path names a file below the static directory.
pub fn static_relative_path(path: &str) -> (r: Option<String>)
    ensures
        opt_text(r) == relative_path(path@),
{
    if has_prefix(path, "/.well-known/acme-challenge/") {
        proof {
            reveal_strlit("/.well-known/acme-challenge/");
            reveal_strlit("/");
            assert(path@.subrange(0, 28) =~= "/.well-known/acme-challenge/"@);
            assert(path@[0] == path@.subrange(0, 28)[0]);
            assert("/"@.is_prefix_of(path@));
        }
        return rest_after(path, "/");
    }
    match rest_after(path, "/static/") {
        Some(rest) => {
            return Some(rest);
        },
        None => {},
    }
    match rest_after(path, "/.well-known/") {
        Some(rest) => {
            return Some(rest);
        },
        None => {},
    }
    if same_text(path, "/static") || same_text(path, "/.well-known") {
        let none = String::new();
        assert(none@ =~= Seq::empty());
        Some(none)
    } else {
        None
    }
}

/// Whether a piece of a path between slashes says nothing: nothing stands there, or a dot that is not
/// at the front of the path.
pub open spec fn says_nothing(piece: Seq<char>, at_front: bool) -> bool {
    piece.len() == 0 || (piece == "."@ && !at_front)
}

/// Whether a piece of a path leads elsewhere than to a name: a dot at the front, or two dots.
pub open spec fn leads_elsewhere(piece: Seq<char>, at_front: bool) -> bool {
    piece == ".."@ || (piece == "."@ && at_front)
}

/// The names in the pieces of a path, where every piece is a name or says nothing.
pub open spec fn names_in(pieces: Seq<Seq<char>>) -> Option<Seq<Seq<char>>>
    decreases pieces.len(),
{
    if pieces.len() == 0 {
        Some(Seq::empty())
    } else {
        let at_front = pieces.len() == 1;
        match names_in(pieces.drop_last()) {
            None => None,
            Some(names) => if leads_elsewhere(pieces.last(), at_front) {
                None
            } else if says_nothing(pieces.last(), at_front) {
                Some(names)
            } else {
                Some(names.push(pieces.last()))
            },
        }
    }
}

/// The names of the directories and the file in a relative path that stays below where it starts; no
/// names for any other path.
pub open spec fn path_names(path: Seq<char>) -> Option<Seq<Seq<char>>> {
    if path.len() > 0 && path[0] == '/' {
        None
    } else {
        names_in(split_on(path, '/'))
    }
}

/// What optional names say.
pub open spec fn opt_names(names: Option<Vec<String>>) -> Option<Seq<Seq<char>>> {
    match names {
        Some(v) => Some(texts(v@)),
        None => None,
    }
}

/// Reads the names in a relative path.
pub fn read_path(path: &str) -> (r: Option<Vec<String>>)
    ensures
        opt_names(r) == path_names(path@),
{
    if has_prefix(path, "/") {
        proof {
            reveal_strlit("/");
            assert(path@.subrange(0, 1)[0] == path@[0]);
        }
        return None;
    }
    proof {
        reveal_strlit("/");
        if path@.len() > 0 && path@[0] == '/' {
            assert("/"@.is_prefix_of(path@));
        }
    }
    let pieces = split_char(path, '/');
    let ghost all = texts(pieces@);
    let mut names: Vec<String> = Vec::new();
    let mut i: usize = 0;
    assert(all.take(0) =~= Seq::empty());
    assert(texts(names@) =~= Seq::empty());
    while i < pieces.len()
        invariant
            i <= pieces@.len(),
            all == texts(pieces@),
            all == split_on(path@, '/'),
            !(path@.len() > 0 && path@[0] == '/'),
            names_in(all.take(i as int)) == Some(texts(names@)),
        decreases pieces@.len() - i,
    {
        let piece = pieces[i].as_str();
        let ghost so_far = all.take(i + 1);
        proof {
            assert(so_far.drop_last() =~= all.take(i as int));
            assert(so_far.last() == piece@);
        }
        let dot = same_text(piece, ".");
        if same_text(piece, "..") || (dot && i == 0) {
            proof {
                lemma_no_names_stay_none(all, i + 1);
                assert(all.take(all.len() as int) =~= all);
            }
            return None;
        }
        let empty = piece.unicode_len() == 0;
        if !(empty || dot) {
            let ghost before = texts(names@);
            names.push(pieces[i].clone());
            assert(texts(names@) =~= before.push(piece@));
        }
        i = i + 1;
    }
    assert(all.take(i as int) =~= all);
    Some(names)
}

/// A piece that leads elsewhere spoils the whole path.
proof fn lemma_no_names_stay_none(pieces: Seq<Seq<char>>, n: int)
    requires
        0 <= n <= pieces.len(),
        names_in(pieces.take(n)) is None,
    ensures
        names_in(pieces.take(pieces.len() as int)) is None,
    decreases pieces.len() - n,
{
    if n < pieces.len() {
        assert(pieces.take(n + 1).drop_last() =~= pieces.take(n));
        lemma_no_names_stay_none(pieces, n + 1);
    }
}

/// The names of the file that a request path means, below the static directory: none where the path
/// does not decode, holds a backslash, or leads anywhere else.
pub open spec fn static_names(path: Seq<char>) -> Option<Seq<Seq<char>>> {
    match relative_path(path) {
        Some(relative) => match percent_decoded_text(relative) {
            Some(decoded) => if contains_part(decoded, "\\"@) {
                None
            } else {
                path_names(decoded)
            },
            None => None,
        },
        None => None,
    }
}

/// The names of the file that a request path means, below the static directory.
pub fn static_file(path: &str) -> (r: Option<Vec<String>>)
    ensures
        opt_names(r) == static_names(path@),
{
    let relative = match static_relative_path(path) {
        Some(r) => r,
        None => {
            return None;
        },
    };
    let decoded = match percent_decode(relative.as_str()) {
        Some(d) => d,
        None => {
            return None;
        },
    };
    if has_part(decoded.as_str(), "\\") {
        return None;
    }
    read_path(decoded.as_str())
}

/// No static file lies above the static directory: no name is empty, a dot or two dots, and none
/// holds a slash.
pub proof fn static_files_stay_below(path: Seq<char>)
    ensures
        static_names(path) matches Some(names) ==> forall|i: int|
            0 <= i < names.len() ==> {
                &&& (#[trigger] names[i]).len() > 0
                &&& names[i] != "."@
                &&& names[i] != ".."@
                &&& !names[i].contains('/')
            },
{
    match static_names(path) {
        Some(names) => {
            let decoded = percent_decoded_text(relative_path(path)->0)->0;
            lemma_pieces_hold_no_slash(decoded);
            lemma_names_are_names(split_on(decoded, '/'));
        },
        None => {},
    }
}

proof fn lemma_pieces_hold_no_slash(text: Seq<char>)
    ensures
        forall|i: int| 0 <= i < split_on(text, '/').len() ==> !(#[trigger] split_on(text, '/')[i]).contains('/'),
    decreases text.len(),
{
    let at = first_index(text, '/', 0);
    lemma_first_slash(text, 0);
    if at < text.len() {
        let rest = split_on(text.skip(at + 1), '/');
        lemma_pieces_hold_no_slash(text.skip(at + 1));
        assert(split_on(text, '/') =~= seq![text.take(at)] + rest);
        assert forall|i: int| 0 <= i < split_on(text, '/').len() implies !(#[trigger] split_on(
            text,
            '/',
        )[i]).contains('/') by {
            if i > 0 {
                assert(split_on(text, '/')[i] == rest[i - 1]);
            }
        }
    } else {
        assert(split_on(text, '/') =~= seq![text]);
    }
}

proof fn lemma_first_slash(text: Seq<char>, from: int)
    requires
        0 <= from <= text.len(),
    ensures
        from <= first_index(text, '/', from) <= text.len(),
        forall|j: int| from <= j < first_index(text, '/', from) ==> text[j] != '/',
    decreases text.len() - from,
{
    if from < text.len() && text[from] != '/' {
        lemma_first_slash(text, from + 1);
    }
}

proof fn lemma_names_are_names(pieces: Seq<Seq<char>>)
    requires
        forall|i: int| 0 <= i < pieces.len() ==> !(#[trigger] pieces[i]).contains('/'),
    ensures
        names_in(pieces) matches Some(names) ==> forall|i: int|
            0 <= i < names.len() ==> {
                &&& (#[trigger] names[i]).len() > 0
                &&& names[i] != "."@
                &&& names[i] != ".."@
                &&& !names[i].contains('/')
            },
    decreases pieces.len(),
{
    if pieces.len() > 0 {
        assert forall|i: int| 0 <= i < pieces.drop_last().len() implies !(#[trigger] pieces.drop_last()[i]).contains(
            '/',
        ) by {
            assert(pieces.drop_last()[i] == pieces[i]);
        }
        lemma_names_are_names(pieces.drop_last());
        assert(!pieces[pieces.len() - 1].contains('/'));
    }
}

// -- Entity tags.

/// The tag of a file of that length, changed at that time.
pub open spec fn etag_text(length: u64, secs: u64, nanos: u32) -> Seq<char> {
    "W/\""@ + hexadecimal(length as nat) + "-"@ + hexadecimal(secs as nat) + "-"@ + hexadecimal(nanos as nat) + "\""@
}

/// The tag of a file of that length, changed at that time.
pub fn file_etag(length: u64, secs: u64, nanos: u32) -> (r: String)
    ensures
        r@ == etag_text(length, secs, nanos),
{
    let mut r = joined("W/\"", hex_text(length).as_str());
    r.append("-");
    r.append(hex_text(secs).as_str());
    r.append("-");
    r.append(hex_text(nanos as u64).as_str());
    r.append("\"");
    r
}

/// What stands before the first dash, and what stands behind it.
proof fn lemma_cut_at_dash(a: Seq<char>, x: Seq<char>, b: Seq<char>, y: Seq<char>)
    requires
        !a.contains('-'),
        !b.contains('-'),
        a + "-"@ + x == b + "-"@ + y,
    ensures
        a == b,
        x == y,
{
    reveal_strlit("-");
    let whole = a + "-"@ + x;
    if a.len() < b.len() {
        assert(whole[a.len() as int] == '-');
        assert(whole[a.len() as int] == b[a.len() as int]);
        assert(b.contains(b[a.len() as int]));
    } else if b.len() < a.len() {
        assert(whole[b.len() as int] == '-');
        assert(whole[b.len() as int] == a[b.len() as int]);
        assert(a.contains(a[b.len() as int]));
    }
    assert(a =~= whole.take(a.len() as int));
    assert(b =~= whole.take(a.len() as int));
    assert(x =~= whole.skip(a.len() as int + 1));
    assert(y =~= whole.skip(a.len() as int + 1));
}

proof fn lemma_no_dash(n: nat)
    ensures
        !hexadecimal(n).contains('-'),
{
    lemma_numeral_digits(n, 16);
}

/// Files that differ in length or in the time of their last change have different tags.
pub proof fn etags_tell_files_apart(a: (u64, u64, u32), b: (u64, u64, u32))
    ensures
        etag_text(a.0, a.1, a.2) == etag_text(b.0, b.1, b.2) ==> a == b,
{
    reveal_strlit("W/\"");
    reveal_strlit("\"");
    reveal_strlit("-");
    let s = etag_text(a.0, a.1, a.2);
    if s == etag_text(b.0, b.1, b.2) {
        let (a0, a1, a2) = (hexadecimal(a.0 as nat), hexadecimal(a.1 as nat), hexadecimal(a.2 as nat));
        let (b0, b1, b2) = (hexadecimal(b.0 as nat), hexadecimal(b.1 as nat), hexadecimal(b.2 as nat));
        let inner = s.subrange(3, s.len() - 1);
        assert(inner =~= a0 + "-"@ + (a1 + "-"@ + a2));
        assert(inner =~= b0 + "-"@ + (b1 + "-"@ + b2));
        lemma_no_dash(a.0 as nat);
        lemma_no_dash(a.1 as nat);
        lemma_no_dash(b.0 as nat);
        lemma_no_dash(b.1 as nat);
        lemma_cut_at_dash(a0, a1 + "-"@ + a2, b0, b1 + "-"@ + b2);
        lemma_cut_at_dash(a1, a2, b1, b2);
        lemma_numeral_injective(a.0 as nat, b.0 as nat, 16);
        lemma_numeral_injective(a.1 as nat, b.1 as nat, 16);
        lemma_numeral_injective(a.2 as nat, b.2 as nat, 16);
    }
}

/// A browser that sends a file's tag back need not be sent the file: the condition takes the tag.
pub proof fn a_condition_takes_its_own_tag(value: Seq<u8>, length: u64, secs: u64, nanos: u32)
    requires
        header_text(value) == Some(etag_text(length, secs, nanos)),
    ensures
        condition_takes(Some(value), etag_text(length, secs, nanos)),
{
    let s = etag_text(length, secs, nanos);
    lemma_tag_is_one_entry(length, secs, nanos);
    assert(split_on(s, ',')[0] == s);
    assert(takes(split_on(s, ',')[0], s));
    assert(some_entry_takes(split_on(s, ','), s));
}

proof fn lemma_no_comma(text: Seq<char>, from: int)
    requires
        0 <= from <= text.len(),
        forall|i: int| 0 <= i < text.len() ==> text[i] != ',',
    ensures
        first_index(text, ',', from) == text.len(),
    decreases text.len() - from,
{
    if from < text.len() {
        lemma_no_comma(text, from + 1);
    }
}

/// A tag without the mark that it is weak.
pub open spec fn strong(tag: Seq<char>) -> Seq<char> {
    if "W/"@.is_prefix_of(tag) {
        tag.skip(2)
    } else {
        tag
    }
}

fn strip_weak(tag: &str) -> (r: String)
    ensures
        r@ == strong(tag@),
{
    proof {
        reveal_strlit("W/");
    }
    match rest_after(tag, "W/") {
        Some(rest) => rest,
        None => tag.to_owned(),
    }
}

/// Whether one entry of a condition takes a tag.
pub open spec fn takes(entry: Seq<char>, tag: Seq<char>) -> bool {
    trimmed(entry) == "*"@ || strong(trimmed(entry)) == strong(tag)
}

/// Whether a condition takes a tag: by one of the entries between its commas.
pub open spec fn condition_takes(condition: Option<Seq<u8>>, tag: Seq<char>) -> bool {
    match condition {
        Some(bytes) => match header_text(bytes) {
            Some(text) => some_entry_takes(split_on(text, ','), tag),
            None => false,
        },
        None => false,
    }
}

/// Whether one of the entries takes a tag.
pub open spec fn some_entry_takes(entries: Seq<Seq<char>>, tag: Seq<char>) -> bool {
    exists|i: int| 0 <= i < entries.len() && takes(#[trigger] entries[i], tag)
}

/// What an optional header value is.
pub open spec fn opt_bytes(value: Option<Vec<u8>>) -> Option<Seq<u8>> {
    match value {
        Some(v) => Some(v@),
        None => None,
    }
}

/// Whether a condition takes a tag.
pub fn if_none_match_matches(condition: &Option<Vec<u8>>, etag: &str) -> (r: bool)
    ensures
        r == condition_takes(opt_bytes(*condition), etag@),
{
    let text = match condition {
        Some(bytes) => match read_header(bytes) {
            Some(t) => t,
            None => {
                return false;
            },
        },
        None => {
            return false;
        },
    };
    let tag = strip_weak(etag);
    let entries = split_char(text.as_str(), ',');
    let ghost all = split_on(text@, ',');
    let mut i: usize = 0;
    while i < entries.len()
        invariant
            i <= entries@.len(),
            texts(entries@) == all,
            all == split_on(text@, ','),
            opt_bytes(*condition) matches Some(bytes) && header_text(bytes) == Some(text@),
            tag@ == strong(etag@),
            forall|j: int| 0 <= j < i ==> !takes(#[trigger] all[j], etag@),
        decreases entries@.len() - i,
    {
        assert(all[i as int] == entries@[i as int]@);
        let entry = trim(entries[i].as_str());
        let bare = strip_weak(entry.as_str());
        if same_text(entry.as_str(), "*") || same_text(bare.as_str(), tag.as_str()) {
            assert(some_entry_takes(all, etag@));
            return true;
        }
        i = i + 1;
    }
    false
}

/// Whether a request can be answered with the browser's own copy.
pub open spec fn revalidated(request: RequestParts, etag: Option<Seq<char>>) -> bool {
    &&& request.method@ == "GET"@ || request.method@ == "HEAD"@
    &&& etag matches Some(tag) && condition_takes(opt_bytes(request.if_none_match), tag)
}

/// Whether a request can be answered with the browser's own copy.
pub fn can_revalidate(request: &RequestParts, etag: &Option<String>) -> (r: bool)
    ensures
        r == revalidated(*request, opt_text(*etag)),
{
    let reads = same_text(request.method.as_str(), "GET") || same_text(request.method.as_str(), "HEAD");
    match etag {
        Some(tag) => reads && if_none_match_matches(&request.if_none_match, tag.as_str()),
        None => false,
    }
}

// -- What a request gets.

/// What a request gets, before anything is read.
#[derive(Debug)]
pub enum Plan {
    /// A permanent redirect.
    Redirect(String),
    /// A page of HTML, with status 200.
    Page(String),
    /// A file of the pad with its content type.
    Pad(&'static str, &'static str),
    /// A static file, by its names where they are known.
    Static(Option<Vec<String>>),
    /// Whatever the routes say.
    Route,
}

/// What a plan says.
pub enum PlanView {
    Redirect(Seq<char>),
    Page(Seq<char>),
    Pad(Seq<char>, Seq<char>),
    Static(Option<Seq<Seq<char>>>),
    Route,
}

impl View for Plan {
    type V = PlanView;

    open spec fn view(&self) -> PlanView {
        match self {
            Plan::Redirect(url) => PlanView::Redirect(url@),
            Plan::Page(html) => PlanView::Page(html@),
            Plan::Pad(file, content_type) => PlanView::Pad(file@, content_type@),
            Plan::Static(names) => PlanView::Static(opt_names(*names)),
            Plan::Route => PlanView::Route,
        }
    }
}

/// What a request gets by its path alone.
pub open spec fn path_plan(path: Seq<char>) -> PlanView {
    match pad_file(path) {
        Some((file, content_type)) => PlanView::Pad(file, content_type),
        None => if relative_path(path) is Some {
            PlanView::Static(static_names(path))
        } else {
            PlanView::Route
        },
    }
}

/// What a request gets. The host decides first: one that is redirected goes to its target, another
/// spelling of a host that is served goes to that host, and that host gets its landing page, but for
/// the tokens of certificate authorities.
pub open spec fn request_plan(request: RequestParts) -> PlanView {
    match asked_host(request) {
        Some((hostname, port)) => match rule_for(hostname) {
            Some(RuleView::Redirect(target)) => PlanView::Redirect(target),
            Some(RuleView::Serve(canonical)) => if hostname != canonical {
                PlanView::Redirect(https_url(canonical, port, asked_path(request)))
            } else if !"/.well-known/acme-challenge/"@.is_prefix_of(request.path@) {
                PlanView::Page(landing_page())
            } else {
                path_plan(request.path@)
            },
            None => path_plan(request.path@),
        },
        None => path_plan(request.path@),
    }
}

fn plan_path(path: &str) -> (r: Plan)
    ensures
        r@ == path_plan(path@),
{
    match pad_asset(path) {
        Some((file, content_type)) => {
            return Plan::Pad(file, content_type);
        },
        None => {},
    }
    match static_relative_path(path) {
        Some(_) => Plan::Static(static_file(path)),
        None => Plan::Route,
    }
}

/// What a request gets.
pub fn host_redirects(request: &RequestParts) -> (r: Plan)
    ensures
        r@ == request_plan(*request),
{
    match request_host(request) {
        Some(h) => match host_rule(h.host.as_str()) {
            Some(HostRule::Redirect(target)) => {
                return Plan::Redirect(target.to_owned());
            },
            Some(HostRule::Serve(canonical)) => {
                if !same_text(h.host.as_str(), canonical) {
                    return Plan::Redirect(https_location(canonical, h.port, request));
                }
                if !has_prefix(request.path.as_str(), "/.well-known/acme-challenge/") {
                    return Plan::Page(current_landing_html());
                }
            },
            None => {},
        },
        None => {},
    }
    plan_path(request.path.as_str())
}

/// The answer to a request for a file.
#[derive(Debug, Clone, Copy, PartialEq, Eq, Structural)]
pub enum FileAnswer {
    /// The file, with its headers.
    Body,
    /// Nothing but the headers: the browser's copy is still good.
    NotModified,
    /// There is no such file.
    NotFound,
}

/// The answer to a request for a file of the pad that could be read, or not.
pub fn pad_answer(request: &RequestParts, readable: bool, etag: &Option<String>) -> (r: FileAnswer)
    ensures
        r == (if !readable {
            FileAnswer::NotFound
        } else if revalidated(*request, opt_text(*etag)) {
            FileAnswer::NotModified
        } else {
            FileAnswer::Body
        }),
{
    if !readable {
        FileAnswer::NotFound
    } else if can_revalidate(request, etag) {
        FileAnswer::NotModified
    } else {
        FileAnswer::Body
    }
}

/// The answer to a request for a static file, after the file server answered with a status: a good
/// answer may give way to the browser's own copy.
pub fn static_answer(request: &RequestParts, status: u16, etag: &Option<String>) -> (r: FileAnswer)
    ensures
        r == (if revalidated(*request, opt_text(*etag)) && 200 <= status < 300 {
            FileAnswer::NotModified
        } else {
            FileAnswer::Body
        }),
{
    if can_revalidate(request, etag) && 200 <= status && status < 300 {
        FileAnswer::NotModified
    } else {
        FileAnswer::Body
    }
}

/// The headers that every static answer has: it has to be asked for anew each time, with its tag
/// where it has one.
pub fn static_cache_headers(etag: &Option<String>) -> (r: Vec<(String, String)>)
    ensures
        crate::encoding::pair_texts(r@) == seq![("cache-control"@, "no-cache"@)] + (match *etag {
            Some(tag) => seq![("etag"@, tag@)],
            None => Seq::empty(),
        }),
{
    let mut r: Vec<(String, String)> = Vec::new();
    r.push(crate::encoding::pair("cache-control", "no-cache"));
    match etag {
        Some(tag) => {
            r.push(crate::encoding::pair("etag", tag.as_str()));
        },
        None => {},
    }
    assert(crate::encoding::pair_texts(r@) =~= seq![("cache-control"@, "no-cache"@)] + (match *etag {
        Some(tag) => seq![("etag"@, tag@)],
        None => Seq::empty(),
    }));
    r
}

// -- What holds of the site as a whole.

/// The host with a landing page shows it on every path but those of the tokens of certificate
/// authorities.
pub proof fn the_landing_page_is_everywhere(request: RequestParts, port: Option<u16>)
    requires
        asked_host(request) == Some((CURRENT_HOST@, port)),
        !"/.well-known/acme-challenge/"@.is_prefix_of(request.path@),
    ensures
        request_plan(request) == PlanView::Page(landing_page()),
{
    lemma_canonical_rule();
}

/// Another spelling of that host, or a name below it, is redirected to it on HTTPS with the same port,
/// path and query; and whoever comes to it is not redirected again.
pub proof fn other_spellings_are_redirected_once(
    request: RequestParts,
    hostname: Seq<char>,
    port: Option<u16>,
    followed: RequestParts,
    followed_port: Option<u16>,
)
    requires
        asked_host(request) == Some((hostname, port)),
        within(plain_name(hostname), CURRENT_HOST@),
        hostname != CURRENT_HOST@,
        asked_host(followed) == Some((CURRENT_HOST@, followed_port)),
    ensures
        request_plan(request) == PlanView::Redirect(https_url(CURRENT_HOST@, port, asked_path(request))),
        !(request_plan(followed) is Redirect),
{
    lemma_canonical_rule();
    reveal_strlit("zoom.dima.ai");
    reveal_strlit("current.ai");
    reveal_strlit(".");
    let name = plain_name(hostname);
    if name == "zoom.dima.ai"@ {
        assert(name[name.len() - 4] == 'a');
        if ("."@ + CURRENT_HOST@).is_suffix_of(name) {
            let tail = "."@ + CURRENT_HOST@;
            assert(name[name.len() - 4] == tail[tail.len() - 4]);
            assert(tail[tail.len() - 4] == 't');
        } else {
            assert(name.len() == CURRENT_HOST@.len());
        }
        assert(false);
    }
}

/// Both listeners send every spelling of the meetings' host to the meetings.
pub proof fn meetings_are_found_on_both_listeners(
    request: RequestParts,
    hostname: Seq<char>,
    port: Option<u16>,
    fqdn: Seq<char>,
    https_port: u16,
)
    requires
        asked_host(request) == Some((hostname, port)),
        plain_name(hostname) == "zoom.dima.ai"@,
    ensures
        request_plan(request) == PlanView::Redirect(ZOOM_URL@),
        plain_target(request, fqdn, https_port) == ZOOM_URL@,
{
}

/// The canonical host is the one that its own rule names.
proof fn lemma_canonical_rule()
    ensures
        rule_for(CURRENT_HOST@) == Some(RuleView::Serve(CURRENT_HOST@)),
{
    reveal_strlit("current.ai");
    reveal_strlit("zoom.dima.ai");
    let host = CURRENT_HOST@;
    assert(host.last() == 'i');
    assert(trimmed_end(host, '.') == host);
    assert(ascii_lower(host) =~= host);
    assert(plain_name(host) == host);
    assert(host.len() != "zoom.dima.ai"@.len());
}

/// Whether a text is a token of a certificate authority: in base64url, and not empty.
pub open spec fn is_token(text: Seq<char>) -> bool {
    &&& text.len() > 0
    &&& forall|i: int|
        0 <= i < text.len() ==> (('a' <= #[trigger] text[i] && text[i] <= 'z') || ('A' <= text[i] && text[i] <= 'Z')
            || ('0' <= text[i] && text[i] <= '9') || text[i] == '-' || text[i] == '_')
}

/// A token of a certificate authority is served from the directory for tokens, on every host that is
/// not redirected.
pub proof fn tokens_are_served(request: RequestParts, token: Seq<char>)
    requires
        is_token(token),
        request.path@ == "/.well-known/acme-challenge/"@ + token,
        !(request_plan(request) is Redirect),
    ensures
        request_plan(request) == PlanView::Static(Some(seq![".well-known"@, "acme-challenge"@, token])),
{
    let path = request.path@;
    reveal_strlit("/.well-known/acme-challenge/");
    reveal_strlit("/.well-known/");
    reveal_strlit(".well-known");
    reveal_strlit("acme-challenge");
    reveal_strlit("/pad.js");
    reveal_strlit("/pad/pad.js");
    reveal_strlit("/pad");
    reveal_strlit("/pad/");
    assert("/.well-known/acme-challenge/"@.is_prefix_of(path));
    assert("/.well-known/"@.is_prefix_of(path)) by {
        assert(path.subrange(0, 13) =~= "/.well-known/"@);
    }
    assert(path[1] == '.');
    assert(path != "/pad.js"@ && path != "/pad/pad.js"@ && path != "/pad"@);
    assert(!"/pad/"@.is_prefix_of(path)) by {
        if "/pad/"@.is_prefix_of(path) {
            assert(path.subrange(0, 5)[1] == 'p');
        }
    }
    let relative = path.skip(1);
    let names = seq![".well-known"@, "acme-challenge"@, token];
    assert(relative_path(path) == Some(relative));
    assert(forall|i: int| 0 <= i < relative.len() ==> is_plain(#[trigger] relative[i])) by {
        assert forall|i: int| 0 <= i < relative.len() implies is_plain(#[trigger] relative[i]) by {
            if i >= 27 {
                assert(relative[i] == token[i - 27]);
            } else {
                assert(relative[i] == "/.well-known/acme-challenge/"@[i + 1]);
            }
        }
    }
    lemma_plain_text_stands_for_itself(relative);
    assert(!contains_part(relative, "\\"@)) by {
        reveal_strlit("\\");
        if contains_part(relative, "\\"@) {
            let at = choose|at: int| occurs_at(relative, "\\"@, at);
            assert(relative.subrange(at, at + 1)[0] == '\\');
            assert(is_plain(relative[at]));
        }
    }
    let rest = relative.skip(12);
    lemma_first_slash_at(relative, 0, 11);
    lemma_first_slash_at(rest, 0, 14);
    assert(relative.take(11) =~= ".well-known"@);
    assert(rest.take(14) =~= "acme-challenge"@);
    assert(rest.skip(15) =~= token);
    lemma_first_slash_at(token, 0, token.len() as int);
    assert(split_on(token, '/') =~= seq![token]);
    assert(split_on(rest, '/') =~= seq!["acme-challenge"@, token]);
    assert(split_on(relative, '/') =~= names);
    reveal_strlit(".");
    reveal_strlit("..");
    assert(token[0] != '.');
    assert(names.drop_last() =~= seq![".well-known"@, "acme-challenge"@]);
    assert(names.drop_last().drop_last() =~= seq![".well-known"@]);
    assert(names.drop_last().drop_last().drop_last() =~= Seq::empty());
    assert(names_in(names.drop_last().drop_last().drop_last()) == Some(Seq::<Seq<char>>::empty()));
    assert(names_in(names.drop_last().drop_last()) =~= Some(seq![".well-known"@])) by {
        assert(Seq::<Seq<char>>::empty().push(".well-known"@) =~= seq![".well-known"@]);
    }
    assert(names_in(names.drop_last()) =~= Some(seq![".well-known"@, "acme-challenge"@])) by {
        assert(seq![".well-known"@].push("acme-challenge"@) =~= seq![".well-known"@, "acme-challenge"@]);
    }
    assert(names_in(names) =~= Some(names)) by {
        assert(seq![".well-known"@, "acme-challenge"@].push(token) =~= names);
    }
}

/// Whether a character is ASCII, and neither a percent sign nor a backslash.
spec fn is_plain(c: char) -> bool {
    '\0' <= c <= '\u{7f}' && c != '%' && c != '\\'
}

/// Plain text has no escapes: it decodes to itself.
proof fn lemma_plain_text_stands_for_itself(text: Seq<char>)
    requires
        forall|i: int| 0 <= i < text.len() ==> is_plain(#[trigger] text[i]),
    ensures
        percent_decoded_text(text) == Some(text),
{
    assert(is_ascii_chars(text)) by {
        assert forall|i: int| 0 <= i < text.len() implies '\0' <= #[trigger] text[i] <= '\u{7f}' by {
            assert(is_plain(text[i]));
        }
    }
    is_ascii_chars_encode_utf8(text);
    let bytes = encode_utf8(text);
    assert forall|i: int| 0 <= i < bytes.len() implies #[trigger] bytes[i] != 37 by {
        assert(is_plain(text[i]));
    }
    lemma_no_escapes(bytes);
    encode_utf8_valid_utf8(text);
    encode_utf8_decode_utf8(text);
}

proof fn lemma_no_escapes(bytes: Seq<u8>)
    requires
        forall|i: int| 0 <= i < bytes.len() ==> #[trigger] bytes[i] != 37,
    ensures
        percent_decoded(bytes) == bytes,
    decreases bytes.len(),
{
    if bytes.len() > 0 {
        assert forall|i: int| 0 <= i < bytes.skip(1).len() implies #[trigger] bytes.skip(1)[i] != 37 by {
            assert(bytes[i + 1] != 37);
        }
        lemma_no_escapes(bytes.skip(1));
        assert(seq![bytes[0]] + bytes.skip(1) =~= bytes);
    }
}

/// The first slash stands where none stands before it.
proof fn lemma_first_slash_at(text: Seq<char>, from: int, at: int)
    requires
        0 <= from <= at <= text.len(),
        at < text.len() ==> text[at] == '/',
        forall|j: int| from <= j < at ==> text[j] != '/',
    ensures
        first_index(text, '/', from) == at,
    decreases at - from,
{
    if from < at {
        lemma_first_slash_at(text, from + 1, at);
    }
}

// -- What holds of paths.

/// Every path below the pad means the pad: its script by either of its names, its page by every other one.
pub proof fn everything_below_the_pad_is_the_pad(rest: Seq<char>)
    ensures
        rest == "pad.js"@ ==> path_plan("/pad/"@ + rest) == PlanView::Pad(
            "pad.js"@,
            "text/javascript; charset=utf-8"@,
        ),
        rest != "pad.js"@ ==> path_plan("/pad/"@ + rest) == PlanView::Pad("pad.html"@, "text/html; charset=utf-8"@),
        path_plan("/pad"@) == PlanView::Pad("pad.html"@, "text/html; charset=utf-8"@),
        path_plan("/pad.js"@) == PlanView::Pad("pad.js"@, "text/javascript; charset=utf-8"@),
{
    reveal_strlit("/pad/");
    reveal_strlit("/pad");
    reveal_strlit("pad.js");
    reveal_strlit("/pad.js");
    reveal_strlit("/pad/pad.js");
    let path = "/pad/"@ + rest;
    assert(path.subrange(0, 5) =~= "/pad/"@);
    assert(path[4] == '/');
    assert("/pad.js"@[4] == '.');
    assert("/pad/"@ + "pad.js"@ =~= "/pad/pad.js"@);
    if path == "/pad/pad.js"@ {
        assert(rest =~= path.skip(5));
        assert("pad.js"@ =~= "/pad/pad.js"@.skip(5));
    }
    assert("/pad"@.len() == 4);
}

/// Names one behind the other, with a slash between two.
pub open spec fn slashed(names: Seq<Seq<char>>) -> Seq<char>
    decreases names.len(),
{
    if names.len() == 0 {
        Seq::empty()
    } else if names.len() == 1 {
        names[0]
    } else {
        names[0] + seq!['/'] + slashed(names.skip(1))
    }
}

/// Whether a text is the name of a file in plain characters: not empty, neither of the two names with
/// dots alone, and without a slash, a backslash or a percent sign.
pub open spec fn is_file_name(name: Seq<char>) -> bool {
    &&& name.len() > 0
    &&& name != "."@
    &&& name != ".."@
    &&& forall|i: int|
        0 <= i < name.len() ==> ('\0' <= #[trigger] name[i] && name[i] <= '\u{7f}' && name[i] != '/' && name[i] != '\\'
            && name[i] != '%')
}

proof fn lemma_slashed_splits(names: Seq<Seq<char>>)
    requires
        names.len() > 0,
        forall|i: int| 0 <= i < names.len() ==> !(#[trigger] names[i]).contains('/'),
    ensures
        split_on(slashed(names), '/') == names,
    decreases names.len(),
{
    assert(!names[0].contains('/'));
    if names.len() == 1 {
        a_separator_ends_a_piece(names[0], '/', Seq::empty());
        assert(names =~= seq![names[0]]);
    } else {
        let rest = names.skip(1);
        assert forall|i: int| 0 <= i < rest.len() implies !(#[trigger] rest[i]).contains('/') by {
            assert(rest[i] == names[i + 1]);
        }
        lemma_slashed_splits(rest);
        a_separator_ends_a_piece(names[0], '/', slashed(rest));
        assert(names =~= seq![names[0]] + rest);
    }
}

proof fn lemma_file_names_are_read(names: Seq<Seq<char>>)
    requires
        forall|i: int| 0 <= i < names.len() ==> is_file_name(#[trigger] names[i]),
    ensures
        names_in(names) == Some(names),
    decreases names.len(),
{
    if names.len() > 0 {
        let fewer = names.drop_last();
        assert forall|i: int| 0 <= i < fewer.len() implies is_file_name(#[trigger] fewer[i]) by {
            assert(fewer[i] == names[i]);
        }
        lemma_file_names_are_read(fewer);
        assert(is_file_name(names[names.len() - 1]));
        assert(fewer.push(names.last()) =~= names);
    }
}

proof fn lemma_slashed_is_plain(names: Seq<Seq<char>>)
    requires
        forall|i: int| 0 <= i < names.len() ==> (is_file_name(#[trigger] names[i]) || names[i] == ".."@),
    ensures
        forall|i: int| 0 <= i < slashed(names).len() ==> is_plain(#[trigger] slashed(names)[i]),
    decreases names.len(),
{
    reveal_strlit("..");
    if names.len() > 0 {
        let first = names[0];
        assert(is_file_name(names[0]) || names[0] == ".."@);
        assert forall|i: int| 0 <= i < first.len() implies is_plain(#[trigger] first[i]) by {}
        if names.len() > 1 {
            let rest = names.skip(1);
            assert forall|i: int| 0 <= i < rest.len() implies (is_file_name(#[trigger] rest[i]) || rest[i] == ".."@) by {
                assert(rest[i] == names[i + 1]);
            }
            lemma_slashed_is_plain(rest);
            let text = slashed(names);
            assert forall|i: int| 0 <= i < text.len() implies is_plain(#[trigger] text[i]) by {
                if i < first.len() {
                    assert(text[i] == first[i]);
                } else if i == first.len() {
                    assert(text[i] == '/');
                } else {
                    assert(text[i] == slashed(rest)[i - first.len() - 1]);
                }
            }
        }
    }
}

proof fn lemma_plain_has_no_backslash(text: Seq<char>)
    requires
        forall|i: int| 0 <= i < text.len() ==> is_plain(#[trigger] text[i]),
    ensures
        !contains_part(text, "\\"@),
{
    reveal_strlit("\\");
    if contains_part(text, "\\"@) {
        let at = choose|at: int| occurs_at(text, "\\"@, at);
        assert(text.subrange(at, at + 1)[0] == '\\');
        assert(is_plain(text[at]));
    }
}

/// A path below the static prefix means the file of those names, whatever they are; one that goes up
/// anywhere means no file.
pub proof fn static_paths_mean_their_files(names: Seq<Seq<char>>)
    requires
        names.len() > 0,
    ensures
        (forall|i: int| 0 <= i < names.len() ==> is_file_name(#[trigger] names[i])) ==> path_plan(
            "/static/"@ + slashed(names),
        ) == PlanView::Static(Some(names)),
        (forall|i: int| 0 <= i < names.len() ==> is_file_name(#[trigger] names[i]) || names[i] == ".."@)
            && names.contains(".."@) ==> path_plan("/static/"@ + slashed(names)) == PlanView::Static(None),
{
    let text = slashed(names);
    let path = "/static/"@ + text;
    reveal_strlit("/static/");
    reveal_strlit("/.well-known/acme-challenge/");
    reveal_strlit("/pad.js");
    reveal_strlit("/pad/pad.js");
    reveal_strlit("/pad");
    reveal_strlit("/pad/");
    reveal_strlit("..");
    assert(path[1] == 's');
    assert(path.subrange(0, 8) =~= "/static/"@);
    assert(!"/pad/"@.is_prefix_of(path)) by {
        if "/pad/"@.is_prefix_of(path) {
            assert(path.subrange(0, 5)[1] == 'p');
        }
    }
    assert(!"/.well-known/acme-challenge/"@.is_prefix_of(path)) by {
        if "/.well-known/acme-challenge/"@.is_prefix_of(path) {
            assert(path.subrange(0, 28)[1] == '.');
        }
    }
    assert("/pad.js"@[1] == 'p' && "/pad/pad.js"@[1] == 'p' && "/pad"@[1] == 'p');
    assert(path.skip(8) =~= text);
    if forall|i: int| 0 <= i < names.len() ==> is_file_name(#[trigger] names[i]) || names[i] == ".."@ {
        assert forall|i: int| 0 <= i < names.len() implies !(#[trigger] names[i]).contains('/') by {
            assert(is_file_name(names[i]) || names[i] == ".."@);
        }
        lemma_slashed_splits(names);
        lemma_slashed_is_plain(names);
        lemma_plain_text_stands_for_itself(text);
        lemma_plain_has_no_backslash(text);
        assert(names[0].len() > 0) by {
            assert(is_file_name(names[0]) || names[0] == ".."@);
        }
        assert(text[0] == names[0][0]);
        assert(text[0] != '/') by {
            assert(is_file_name(names[0]) || names[0] == ".."@);
        }
        assert(static_names(path) == names_in(names));
        if names.contains(".."@) {
            let at = choose|at: int| 0 <= at < names.len() && names[at] == ".."@;
            assert(names.take(at + 1).last() == ".."@);
            assert(names_in(names.take(at + 1)) is None);
            lemma_no_names_stay_none(names, at + 1);
            assert(names.take(names.len() as int) =~= names);
        } else {
            assert forall|i: int| 0 <= i < names.len() implies is_file_name(#[trigger] names[i]) by {
                assert(names.contains(names[i]));
            }
            lemma_file_names_are_read(names);
        }
    }
    if forall|i: int| 0 <= i < names.len() ==> is_file_name(#[trigger] names[i]) {
        assert forall|i: int| 0 <= i < names.len() implies names[i] != ".."@ by {
            assert(is_file_name(names[i]));
        }
        assert(!names.contains(".."@));
    }
}

/// A path that begins neither with the pad nor with the static prefixes is for the routes.
pub proof fn other_paths_are_routed(path: Seq<char>)
    requires
        !"/pad"@.is_prefix_of(path),
        !"/static"@.is_prefix_of(path),
        !"/.well-known"@.is_prefix_of(path),
    ensures
        path_plan(path) is Route,
{
    reveal_strlit("/static/");
    reveal_strlit("/static");
    reveal_strlit("/.well-known/acme-challenge/");
    reveal_strlit("/.well-known/");
    reveal_strlit("/.well-known");
    reveal_strlit("/pad.js");
    reveal_strlit("/pad/pad.js");
    reveal_strlit("/pad");
    reveal_strlit("/pad/");
    lemma_shorter_prefix("/pad"@, "/pad/"@, path);
    lemma_shorter_prefix("/pad"@, "/pad.js"@, path);
    lemma_shorter_prefix("/pad"@, "/pad/pad.js"@, path);
    lemma_shorter_prefix("/pad"@, "/pad"@, path);
    lemma_shorter_prefix("/static"@, "/static/"@, path);
    lemma_shorter_prefix("/static"@, "/static"@, path);
    lemma_shorter_prefix("/.well-known"@, "/.well-known/"@, path);
    lemma_shorter_prefix("/.well-known"@, "/.well-known"@, path);
    lemma_shorter_prefix("/.well-known"@, "/.well-known/acme-challenge/"@, path);
}

proof fn lemma_shorter_prefix(short: Seq<char>, long: Seq<char>, path: Seq<char>)
    requires
        short.len() <= long.len(),
        short =~= long.take(short.len() as int),
    ensures
        long.is_prefix_of(path) ==> short.is_prefix_of(path),
        path == long ==> short.is_prefix_of(path),
{
    if long.is_prefix_of(path) {
        assert(path.subrange(0, short.len() as int) =~= short) by {
            assert forall|i: int| 0 <= i < short.len() implies path[i] == short[i] by {
                assert(path.subrange(0, long.len() as int)[i] == path[i]);
            }
        }
    }
    if path == long {
        assert(path.subrange(0, short.len() as int) =~= short);
    }
}

// -- What holds of conditions.

proof fn lemma_split_entry(before: Seq<char>, entry: Seq<char>, after: Seq<char>)
    requires
        !entry.contains(','),
    ensures
        split_on(before + seq![','] + entry + seq![','] + after, ',').contains(entry),
        split_on(entry + seq![','] + after, ',').contains(entry),
        split_on(before + seq![','] + entry, ',').contains(entry),
    decreases before.len(),
{
    let tail = entry + seq![','] + after;
    a_separator_ends_a_piece(entry, ',', after);
    assert(split_on(tail, ',')[0] == entry);
    let whole = before + seq![','] + entry + seq![','] + after;
    assert(whole =~= before + seq![','] + tail);
    let short = before + seq![','] + entry;
    assert(split_on(entry, ',')[0] == entry);
    let at = first_index(before, ',', 0);
    lemma_first_comma(before, 0);
    if at < before.len() {
        let head = before.take(at);
        let rest = before.skip(at + 1);
        assert(!head.contains(','));
        lemma_split_entry(rest, entry, after);
        a_separator_ends_a_piece(head, ',', rest + seq![','] + entry + seq![','] + after);
        assert(whole =~= head + seq![','] + (rest + seq![','] + entry + seq![','] + after));
        a_separator_ends_a_piece(head, ',', rest + seq![','] + entry);
        assert(short =~= head + seq![','] + (rest + seq![','] + entry));
        lemma_contains_behind(head, split_on(rest + seq![','] + entry + seq![','] + after, ','), entry);
        lemma_contains_behind(head, split_on(rest + seq![','] + entry, ','), entry);
    } else {
        assert(!before.contains(','));
        a_separator_ends_a_piece(before, ',', tail);
        a_separator_ends_a_piece(before, ',', entry);
        lemma_contains_behind(before, split_on(tail, ','), entry);
        lemma_contains_behind(before, split_on(entry, ','), entry);
    }
}

proof fn lemma_contains_behind(first: Seq<char>, rest: Seq<Seq<char>>, entry: Seq<char>)
    requires
        rest.contains(entry),
    ensures
        (seq![first] + rest).contains(entry),
{
    let i = choose|i: int| 0 <= i < rest.len() && rest[i] == entry;
    assert((seq![first] + rest)[i + 1] == entry);
}

proof fn lemma_first_comma(text: Seq<char>, from: int)
    requires
        0 <= from <= text.len(),
    ensures
        from <= first_index(text, ',', from) <= text.len(),
        first_index(text, ',', from) < text.len() ==> text[first_index(text, ',', from)] == ',',
        forall|j: int| from <= j < first_index(text, ',', from) ==> text[j] != ',',
    decreases text.len() - from,
{
    if from < text.len() && text[from] != ',' {
        lemma_first_comma(text, from + 1);
    }
}

/// A condition takes a tag that stands anywhere in its list, marked as weak or not, and whatever white space
/// stands around it; and a lone star takes every tag.
pub proof fn a_condition_takes_every_tag_in_its_list(
    value: Seq<u8>,
    before: Seq<char>,
    entry: Seq<char>,
    after: Seq<char>,
    tag: Seq<char>,
)
    requires
        !entry.contains(','),
        trimmed(entry) == tag || "W/"@ + trimmed(entry) == tag || trimmed(entry) == "*"@,
        header_text(value) == Some(before + seq![','] + entry + seq![','] + after) || header_text(value) == Some(
            entry + seq![','] + after,
        ) || header_text(value) == Some(before + seq![','] + entry) || header_text(value) == Some(entry),
        "W/"@.is_prefix_of(trimmed(entry)) ==> trimmed(entry) == tag,
    ensures
        condition_takes(Some(value), tag),
{
    reveal_strlit("W/");
    lemma_split_entry(before, entry, after);
    a_separator_ends_a_piece(entry, ',', after);
    assert(split_on(entry, ',')[0] == entry);
    let text = header_text(value)->0;
    let all = split_on(text, ',');
    assert(all.contains(entry));
    let i = choose|i: int| 0 <= i < all.len() && all[i] == entry;
    if "W/"@ + trimmed(entry) == tag {
        assert(tag.subrange(0, 2) =~= "W/"@);
        assert(tag.skip(2) =~= trimmed(entry));
    }
    assert(takes(all[i], tag));
}

/// A browser whose copy is of another length or another time is sent the file: the tag of one file is not
/// taken for that of another.
pub proof fn a_condition_takes_no_other_tag(value: Seq<u8>, a: (u64, u64, u32), b: (u64, u64, u32))
    requires
        header_text(value) == Some(etag_text(a.0, a.1, a.2)),
        a != b,
    ensures
        !condition_takes(Some(value), etag_text(b.0, b.1, b.2)),
{
    let s = etag_text(a.0, a.1, a.2);
    let t = etag_text(b.0, b.1, b.2);
    lemma_tag_is_one_entry(a.0, a.1, a.2);
    etags_tell_files_apart(a, b);
    reveal_strlit("W/");
    reveal_strlit("W/\"");
    reveal_strlit("*");
    assert(s.subrange(0, 2) =~= "W/"@);
    assert(t.subrange(0, 2) =~= "W/"@);
    assert(s[0] == 'W');
    if strong(s) == strong(t) {
        assert(s =~= "W/"@ + s.skip(2));
        assert(t =~= "W/"@ + t.skip(2));
    }
    assert forall|i: int| 0 <= i < split_on(s, ',').len() implies !takes(#[trigger] split_on(s, ',')[i], t) by {
        assert(split_on(s, ',')[i] == s);
    }
}

proof fn lemma_tag_is_one_entry(length: u64, secs: u64, nanos: u32)
    ensures
        split_on(etag_text(length, secs, nanos), ',') == seq![etag_text(length, secs, nanos)],
        trimmed(etag_text(length, secs, nanos)) == etag_text(length, secs, nanos),
{
    let s = etag_text(length, secs, nanos);
    reveal_strlit("W/\"");
    reveal_strlit("\"");
    reveal_strlit("-");
    lemma_numeral_digits(length as nat, 16);
    lemma_numeral_digits(secs as nat, 16);
    lemma_numeral_digits(nanos as nat, 16);
    assert forall|i: int| 0 <= i < s.len() implies s[i] != ',' by {
        let a = "W/\""@;
        let b = a + hexadecimal(length as nat);
        let c = b + "-"@;
        let d = c + hexadecimal(secs as nat);
        let e = d + "-"@;
        let f = e + hexadecimal(nanos as nat);
        assert(s == f + "\""@);
        if i < a.len() {
            assert(s[i] == a[i]);
        } else if i < b.len() {
            assert(s[i] == hexadecimal(length as nat)[i - a.len()]);
        } else if i < c.len() {
            assert(s[i] == '-');
        } else if i < d.len() {
            assert(s[i] == hexadecimal(secs as nat)[i - c.len()]);
        } else if i < e.len() {
            assert(s[i] == '-');
        } else if i < f.len() {
            assert(s[i] == hexadecimal(nanos as nat)[i - e.len()]);
        } else {
            assert(s[i] == '"');
        }
    }
    lemma_no_comma(s, 0);
    assert(s[0] == 'W' && s.last() == '"');
    trimmed_texts_stay(s);
}

/// A copy is good only for a request that reads, for a file with a tag, and with a condition.
pub proof fn only_reads_are_revalidated(request: RequestParts, etag: Option<Seq<char>>)
    ensures
        revalidated(request, etag) ==> (request.method@ == "GET"@ || request.method@ == "HEAD"@) && etag is Some
            && request.if_none_match is Some,
        request.method@ == "GET"@ || request.method@ == "HEAD"@ ==> (etag matches Some(tag) ==> (
        request.if_none_match matches Some(value) ==> (condition_takes(Some(value@), tag) ==> revalidated(
            request,
            etag,
        )))),
{
}

/// Whether a text is the name of a file: not empty, neither of the two names with dots alone, and without a
/// slash or a backslash.
pub open spec fn is_any_name(name: Seq<char>) -> bool {
    &&& name.len() > 0
    &&& name != "."@
    &&& name != ".."@
    &&& !name.contains('/')
    &&& !name.contains('\\')
}

proof fn lemma_any_names_are_read(names: Seq<Seq<char>>)
    requires
        forall|i: int| 0 <= i < names.len() ==> is_any_name(#[trigger] names[i]),
    ensures
        names_in(names) == Some(names),
    decreases names.len(),
{
    if names.len() > 0 {
        let fewer = names.drop_last();
        assert forall|i: int| 0 <= i < fewer.len() implies is_any_name(#[trigger] fewer[i]) by {
            assert(fewer[i] == names[i]);
        }
        lemma_any_names_are_read(fewer);
        assert(is_any_name(names[names.len() - 1]));
        assert(fewer.push(names.last()) =~= names);
    }
}

proof fn lemma_slashed_has_no_backslash(names: Seq<Seq<char>>)
    requires
        forall|i: int| 0 <= i < names.len() ==> !(#[trigger] names[i]).contains('\\'),
    ensures
        !slashed(names).contains('\\'),
    decreases names.len(),
{
    if names.len() > 0 {
        let first = names[0];
        assert(!names[0].contains('\\'));
        if names.len() > 1 {
            let rest = names.skip(1);
            assert forall|i: int| 0 <= i < rest.len() implies !(#[trigger] rest[i]).contains('\\') by {
                assert(rest[i] == names[i + 1]);
            }
            lemma_slashed_has_no_backslash(rest);
            let text = slashed(names);
            assert forall|i: int| 0 <= i < text.len() implies #[trigger] text[i] != '\\' by {
                if i < first.len() {
                    assert(text[i] == first[i]);
                    assert(first.contains(first[i]));
                } else if i == first.len() {
                    assert(text[i] == '/');
                } else {
                    assert(text[i] == slashed(rest)[i - first.len() - 1]);
                    assert(slashed(rest).contains(slashed(rest)[i - first.len() - 1]));
                }
            }
        }
    }
}

proof fn lemma_backslash_part(text: Seq<char>)
    ensures
        contains_part(text, "\\"@) <==> text.contains('\\'),
{
    reveal_strlit("\\");
    if contains_part(text, "\\"@) {
        let at = choose|at: int| occurs_at(text, "\\"@, at);
        assert(text.subrange(at, at + 1)[0] == '\\');
        assert(text[at] == '\\');
    }
    if text.contains('\\') {
        let at = choose|at: int| 0 <= at < text.len() && text[at] == '\\';
        assert(text.subrange(at, at + 1) =~= "\\"@);
        assert(occurs_at(text, "\\"@, at));
    }
}

/// What a static path means is decided when it is decoded: the names between its slashes are the names of the
/// file, whatever was escaped and in whatever script; a decoded path that goes up, begins at the root or holds
/// a backslash means no file, however it was written; and what does not decode means none.
pub proof fn static_paths_are_decoded_first(relative: Seq<char>, names: Seq<Seq<char>>)
    requires
        names.len() > 0,
    ensures
        percent_decoded_text(relative) == Some(slashed(names)) ==> {
            &&& (forall|i: int| 0 <= i < names.len() ==> is_any_name(#[trigger] names[i])) ==> path_plan(
                "/static/"@ + relative,
            ) == PlanView::Static(Some(names))
            &&& (forall|i: int| 0 <= i < names.len() ==> !(#[trigger] names[i]).contains('/')) && names.contains(".."@)
                ==> path_plan("/static/"@ + relative) == PlanView::Static(None)
        },
        percent_decoded_text(relative) matches Some(text) ==> (text.contains('\\') ==> path_plan("/static/"@ + relative)
            == PlanView::Static(None)),
        percent_decoded_text(relative) matches Some(text) ==> (text.len() > 0 && text[0] == '/' ==> path_plan(
            "/static/"@ + relative,
        ) == PlanView::Static(None)),
        percent_decoded_text(relative) is None ==> path_plan("/static/"@ + relative) == PlanView::Static(None),
{
    let path = "/static/"@ + relative;
    lemma_static_prefix(relative);
    if percent_decoded_text(relative) is Some {
        lemma_backslash_part(percent_decoded_text(relative)->0);
    }
    if percent_decoded_text(relative) == Some(slashed(names)) {
        let text = slashed(names);
        if forall|i: int| 0 <= i < names.len() ==> !(#[trigger] names[i]).contains('/') {
            lemma_slashed_splits(names);
            if names.contains(".."@) {
                let at = choose|at: int| 0 <= at < names.len() && names[at] == ".."@;
                assert(names.take(at + 1).last() == ".."@);
                assert(names_in(names.take(at + 1)) is None);
                lemma_no_names_stay_none(names, at + 1);
                assert(names.take(names.len() as int) =~= names);
            }
        }
        if forall|i: int| 0 <= i < names.len() ==> is_any_name(#[trigger] names[i]) {
            assert forall|i: int| 0 <= i < names.len() implies !(#[trigger] names[i]).contains('/') by {
                assert(is_any_name(names[i]));
            }
            assert forall|i: int| 0 <= i < names.len() implies !(#[trigger] names[i]).contains('\\') by {
                assert(is_any_name(names[i]));
            }
            lemma_slashed_splits(names);
            lemma_slashed_has_no_backslash(names);
            lemma_any_names_are_read(names);
            assert(is_any_name(names[0]));
            assert(text[0] == names[0][0]);
            assert(names[0].contains(names[0][0]));
        }
    }
}

proof fn lemma_static_prefix(relative: Seq<char>)
    ensures
        relative_path("/static/"@ + relative) == Some(relative),
        pad_file("/static/"@ + relative) is None,
{
    let path = "/static/"@ + relative;
    reveal_strlit("/static/");
    reveal_strlit("/.well-known/acme-challenge/");
    reveal_strlit("/pad.js");
    reveal_strlit("/pad/pad.js");
    reveal_strlit("/pad");
    reveal_strlit("/pad/");
    assert(path[1] == 's');
    assert(path.subrange(0, 8) =~= "/static/"@);
    assert(!"/pad/"@.is_prefix_of(path)) by {
        if "/pad/"@.is_prefix_of(path) {
            assert(path.subrange(0, 5)[1] == 'p');
        }
    }
    assert(!"/.well-known/acme-challenge/"@.is_prefix_of(path)) by {
        if "/.well-known/acme-challenge/"@.is_prefix_of(path) {
            assert(path.subrange(0, 28)[1] == '.');
        }
    }
    assert("/pad.js"@[1] == 'p' && "/pad/pad.js"@[1] == 'p' && "/pad"@[1] == 'p');
    assert(path.skip(8) =~= relative);
}

/// What else is well known stands at the top of the static directory: its path means what the same path
/// below the static prefix means. The two prefixes alone mean that directory itself.
pub proof fn well_known_files_stand_at_the_top(relative: Seq<char>)
    requires
        !"acme-challenge/"@.is_prefix_of(relative),
    ensures
        path_plan("/.well-known/"@ + relative) == path_plan("/static/"@ + relative),
        path_plan("/static"@) == path_plan("/static/"@),
        path_plan("/.well-known"@) == path_plan("/static/"@),
        path_plan("/static"@) is Static,
{
    lemma_static_prefix(relative);
    lemma_static_prefix(Seq::empty());
    reveal_strlit("/static/");
    reveal_strlit("/static");
    reveal_strlit("/.well-known/acme-challenge/");
    reveal_strlit("/.well-known/");
    reveal_strlit("/.well-known");
    reveal_strlit("acme-challenge/");
    reveal_strlit("/pad.js");
    reveal_strlit("/pad/pad.js");
    reveal_strlit("/pad");
    reveal_strlit("/pad/");
    assert("/static/"@ + Seq::<char>::empty() =~= "/static/"@);
    let path = "/.well-known/"@ + relative;
    assert(path.subrange(0, 13) =~= "/.well-known/"@);
    assert(path.skip(13) =~= relative);
    assert(path[1] == '.');
    lemma_second_char(path);
    lemma_second_char("/static"@);
    lemma_second_char("/.well-known"@);
    assert("/.well-known"@[1] == '.' && "/static"@[1] == 's');
    assert(!"/.well-known/acme-challenge/"@.is_prefix_of(path)) by {
        if "/.well-known/acme-challenge/"@.is_prefix_of(path) {
            assert(relative.subrange(0, 15) =~= "acme-challenge/"@) by {
                assert forall|i: int| 0 <= i < 15 implies relative[i] == "acme-challenge/"@[i] by {
                    assert(path.subrange(0, 28)[13 + i] == path[13 + i]);
                }
            }
        }
    }
    assert(!"/static/"@.is_prefix_of(path)) by {
        if "/static/"@.is_prefix_of(path) {
            assert(path.subrange(0, 8)[1] == 's');
        }
    }
}

proof fn lemma_second_char(path: Seq<char>)
    requires
        path.len() > 1,
        path[1] != 'p',
    ensures
        pad_file(path) is None,
{
    reveal_strlit("/pad.js");
    reveal_strlit("/pad/pad.js");
    reveal_strlit("/pad");
    reveal_strlit("/pad/");
    if "/pad/"@.is_prefix_of(path) {
        assert(path.subrange(0, 5)[1] == 'p');
    }
    assert("/pad.js"@[1] == 'p' && "/pad/pad.js"@[1] == 'p' && "/pad"@[1] == 'p');
}

/// A path that only begins like the pad's is not the pad.
pub proof fn longer_names_are_not_the_pad(rest: Seq<char>)
    requires
        rest.len() > 0,
        rest[0] != '/',
        rest != ".js"@,
    ensures
        path_plan("/pad"@ + rest) == PlanView::Route,
{
    reveal_strlit("/pad/");
    reveal_strlit("/pad");
    reveal_strlit(".js");
    reveal_strlit("/pad.js");
    reveal_strlit("/pad/pad.js");
    reveal_strlit("/static/");
    reveal_strlit("/static");
    reveal_strlit("/.well-known/");
    reveal_strlit("/.well-known");
    reveal_strlit("/.well-known/acme-challenge/");
    let path = "/pad"@ + rest;
    assert(path[1] == 'p');
    assert(path[4] == rest[0]);
    if path == "/pad.js"@ {
        assert(rest =~= path.skip(4));
        assert(".js"@ =~= "/pad.js"@.skip(4));
    }
    assert("/pad/"@[4] == '/');
    assert("/pad/pad.js"@[4] == '/');
    assert("/static/"@[1] == 's');
    assert("/static"@[1] == 's');
    assert("/.well-known/"@[1] == '.');
    assert("/.well-known"@[1] == '.');
    assert("/.well-known/acme-challenge/"@[1] == '.');
}

} // verus!
