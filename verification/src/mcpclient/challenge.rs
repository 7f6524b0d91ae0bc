//! The `WWW-Authenticate` header of a server that asks for authorization, and the PKCE values that
//! answer it.
use vstd::prelude::*;
use vstd::string::*;

use crate::encoding::{b64url, base64url, code_challenge, pair_texts, random_bytes, s256_challenge};
use crate::text::{
    all_ascii, ascii_lower, chars_of, contains_part, first_index, has_part, has_prefix, index_of, is_alnum, is_space,
    joined, lemma_contains_between, lemma_first_index_skip, lowercase, only_the_spaces_around_are_trimmed, opt_text,
    same_text, text_between, trim, trim_end_char, trimmed, trimmed_end, trimmed_texts_stay,
};

verus! {

// -- Parameters of a challenge.

/// A character of a parameter's name.
pub open spec fn is_word(c: char) -> bool {
    is_alnum(c) || c == '_'
}

/// The longest run of name characters at the end of a text.
pub open spec fn word_suffix(text: Seq<char>) -> Seq<char>
    decreases text.len(),
{
    if text.len() > 0 && is_word(text.last()) {
        word_suffix(text.drop_last()).push(text.last())
    } else {
        Seq::empty()
    }
}

/// The length of an unquoted value: it goes up to white space or a comma.
pub open spec fn bare_length(text: Seq<char>) -> nat
    decreases text.len(),
{
    if text.len() > 0 && !is_space(text[0]) && text[0] != ',' {
        1 + bare_length(text.skip(1))
    } else {
        0
    }
}

/// The parameters of a challenge, in order. A parameter is a name, `=` and a value: in double
/// quotes, or up to white space or a comma. An unquoted value without a name is passed over, and
/// an open quote ends the reading.
pub open spec fn challenge_params(header: Seq<char>) -> Seq<(Seq<char>, Seq<char>)>
    decreases header.len(),
{
    let eq = first_index(header, '=', 0);
    if eq < 0 || eq >= header.len() {
        Seq::empty()
    } else {
        let key = word_suffix(header.take(eq));
        let after = header.skip(eq + 1);
        if after.len() > 0 && after[0] == '"' {
            let close = first_index(after, '"', 1);
            if 0 < close < after.len() {
                seq![(key, after.subrange(1, close))] + challenge_params(after.skip(close + 1))
            } else {
                Seq::empty()
            }
        } else {
            proof {
                lemma_bare_length_bound(after);
            }
            let rest = challenge_params(after.skip(bare_length(after) as int));
            if key.len() > 0 {
                seq![(key, after.take(bare_length(after) as int))] + rest
            } else {
                rest
            }
        }
    }
}

/// An unquoted value ends within the text.
pub proof fn lemma_bare_length_bound(text: Seq<char>)
    ensures
        bare_length(text) <= text.len(),
    decreases text.len(),
{
    if text.len() > 0 && !is_space(text[0]) && text[0] != ',' {
        lemma_bare_length_bound(text.skip(1));
    }
}

/// The start of the longest run of name characters that ends at `to`.
fn word_start(v: &Vec<char>, from: usize, to: usize) -> (start: usize)
    requires
        from <= to <= v@.len(),
    ensures
        from <= start <= to,
        v@.subrange(start as int, to as int) == word_suffix(v@.subrange(from as int, to as int)),
{
    let mut i: usize = to;
    let ghost whole = v@.subrange(from as int, to as int);
    assert(whole.take(whole.len() as int) =~= whole);
    assert(v@.subrange(to as int, to as int) =~= Seq::<char>::empty());
    assert(word_suffix(whole) =~= word_suffix(whole) + Seq::<char>::empty());
    while i > from && (v[i - 1].is_alphanumeric() || v[i - 1] == '_')
        invariant
            from <= i <= to <= v@.len(),
            whole == v@.subrange(from as int, to as int),
            word_suffix(whole) == word_suffix(whole.take(i - from)) + v@.subrange(i as int, to as int),
        decreases i,
    {
        let ghost head = whole.take(i - from);
        assert(head.drop_last() =~= whole.take(i - 1 - from));
        assert(head.last() == v@[i - 1]);
        assert(word_suffix(head.drop_last()).push(head.last()) + v@.subrange(i as int, to as int) =~= word_suffix(
            head.drop_last(),
        ) + v@.subrange(i - 1, to as int));
        i -= 1;
    }
    assert(word_suffix(whole.take(i - from)) =~= Seq::<char>::empty());
    assert(word_suffix(whole) =~= v@.subrange(i as int, to as int));
    i
}

/// The end of the unquoted value that starts at `from`.
fn bare_end(v: &Vec<char>, from: usize) -> (end: usize)
    requires
        from <= v@.len(),
    ensures
        from <= end <= v@.len(),
        end - from == bare_length(v@.skip(from as int)),
{
    let mut i: usize = from;
    while i < v.len() && !v[i].is_whitespace() && v[i] != ','
        invariant
            from <= i <= v@.len(),
            bare_length(v@.skip(from as int)) == i - from + bare_length(v@.skip(i as int)),
        decreases v@.len() - i,
    {
        assert(v@.skip(i as int).skip(1) =~= v@.skip(i + 1));
        i += 1;
    }
    i
}

/// Reads the parameters of a `WWW-Authenticate` header.
pub fn parse_www_authenticate(header: &str) -> (results: Vec<(String, String)>)
    ensures
        pair_texts(results@) == challenge_params(header@),
{
    let v = chars_of(header);
    let mut results: Vec<(String, String)> = Vec::new();
    let mut from: usize = 0;
    assert(v@.skip(0) =~= v@);
    assert(pair_texts(results@) + challenge_params(v@) =~= challenge_params(v@));
    loop
        invariant
            from <= v@.len(),
            v@ == header@,
            challenge_params(v@) == pair_texts(results@) + challenge_params(v@.skip(from as int)),
        decreases v@.len() - from,
    {
        let ghost rest = v@.skip(from as int);
        let ghost before = pair_texts(results@);
        let eq = index_of(&v, '=', from);
        proof {
            lemma_first_index_skip(v@, '=', from as int, 0);
        }
        if eq == v.len() {
            assert(before + challenge_params(rest) =~= before);
            return results;
        }
        let start = word_start(&v, from, eq);
        let key = text_between(&v, start, eq);
        let ghost key_text = word_suffix(rest.take(eq - from));
        assert(rest.take(eq - from) =~= v@.subrange(from as int, eq as int));
        let ghost after = rest.skip(eq - from + 1);
        assert(after =~= v@.skip(eq + 1));
        if eq + 1 < v.len() && v[eq + 1] == '"' {
            let close = index_of(&v, '"', eq + 2);
            proof {
                lemma_first_index_skip(v@, '"', eq + 1, 1);
            }
            if close == v.len() {
                assert(before + challenge_params(rest) =~= before);
                return results;
            }
            let value = text_between(&v, eq + 2, close);
            assert(after.subrange(1, close - eq - 1) =~= v@.subrange(eq + 2, close as int));
            assert(after.skip(close - eq) =~= v@.skip(close + 1));
            results.push((key, value));
            assert(pair_texts(results@) =~= before.push((key_text, value@)));
            assert(before + (seq![(key_text, value@)] + challenge_params(v@.skip(close + 1))) =~= pair_texts(results@)
                + challenge_params(v@.skip(close + 1)));
            from = close + 1;
        } else {
            let end = bare_end(&v, eq + 1);
            let value = text_between(&v, eq + 1, end);
            assert(after.take(end - eq - 1) =~= v@.subrange(eq + 1, end as int));
            assert(after.skip(end - eq - 1) =~= v@.skip(end as int));
            if start < eq {
                results.push((key, value));
                assert(pair_texts(results@) =~= before.push((key_text, value@)));
                assert(before + (seq![(key_text, value@)] + challenge_params(v@.skip(end as int))) =~= pair_texts(
                    results@,
                ) + challenge_params(v@.skip(end as int)));
            }
            from = end;
        }
    }
}

/// The value of the first parameter of that name.
pub open spec fn param_value(pairs: Seq<(Seq<char>, Seq<char>)>, key: Seq<char>) -> Option<Seq<char>>
    decreases pairs.len(),
{
    if pairs.len() == 0 {
        None
    } else if pairs[0].0 == key {
        Some(pairs[0].1)
    } else {
        param_value(pairs.skip(1), key)
    }
}

/// The value of the first parameter of that name.
pub fn get_www_auth_param(pairs: &Vec<(String, String)>, key: &str) -> (value: Option<String>)
    ensures
        opt_text(value) == param_value(pair_texts(pairs@), key@),
{
    let ghost all = pair_texts(pairs@);
    let mut i: usize = 0;
    assert(all.skip(0) =~= all);
    while i < pairs.len()
        invariant
            i <= pairs@.len(),
            all == pair_texts(pairs@),
            param_value(all, key@) == param_value(all.skip(i as int), key@),
        decreases pairs@.len() - i,
    {
        assert(all.skip(i as int)[0] == all[i as int]);
        if same_text(pairs[i].0.as_str(), key) {
            return Some(pairs[i].1.clone());
        }
        assert(all.skip(i as int).skip(1) =~= all.skip(i + 1));
        i += 1;
    }
    None
}

/// The challenge that points at a server's resource metadata.
pub open spec fn metadata_challenge(url: Seq<char>) -> Seq<char> {
    "Bearer resource_metadata=\""@ + url + "\""@
}

/// A challenge that points at resource metadata is read back as exactly that pointer, for every
/// URL without a double quote.
pub proof fn metadata_challenge_reads_back(url: Seq<char>)
    requires
        !url.contains('"'),
    ensures
        challenge_params(metadata_challenge(url)) == seq![("resource_metadata"@, url)],
        param_value(challenge_params(metadata_challenge(url)), "resource_metadata"@) == Some(url),
{
    reveal_strlit("Bearer resource_metadata=\"");
    reveal_strlit("resource_metadata");
    reveal_strlit("\"");
    let header = metadata_challenge(url);
    lemma_first_index_is(header, '=', 0, 24);
    let head = header.take(24);
    lemma_word_suffix_is(head, 7);
    assert(head.skip(7) =~= "resource_metadata"@);
    let after = header.skip(25);
    assert(after[0] == '"');
    let close = (1 + url.len()) as int;
    assert forall|j: int| 1 <= j < close implies after[j] != '"' by {
        assert(after[j] == url[j - 1]);
    }
    lemma_first_index_is(after, '"', 1, close);
    assert(after.subrange(1, close) =~= url);
    assert(after.skip(close + 1) =~= Seq::<char>::empty());
    assert(challenge_params(Seq::<char>::empty()) =~= Seq::empty());
    assert(challenge_params(header) =~= seq![("resource_metadata"@, url)]);
}

proof fn lemma_first_index_is(text: Seq<char>, c: char, from: int, at: int)
    requires
        0 <= from <= at <= text.len(),
        at < text.len() ==> text[at] == c,
        forall|j: int| from <= j < at ==> text[j] != c,
    ensures
        first_index(text, c, from) == at,
    decreases at - from,
{
    if from < at {
        lemma_first_index_is(text, c, from + 1, at);
    }
}

proof fn lemma_word_suffix_is(text: Seq<char>, start: int)
    requires
        0 <= start <= text.len(),
        start > 0 ==> !is_word(text[start - 1]),
        forall|j: int| start <= j < text.len() ==> is_word(text[j]),
    ensures
        word_suffix(text) == text.skip(start),
    decreases text.len() - start,
{
    if start < text.len() {
        let head = text.drop_last();
        lemma_word_suffix_is(head, start);
        assert(head.skip(start).push(text.last()) =~= text.skip(start));
    } else {
        assert(text.skip(start) =~= Seq::<char>::empty());
        if text.len() > 0 {
            assert(text.last() == text[start - 1]);
        }
    }
}

// -- URLs.

/// Where the pages of this client live.
pub open spec fn client_origin(base_url: Seq<char>) -> Seq<char> {
    trimmed_end(base_url, '/') + "/mcpclient"@
}

/// Where the pages of this client live.
pub fn local_origin(base_url: &str) -> (r: String)
    ensures
        r@ == client_origin(base_url@),
{
    let base = trim_end_char(base_url, '/');
    joined(base.as_str(), "/mcpclient")
}

/// Where a provider sends the user back to.
pub open spec fn callback_url(base_url: Seq<char>) -> Seq<char> {
    client_origin(base_url) + "/oauth/callback"@
}

/// Where a provider sends the user back to.
pub fn oauth_redirect(base_url: &str) -> (r: String)
    ensures
        r@ == callback_url(base_url@),
{
    joined(local_origin(base_url).as_str(), "/oauth/callback")
}

/// A server URL as typed, without white space around it and with a scheme.
pub open spec fn normalized_url(url: Seq<char>) -> Seq<char> {
    if "http"@.is_prefix_of(trimmed(url)) {
        trimmed(url)
    } else {
        "https://"@ + trimmed(url)
    }
}

/// A server URL as typed, without white space around it and with a scheme.
pub fn normalize_mcp_url(url: &str) -> (r: String)
    ensures
        r@ == normalized_url(url@),
{
    let s = trim(url);
    if has_prefix(s.as_str(), "http") {
        s
    } else {
        joined("https://", s.as_str())
    }
}

/// Whether the text of a failure to connect says that the server wants authorization.
pub open spec fn wants_authorization(error: Seq<char>) -> bool {
    let low = lowercase(error);
    ||| contains_part(error, "401"@)
    ||| contains_part(low, "unauthorized"@)
    ||| contains_part(low, "authentication required"@)
    ||| (contains_part(low, "oauth"@) && contains_part(low, "connect"@))
}

/// Whether the text of a failure to connect says that the server wants authorization.
pub fn is_auth_required(error: &str) -> (r: bool)
    ensures
        r == wants_authorization(error@),
{
    let low = error.to_lowercase();
    has_part(error, "401") || has_part(low.as_str(), "unauthorized") || has_part(
        low.as_str(),
        "authentication required",
    ) || (has_part(low.as_str(), "oauth") && has_part(low.as_str(), "connect"))
}

// -- PKCE.

/// Whether a text is what so many bytes are in base64url.
pub open spec fn is_drawn(text: Seq<char>, count: nat) -> bool {
    exists|bytes: Seq<u8>| bytes.len() == count && text == #[trigger] base64url(bytes)
}

/// A verifier and its challenge from thirty-two bytes.
pub fn pkce_from(bytes: &Vec<u8>) -> (r: (String, String))
    requires
        bytes@.len() == 32,
    ensures
        r.0@ == base64url(bytes@),
        r.0@.len() == 43,
        r.1@ == s256_challenge(r.0@),
{
    let verifier = b64url(bytes.as_slice());
    let challenge = code_challenge(verifier.as_str());
    (verifier, challenge)
}

/// A fresh verifier of forty-three characters, and its challenge by method S256.
pub fn pkce_pair() -> (r: (String, String))
    ensures
        r.0@.len() == 43,
        r.1@ == s256_challenge(r.0@),
        is_drawn(r.0@, 32),
{
    let bytes = random_bytes(32);
    pkce_from(&bytes)
}

/// A fresh state value of twenty-two characters.
pub fn random_state() -> (s: String)
    ensures
        s@.len() == 22,
        is_drawn(s@, 16),
{
    let bytes = random_bytes(16);
    b64url(bytes.as_slice())
}

/// The callback lies below the base URL, which may end in slashes.
pub proof fn the_callback_lies_below_the_base(base_url: Seq<char>)
    ensures
        callback_url(base_url) == trimmed_end(base_url, '/') + "/mcpclient/oauth/callback"@,
        client_origin(base_url) == trimmed_end(base_url, '/') + "/mcpclient"@,
{
    reveal_strlit("/mcpclient");
    reveal_strlit("/oauth/callback");
    reveal_strlit("/mcpclient/oauth/callback");
    assert(callback_url(base_url) =~= trimmed_end(base_url, '/') + "/mcpclient/oauth/callback"@);
}

// -- What holds of challenges.

/// A parameter with its value in double quotes is read as it is written, whatever the value holds but a
/// double quote, and the reading goes on behind it. What stands before the name is passed over.
pub proof fn a_quoted_parameter_is_read(before: Seq<char>, name: Seq<char>, value: Seq<char>, more: Seq<char>)
    requires
        !before.contains('='),
        before.len() > 0 ==> !is_word(before.last()),
        forall|i: int| 0 <= i < name.len() ==> is_word(#[trigger] name[i]),
        !value.contains('"'),
    ensures
        challenge_params(before + name + seq!['=', '"'] + value + seq!['"'] + more) == seq![(name, value)]
            + challenge_params(more),
{
    let header = before + name + seq!['=', '"'] + value + seq!['"'] + more;
    let eq = (before.len() + name.len()) as int;
    assert(header[eq] == '=');
    assert forall|j: int| 0 <= j < eq implies header[j] != '=' by {
        if j < before.len() {
            assert(header[j] == before[j]);
        } else {
            assert(header[j] == name[j - before.len()]);
            assert(!is_word('='));
        }
    }
    lemma_first_index_is(header, '=', 0, eq);
    let head = header.take(eq);
    assert(head =~= before + name);
    assert forall|j: int| before.len() <= j < head.len() implies is_word(head[j]) by {
        assert(head[j] == name[j - before.len()]);
    }
    lemma_word_suffix_is(head, before.len() as int);
    assert(head.skip(before.len() as int) =~= name);
    let after = header.skip(eq + 1);
    assert(after[0] == '"');
    let close = (1 + value.len()) as int;
    assert(after[close] == '"');
    assert forall|j: int| 1 <= j < close implies after[j] != '"' by {
        assert(after[j] == value[j - 1]);
    }
    lemma_first_index_is(after, '"', 1, close);
    assert(after.subrange(1, close) =~= value);
    assert(after.skip(close + 1) =~= more);
}

/// A parameter whose value is not in double quotes is read up to white space or a comma.
pub proof fn a_bare_parameter_is_read(before: Seq<char>, name: Seq<char>, value: Seq<char>, more: Seq<char>)
    requires
        !before.contains('='),
        before.len() > 0 ==> !is_word(before.last()),
        name.len() > 0,
        forall|i: int| 0 <= i < name.len() ==> is_word(#[trigger] name[i]),
        value.len() > 0 ==> value[0] != '"',
        forall|i: int| 0 <= i < value.len() ==> !is_space(#[trigger] value[i]) && value[i] != ',',
        more.len() > 0 ==> is_space(more[0]) || more[0] == ',',
    ensures
        challenge_params(before + name + seq!['='] + value + more) == seq![(name, value)] + challenge_params(more),
{
    let header = before + name + seq!['='] + value + more;
    let eq = (before.len() + name.len()) as int;
    assert(header[eq] == '=');
    assert forall|j: int| 0 <= j < eq implies header[j] != '=' by {
        if j < before.len() {
            assert(header[j] == before[j]);
        } else {
            assert(header[j] == name[j - before.len()]);
            assert(!is_word('='));
        }
    }
    lemma_first_index_is(header, '=', 0, eq);
    let head = header.take(eq);
    assert(head =~= before + name);
    assert forall|j: int| before.len() <= j < head.len() implies is_word(head[j]) by {
        assert(head[j] == name[j - before.len()]);
    }
    lemma_word_suffix_is(head, before.len() as int);
    assert(head.skip(before.len() as int) =~= name);
    let after = header.skip(eq + 1);
    assert(after =~= value + more);
    if value.len() == 0 && more.len() > 0 {
        assert(after[0] == more[0]);
    }
    lemma_bare_length_is(value, more);
    assert(after.take(value.len() as int) =~= value);
    assert(after.skip(value.len() as int) =~= more);
}

proof fn lemma_bare_length_is(value: Seq<char>, more: Seq<char>)
    requires
        forall|i: int| 0 <= i < value.len() ==> !is_space(#[trigger] value[i]) && value[i] != ',',
        more.len() > 0 ==> is_space(more[0]) || more[0] == ',',
    ensures
        bare_length(value + more) == value.len(),
    decreases value.len(),
{
    let text = value + more;
    if value.len() > 0 {
        let fewer = value.skip(1);
        assert forall|i: int| 0 <= i < fewer.len() implies !is_space(#[trigger] fewer[i]) && fewer[i] != ',' by {
            assert(fewer[i] == value[i + 1]);
        }
        lemma_bare_length_is(fewer, more);
        assert(text[0] == value[0]);
        assert(text.skip(1) =~= fewer + more);
    } else {
        assert(text =~= more);
    }
}

/// The first parameter of a name counts; without one there is none.
pub proof fn the_first_parameter_counts(
    before: Seq<(Seq<char>, Seq<char>)>,
    name: Seq<char>,
    value: Seq<char>,
    after: Seq<(Seq<char>, Seq<char>)>,
)
    requires
        forall|i: int| 0 <= i < before.len() ==> (#[trigger] before[i]).0 != name,
    ensures
        param_value(before + seq![(name, value)] + after, name) == Some(value),
        param_value(before, name) is None,
    decreases before.len(),
{
    let all = before + seq![(name, value)] + after;
    if before.len() > 0 {
        let fewer = before.skip(1);
        assert forall|i: int| 0 <= i < fewer.len() implies (#[trigger] fewer[i]).0 != name by {
            assert(fewer[i] == before[i + 1]);
        }
        the_first_parameter_counts(fewer, name, value, after);
        assert(all[0] == before[0]);
        assert(all.skip(1) =~= fewer + seq![(name, value)] + after);
    } else {
        assert(all[0] == (name, value));
    }
}

/// A server URL has a scheme, and keeps what was typed, but for white space around it; normalizing it once
/// more changes nothing.
pub proof fn normalized_urls_have_a_scheme(url: Seq<char>)
    ensures
        "http"@.is_prefix_of(normalized_url(url)),
        trimmed(url).is_suffix_of(normalized_url(url)),
        "http"@.is_prefix_of(trimmed(url)) ==> normalized_url(url) == trimmed(url),
        !"http"@.is_prefix_of(trimmed(url)) ==> normalized_url(url) == "https://"@ + trimmed(url),
        normalized_url(normalized_url(url)) == normalized_url(url),
{
    reveal_strlit("http");
    reveal_strlit("https://");
    only_the_spaces_around_are_trimmed(url);
    let t = trimmed(url);
    let n = normalized_url(url);
    assert(t.subrange(0, t.len() as int) =~= t);
    if !"http"@.is_prefix_of(t) {
        assert(n.subrange(0, 4) =~= "http"@);
        assert(n.subrange(n.len() - t.len(), n.len() as int) =~= t);
        assert(n.first() == 'h');
        if t.len() == 0 {
            assert(n.last() == '/');
        } else {
            assert(n.last() == t.last());
        }
    }
    trimmed_texts_stay(n);
}

/// A failure asks for authorization wherever the number of that refusal, or one of its wordings, stands in
/// it; and only there.
pub proof fn refusals_ask_for_authorization(before: Seq<char>, after: Seq<char>)
    ensures
        wants_authorization(before + "401"@ + after),
        all_ascii(before) && all_ascii(after) ==> {
            &&& wants_authorization(before + "unauthorized"@ + after)
            &&& wants_authorization(before + "Unauthorized"@ + after)
            &&& wants_authorization(before + "authentication required"@ + after)
            &&& wants_authorization(before + "Authentication required"@ + after)
        },
{
    lemma_contains_between(before, "401"@, after);
    if all_ascii(before) && all_ascii(after) {
        reveal_strlit("unauthorized");
        reveal_strlit("Unauthorized");
        reveal_strlit("authentication required");
        reveal_strlit("Authentication required");
        let a = "unauthorized"@;
        let b = "authentication required"@;
        lemma_lowered_between(before, "unauthorized"@, a, after);
        lemma_lowered_between(before, "Unauthorized"@, a, after);
        lemma_lowered_between(before, "authentication required"@, b, after);
        lemma_lowered_between(before, "Authentication required"@, b, after);
    }
}

/// A failure in plain text without any of the wordings does not ask for authorization.
pub proof fn other_failures_do_not_ask_for_authorization(error: Seq<char>)
    requires
        all_ascii(error),
        !contains_part(error, "401"@),
        !contains_part(ascii_lower(error), "unauthorized"@),
        !contains_part(ascii_lower(error), "authentication required"@),
        !contains_part(ascii_lower(error), "oauth"@) || !contains_part(ascii_lower(error), "connect"@),
    ensures
        !wants_authorization(error),
{
}

proof fn lemma_lowered_between(before: Seq<char>, part: Seq<char>, low: Seq<char>, after: Seq<char>)
    requires
        all_ascii(before),
        all_ascii(after),
        all_ascii(part),
        ascii_lower(part) =~= low,
    ensures
        contains_part(lowercase(before + part + after), low),
{
    let text = before + part + after;
    assert forall|i: int| 0 <= i < text.len() implies (#[trigger] text[i] as u32) < 128 by {
        if i < before.len() {
            assert(text[i] == before[i]);
        } else if i < before.len() + part.len() {
            assert(text[i] == part[i - before.len()]);
        } else {
            assert(text[i] == after[i - before.len() - part.len()]);
        }
    }
    assert(ascii_lower(text) =~= ascii_lower(before) + low + ascii_lower(after));
    lemma_contains_between(ascii_lower(before), low, ascii_lower(after));
}

/// A value whose quotes are never closed ends the reading: nothing is read of it.
pub proof fn an_open_quote_ends_the_reading(before: Seq<char>, value: Seq<char>)
    requires
        !before.contains('='),
        !value.contains('"'),
    ensures
        challenge_params(before + seq!['=', '"'] + value).len() == 0,
{
    let header = before + seq!['=', '"'] + value;
    let eq = before.len() as int;
    assert(header[eq] == '=');
    assert forall|j: int| 0 <= j < eq implies header[j] != '=' by {
        assert(header[j] == before[j]);
    }
    lemma_first_index_is(header, '=', 0, eq);
    let after = header.skip(eq + 1);
    assert(after[0] == '"');
    assert(after.len() == value.len() + 1);
    assert forall|j: int| 1 <= j < after.len() implies after[j] != '"' by {
        assert(after[j] == value[j - 1]);
    }
    lemma_first_index_is(after, '"', 1, after.len() as int);
}

/// The name of a parameter begins behind any ASCII sign that is no letter, no digit and no underscore, such as
/// a hyphen.
pub proof fn names_begin_behind_any_other_sign(
    before: Seq<char>,
    sign: char,
    name: Seq<char>,
    value: Seq<char>,
    more: Seq<char>,
)
    requires
        !before.contains('='),
        (sign as u32) < 128 && sign != '=' && sign != '_',
        !('a' <= sign && sign <= 'z') && !('A' <= sign && sign <= 'Z') && !('0' <= sign && sign <= '9'),
        forall|i: int|
            0 <= i < name.len() ==> ('a' <= #[trigger] name[i] && name[i] <= 'z') || ('A' <= name[i] && name[i] <= 'Z')
                || ('0' <= name[i] && name[i] <= '9') || name[i] == '_',
        !value.contains('"'),
    ensures
        challenge_params(before + seq![sign] + name + seq!['=', '"'] + value + seq!['"'] + more) == seq![(name, value)]
            + challenge_params(more),
{
    let front = before + seq![sign];
    assert(front.last() == sign);
    assert(!front.contains('=')) by {
        if front.contains('=') {
            let at = choose|at: int| 0 <= at < front.len() && front[at] == '=';
            assert(before[at] == '=');
        }
    }
    a_quoted_parameter_is_read(front, name, value, more);
}

} // verus!
