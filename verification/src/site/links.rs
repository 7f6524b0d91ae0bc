//! What the homepage links to, and what it does not.
use vstd::prelude::*;
use vstd::string::*;

use crate::site::pages::{
    debug_item, debug_items, home_head, home_page, link_target, profile_item, profile_items, profile_list,
    GOOGLE_ANALYTICS_CODE, HOME_BODY, HOME_END, HOME_SCRIPTS, HOME_SEGMENT, HOME_START, NAME, SEGMENT_KEY,
};
use crate::text::{contains_part, occurs_at};

verus! {

// -- What holds of the homepage.

/// The debug page is the plain one with the debug links put in before the end of the list, in this
/// order. The plain page has no debug link. Both pages link to the address directly, and neither by
/// way of the redirect; of the debug page that holds as long as the revision does not spell such a
/// link out itself.
pub proof fn the_debug_page_adds_its_links(revision: Seq<char>)
    ensures
        home_page(false, revision) == home_head() + HOME_END@,
        home_page(true, revision) == home_head() + debug_items(revision) + HOME_END@,
        "</ul>\n"@.is_prefix_of(HOME_END@),
        (debug_item("/passkey"@, "Passkey"@) + debug_item("/login"@, "OAuth2"@) + debug_item(
            "/mcpclient"@,
            "MCP Client"@,
        ) + debug_item("/anthropiclimits"@, "Anthropic Limits"@)).is_prefix_of(debug_items(revision)),
        !contains_part(home_page(false, revision), "class=\"debug\""@),
        contains_part(home_page(false, revision), "<a href=\"mailto:dima@current.ai\""@),
        contains_part(home_page(true, revision), "<a href=\"mailto:dima@current.ai\""@),
        !contains_part(home_page(false, revision), "/r?url=mailto:"@),
        !contains_part(revision, "/r?url=mailto:"@) ==> !contains_part(home_page(true, revision), "/r?url=mailto:"@),
{
    let head = home_head();
    let plain = home_page(false, revision);
    assert(plain =~= head + HOME_END@);
    reveal_strlit("</ul>\n");
    reveal_strlit("</ul>\n</div>\n</div>\n</body>\n</html>\n");
    assert(HOME_END@.take(6) =~= "</ul>\n"@);
    let links = debug_item("/passkey"@, "Passkey"@) + debug_item("/login"@, "OAuth2"@) + debug_item(
        "/mcpclient"@,
        "MCP Client"@,
    ) + debug_item("/anthropiclimits"@, "Anthropic Limits"@);
    assert(debug_items(revision).take(links.len() as int) =~= links);
    lemma_address_is_linked();
    let at = choose|at: int| occurs_at(head, "<a href=\"mailto:dima@current.ai\""@, at);
    lemma_still_occurs(head, HOME_END@, "<a href=\"mailto:dima@current.ai\""@, at);
    lemma_still_occurs(head, debug_items(revision), "<a href=\"mailto:dima@current.ai\""@, at);
    lemma_still_occurs(
        head + debug_items(revision),
        HOME_END@,
        "<a href=\"mailto:dima@current.ai\""@,
        at,
    );
    lemma_head_is_clean();
    lemma_end_is_clean();
    lemma_read_on(true, head, HOME_END@, 0, 0);
    lemma_clean_of_debug(plain);
    lemma_clean_of_mail(true, plain);
    if !contains_part(revision, "/r?url=mailto:"@) {
        lemma_debug_page_is_clean(revision);
    }
}

// -- Reading a page.

/// How far into a link that a page must not have the next character leads: 1 is behind `=`, 2 is
/// behind `="`, and 3 is there. The link is by way of the redirect to an address, which has `=m` in
/// it, or, where `strict`, a debug link, which has `="d`.
spec fn after(strict: bool, state: int, c: char) -> int {
    if state == 3 || (state == 1 && c == 'm') || (strict && state == 2 && c == 'd') {
        3
    } else if state == 1 && c == '"' {
        2
    } else if c == '=' {
        1
    } else {
        0
    }
}

/// How far the text leads from a position on.
spec fn read(strict: bool, text: Seq<char>, at: int, state: int) -> int
    decreases text.len() - at,
{
    if 0 <= at < text.len() {
        read(strict, text, at + 1, after(strict, state, text[at]))
    } else {
        state
    }
}

/// Reading goes on behind a text as at the beginning of the next one.
proof fn lemma_read_behind(strict: bool, a: Seq<char>, b: Seq<char>, at: int, state: int)
    requires
        0 <= at <= b.len(),
    ensures
        read(strict, a + b, a.len() + at, state) == read(strict, b, at, state),
    decreases b.len() - at,
{
    if at < b.len() {
        lemma_read_behind(strict, a, b, at + 1, after(strict, state, b[at]));
    }
}

/// Two texts are read one behind the other.
proof fn lemma_read_on(strict: bool, a: Seq<char>, b: Seq<char>, at: int, state: int)
    requires
        0 <= at <= a.len(),
    ensures
        read(strict, a + b, at, state) == read(strict, b, 0, read(strict, a, at, state)),
    decreases a.len() - at,
{
    if at < a.len() {
        lemma_read_on(strict, a, b, at + 1, after(strict, state, a[at]));
    } else {
        lemma_read_behind(strict, a, b, 0, state);
    }
}

/// What was found stays found.
proof fn lemma_found_stays(strict: bool, text: Seq<char>, at: int)
    ensures
        read(strict, text, at, 3) == 3,
    decreases text.len() - at,
{
    if 0 <= at < text.len() {
        lemma_found_stays(strict, text, at + 1);
    }
}

/// `=m` is found wherever it stands.
proof fn lemma_mail_is_found(strict: bool, text: Seq<char>, at: int, state: int, i: int)
    requires
        0 <= at <= i,
        i + 1 < text.len(),
        text[i] == '=',
        text[i + 1] == 'm',
    ensures
        read(strict, text, at, state) == 3,
    decreases i - at,
{
    if at < i {
        lemma_mail_is_found(strict, text, at + 1, after(strict, state, text[at]), i);
    } else {
        reveal_with_fuel(read, 3);
        lemma_found_stays(strict, text, at + 2);
    }
}

/// `="d` is found wherever it stands.
proof fn lemma_debug_is_found(text: Seq<char>, at: int, state: int, i: int)
    requires
        0 <= at <= i,
        i + 2 < text.len(),
        text[i] == '=',
        text[i + 1] == '"',
        text[i + 2] == 'd',
    ensures
        read(true, text, at, state) == 3,
    decreases i - at,
{
    if at < i {
        lemma_debug_is_found(text, at + 1, after(true, state, text[at]), i);
    } else {
        reveal_with_fuel(read, 4);
        lemma_found_stays(true, text, at + 3);
    }
}

/// Who finds nothing at all finds no link to an address either.
proof fn lemma_strict_is_more(text: Seq<char>, at: int, state: int)
    requires
        read(true, text, at, state) != 3,
    ensures
        read(false, text, at, state) == read(true, text, at, state),
    decreases text.len() - at,
{
    if 0 <= at < text.len() {
        if after(true, state, text[at]) == 3 {
            lemma_found_stays(true, text, at + 1);
        }
        lemma_strict_is_more(text, at + 1, after(true, state, text[at]));
    }
}

/// A page on which nothing is found does not link to an address by way of the redirect.
proof fn lemma_clean_of_mail(strict: bool, page: Seq<char>)
    requires
        read(strict, page, 0, 0) != 3,
    ensures
        !contains_part(page, "/r?url=mailto:"@),
{
    reveal_strlit("/r?url=mailto:");
    if contains_part(page, "/r?url=mailto:"@) {
        let at = choose|at: int| occurs_at(page, "/r?url=mailto:"@, at);
        let part = page.subrange(at, at + 14);
        assert(part[6] == '=' && part[7] == 'm');
        lemma_mail_is_found(strict, page, 0, 0, at + 6);
    }
}

/// A page on which nothing is found has no debug link.
proof fn lemma_clean_of_debug(page: Seq<char>)
    requires
        read(true, page, 0, 0) != 3,
    ensures
        !contains_part(page, "class=\"debug\""@),
{
    reveal_strlit("class=\"debug\"");
    if contains_part(page, "class=\"debug\""@) {
        let at = choose|at: int| occurs_at(page, "class=\"debug\""@, at);
        let part = page.subrange(at, at + 13);
        assert(part[5] == '=' && part[6] == '"' && part[7] == 'd');
        lemma_debug_is_found(page, 0, 0, at + 5);
    }
}

/// What occurs in a text still occurs when more comes behind it.
proof fn lemma_still_occurs(text: Seq<char>, more: Seq<char>, part: Seq<char>, at: int)
    requires
        occurs_at(text, part, at),
    ensures
        occurs_at(text + more, part, at),
{
    assert((text + more).subrange(at, at + part.len()) =~= part);
}

/// What occurs in a text still occurs when more comes before it.
proof fn lemma_occurs_later(more: Seq<char>, text: Seq<char>, part: Seq<char>, at: int)
    requires
        occurs_at(text, part, at),
    ensures
        occurs_at(more + text, part, more.len() + at),
{
    assert((more + text).subrange(more.len() + at, more.len() + at + part.len()) =~= part);
}

// -- The parts of the homepage.

proof fn lemma_start_is_clean()
    ensures
        read(true, HOME_START@, 0, 0) == 0,
{
    reveal_strlit("<!DOCTYPE html>\n<html lang=\"en\">\n<head>\n<meta charset=\"utf-8\" />\n<meta name=\"viewport\" content=\"width=device-width, initial-scale=1\" />\n<meta name=\"google-site-verification\" content=\"mQFXwDjB1tqPjGWoaUqup5v9b7ZOUZHdL3aAPOfpLic\" />\n<title>");
    assert(read(true, HOME_START@, 0, 0) == read(true, HOME_START@, 35, 0)) by {
        reveal_with_fuel(read, 36);
    }
    assert(read(true, HOME_START@, 35, 0) == read(true, HOME_START@, 70, 0)) by {
        reveal_with_fuel(read, 36);
    }
    assert(read(true, HOME_START@, 70, 0) == read(true, HOME_START@, 105, 0)) by {
        reveal_with_fuel(read, 36);
    }
    assert(read(true, HOME_START@, 105, 0) == read(true, HOME_START@, 140, 0)) by {
        reveal_with_fuel(read, 36);
    }
    assert(read(true, HOME_START@, 140, 0) == read(true, HOME_START@, 175, 0)) by {
        reveal_with_fuel(read, 36);
    }
    assert(read(true, HOME_START@, 175, 0) == read(true, HOME_START@, 210, 0)) by {
        reveal_with_fuel(read, 36);
    }
    assert(read(true, HOME_START@, 210, 0) == read(true, HOME_START@, 238, 0)) by {
        reveal_with_fuel(read, 29);
    }
}

proof fn lemma_name_is_clean()
    ensures
        read(true, NAME@, 0, 0) == 0,
{
    reveal_strlit("Dima Korolev");
    assert(read(true, NAME@, 0, 0) == 0) by {
        reveal_with_fuel(read, 13);
    }
}

proof fn lemma_scripts_is_clean()
    ensures
        read(true, HOME_SCRIPTS@, 0, 0) == 0,
{
    reveal_strlit("</title>\n<link rel=\"icon\" type=\"image/svg+xml\" href=\"/static/favicon.svg\" sizes=\"any\" />\n<link href=\"static/css.css\" rel=\"stylesheet\" />\n<script type=\"text/javascript\">\n  var _gaq = _gaq || [];\n  _gaq.push(['_setAccount', '");
    assert(read(true, HOME_SCRIPTS@, 0, 0) == read(true, HOME_SCRIPTS@, 35, 0)) by {
        reveal_with_fuel(read, 36);
    }
    assert(read(true, HOME_SCRIPTS@, 35, 0) == read(true, HOME_SCRIPTS@, 70, 0)) by {
        reveal_with_fuel(read, 36);
    }
    assert(read(true, HOME_SCRIPTS@, 70, 0) == read(true, HOME_SCRIPTS@, 105, 0)) by {
        reveal_with_fuel(read, 36);
    }
    assert(read(true, HOME_SCRIPTS@, 105, 0) == read(true, HOME_SCRIPTS@, 140, 0)) by {
        reveal_with_fuel(read, 36);
    }
    assert(read(true, HOME_SCRIPTS@, 140, 0) == read(true, HOME_SCRIPTS@, 175, 0)) by {
        reveal_with_fuel(read, 36);
    }
    assert(read(true, HOME_SCRIPTS@, 175, 0) == read(true, HOME_SCRIPTS@, 210, 0)) by {
        reveal_with_fuel(read, 36);
    }
    assert(read(true, HOME_SCRIPTS@, 210, 0) == read(true, HOME_SCRIPTS@, 223, 0)) by {
        reveal_with_fuel(read, 14);
    }
}

proof fn lemma_account_is_clean()
    ensures
        read(true, GOOGLE_ANALYTICS_CODE@, 0, 0) == 0,
{
    reveal_strlit("UA-46065883-1");
    assert(read(true, GOOGLE_ANALYTICS_CODE@, 0, 0) == 0) by {
        reveal_with_fuel(read, 14);
    }
}

#[verifier::rlimit(60)]
proof fn lemma_segment_is_clean()
    ensures
        read(true, HOME_SEGMENT@, 0, 0) == 0,
{
    reveal_strlit("']);\n  _gaq.push(['_trackPageview']);\n\n  (function() {\n    var ga = document.createElement('script'); ga.type = 'text/javascript'; ga.async = true;\n    ga.src = ('https:' == document.location.protocol ? 'https://' : 'http://') + 'stats.g.doubleclick.net/dc.js';\n    var s = document.getElementsByTagName('script')[0]; s.parentNode.insertBefore(ga, s);\n  })();\n</script>\n<script>\n  !function(){var analytics=window.analytics=window.analytics||[];if(!analytics.initialize)if(analytics.invoked)window.console&&console.error&&console.error(\"Segment snippet included twice.\");else{analytics.invoked=!0;analytics.methods=[\"trackSubmit\",\"trackClick\",\"trackLink\",\"trackForm\",\"pageview\",\"identify\",\"reset\",\"group\",\"track\",\"ready\",\"alias\",\"debug\",\"page\",\"once\",\"off\",\"on\"];analytics.factory=function(t){return function(){var e=Array.prototype.slice.call(arguments);e.unshift(t);analytics.push(e);return analytics}};for(var t=0;t<analytics.methods.length;t++){var e=analytics.methods[t];analytics[e]=analytics.factory(e)}analytics.load=function(t){var e=document.createElement(\"script\");e.type=\"text/javascript\";e.async=!0;e.src=(\"https:\"===document.location.protocol?\"https://\":\"http://\")+\"cdn.segment.com/analytics.js/v1/\"+t+\"/analytics.min.js\";var n=document.getElementsByTagName(\"script\")[0];n.parentNode.insertBefore(e,n)};analytics.SNIPPET_VERSION=\"4.0.0\";\n  analytics.load(\"");
    assert(read(true, HOME_SEGMENT@, 0, 0) == read(true, HOME_SEGMENT@, 35, 0)) by {
        reveal_with_fuel(read, 36);
    }
    assert(read(true, HOME_SEGMENT@, 35, 0) == read(true, HOME_SEGMENT@, 70, 0)) by {
        reveal_with_fuel(read, 36);
    }
    assert(read(true, HOME_SEGMENT@, 70, 0) == read(true, HOME_SEGMENT@, 105, 0)) by {
        reveal_with_fuel(read, 36);
    }
    assert(read(true, HOME_SEGMENT@, 105, 0) == read(true, HOME_SEGMENT@, 140, 0)) by {
        reveal_with_fuel(read, 36);
    }
    assert(read(true, HOME_SEGMENT@, 140, 0) == read(true, HOME_SEGMENT@, 175, 0)) by {
        reveal_with_fuel(read, 36);
    }
    assert(read(true, HOME_SEGMENT@, 175, 0) == read(true, HOME_SEGMENT@, 210, 0)) by {
        reveal_with_fuel(read, 36);
    }
    assert(read(true, HOME_SEGMENT@, 210, 0) == read(true, HOME_SEGMENT@, 245, 0)) by {
        reveal_with_fuel(read, 36);
    }
    assert(read(true, HOME_SEGMENT@, 245, 0) == read(true, HOME_SEGMENT@, 280, 0)) by {
        reveal_with_fuel(read, 36);
    }
    assert(read(true, HOME_SEGMENT@, 280, 0) == read(true, HOME_SEGMENT@, 315, 0)) by {
        reveal_with_fuel(read, 36);
    }
    assert(read(true, HOME_SEGMENT@, 315, 0) == read(true, HOME_SEGMENT@, 350, 0)) by {
        reveal_with_fuel(read, 36);
    }
    assert(read(true, HOME_SEGMENT@, 350, 0) == read(true, HOME_SEGMENT@, 385, 0)) by {
        reveal_with_fuel(read, 36);
    }
    assert(read(true, HOME_SEGMENT@, 385, 0) == read(true, HOME_SEGMENT@, 420, 0)) by {
        reveal_with_fuel(read, 36);
    }
    assert(read(true, HOME_SEGMENT@, 420, 0) == read(true, HOME_SEGMENT@, 455, 0)) by {
        reveal_with_fuel(read, 36);
    }
    assert(read(true, HOME_SEGMENT@, 455, 0) == read(true, HOME_SEGMENT@, 490, 0)) by {
        reveal_with_fuel(read, 36);
    }
    assert(read(true, HOME_SEGMENT@, 490, 0) == read(true, HOME_SEGMENT@, 525, 0)) by {
        reveal_with_fuel(read, 36);
    }
    assert(read(true, HOME_SEGMENT@, 525, 0) == read(true, HOME_SEGMENT@, 560, 0)) by {
        reveal_with_fuel(read, 36);
    }
    assert(read(true, HOME_SEGMENT@, 560, 0) == read(true, HOME_SEGMENT@, 595, 0)) by {
        reveal_with_fuel(read, 36);
    }
    assert(read(true, HOME_SEGMENT@, 595, 0) == read(true, HOME_SEGMENT@, 630, 0)) by {
        reveal_with_fuel(read, 36);
    }
    assert(read(true, HOME_SEGMENT@, 630, 0) == read(true, HOME_SEGMENT@, 665, 0)) by {
        reveal_with_fuel(read, 36);
    }
    assert(read(true, HOME_SEGMENT@, 665, 0) == read(true, HOME_SEGMENT@, 700, 0)) by {
        reveal_with_fuel(read, 36);
    }
    assert(read(true, HOME_SEGMENT@, 700, 0) == read(true, HOME_SEGMENT@, 735, 0)) by {
        reveal_with_fuel(read, 36);
    }
    assert(read(true, HOME_SEGMENT@, 735, 0) == read(true, HOME_SEGMENT@, 770, 0)) by {
        reveal_with_fuel(read, 36);
    }
    assert(read(true, HOME_SEGMENT@, 770, 0) == read(true, HOME_SEGMENT@, 805, 0)) by {
        reveal_with_fuel(read, 36);
    }
    assert(read(true, HOME_SEGMENT@, 805, 0) == read(true, HOME_SEGMENT@, 840, 0)) by {
        reveal_with_fuel(read, 36);
    }
    assert(read(true, HOME_SEGMENT@, 840, 0) == read(true, HOME_SEGMENT@, 875, 0)) by {
        reveal_with_fuel(read, 36);
    }
    assert(read(true, HOME_SEGMENT@, 875, 0) == read(true, HOME_SEGMENT@, 910, 0)) by {
        reveal_with_fuel(read, 36);
    }
    assert(read(true, HOME_SEGMENT@, 910, 0) == read(true, HOME_SEGMENT@, 945, 0)) by {
        reveal_with_fuel(read, 36);
    }
    assert(read(true, HOME_SEGMENT@, 945, 0) == read(true, HOME_SEGMENT@, 980, 0)) by {
        reveal_with_fuel(read, 36);
    }
    assert(read(true, HOME_SEGMENT@, 980, 0) == read(true, HOME_SEGMENT@, 1015, 0)) by {
        reveal_with_fuel(read, 36);
    }
    assert(read(true, HOME_SEGMENT@, 1015, 0) == read(true, HOME_SEGMENT@, 1050, 0)) by {
        reveal_with_fuel(read, 36);
    }
    assert(read(true, HOME_SEGMENT@, 1050, 0) == read(true, HOME_SEGMENT@, 1085, 0)) by {
        reveal_with_fuel(read, 36);
    }
    assert(read(true, HOME_SEGMENT@, 1085, 0) == read(true, HOME_SEGMENT@, 1120, 0)) by {
        reveal_with_fuel(read, 36);
    }
    assert(read(true, HOME_SEGMENT@, 1120, 0) == read(true, HOME_SEGMENT@, 1155, 0)) by {
        reveal_with_fuel(read, 36);
    }
    assert(read(true, HOME_SEGMENT@, 1155, 0) == read(true, HOME_SEGMENT@, 1190, 0)) by {
        reveal_with_fuel(read, 36);
    }
    assert(read(true, HOME_SEGMENT@, 1190, 0) == read(true, HOME_SEGMENT@, 1225, 0)) by {
        reveal_with_fuel(read, 36);
    }
    assert(read(true, HOME_SEGMENT@, 1225, 0) == read(true, HOME_SEGMENT@, 1260, 0)) by {
        reveal_with_fuel(read, 36);
    }
    assert(read(true, HOME_SEGMENT@, 1260, 0) == read(true, HOME_SEGMENT@, 1295, 0)) by {
        reveal_with_fuel(read, 36);
    }
    assert(read(true, HOME_SEGMENT@, 1295, 0) == read(true, HOME_SEGMENT@, 1330, 0)) by {
        reveal_with_fuel(read, 36);
    }
    assert(read(true, HOME_SEGMENT@, 1330, 0) == read(true, HOME_SEGMENT@, 1365, 0)) by {
        reveal_with_fuel(read, 36);
    }
    assert(read(true, HOME_SEGMENT@, 1365, 0) == read(true, HOME_SEGMENT@, 1370, 0)) by {
        reveal_with_fuel(read, 6);
    }
}

proof fn lemma_key_is_clean()
    ensures
        read(true, SEGMENT_KEY@, 0, 0) == 0,
{
    reveal_strlit("IafwJFqA4vZaVDtStTf7HHUzcOaiFUlV");
    assert(read(true, SEGMENT_KEY@, 0, 0) == 0) by {
        reveal_with_fuel(read, 33);
    }
}

proof fn lemma_body_is_clean()
    ensures
        read(true, HOME_BODY@, 0, 0) == 0,
{
    reveal_strlit("\");\n  analytics.page();\n  }}();\n</script>\n</head>\n<body>\n<div class=\"outer\">\n<div class=\"wrapper\">\n<ul>\n");
    assert(read(true, HOME_BODY@, 0, 0) == read(true, HOME_BODY@, 35, 0)) by {
        reveal_with_fuel(read, 36);
    }
    assert(read(true, HOME_BODY@, 35, 0) == read(true, HOME_BODY@, 70, 0)) by {
        reveal_with_fuel(read, 36);
    }
    assert(read(true, HOME_BODY@, 70, 0) == read(true, HOME_BODY@, 104, 0)) by {
        reveal_with_fuel(read, 35);
    }
}

proof fn lemma_end_is_clean()
    ensures
        read(true, HOME_END@, 0, 0) == 0,
{
    reveal_strlit("</ul>\n</div>\n</div>\n</body>\n</html>\n");
    assert(read(true, HOME_END@, 0, 0) == read(true, HOME_END@, 35, 0)) by {
        reveal_with_fuel(read, 36);
    }
    assert(read(true, HOME_END@, 35, 0) == read(true, HOME_END@, 36, 0)) by {
        reveal_with_fuel(read, 2);
    }
}

/// An entry of the list leads nowhere if its URL and its name do not.
proof fn lemma_item_is_clean(name: Seq<char>, url: Seq<char>)
    requires
        read(true, link_target(url), 0, 2) == 0,
        read(true, url, 0, 0) == 0,
        read(true, name, 0, 0) == 0,
    ensures
        read(true, profile_item(name, url), 0, 0) == 0,
{
    reveal_strlit("    <li><span class=\"headerLine\"><a href=\"");
    assert(read(true, "    <li><span class=\"headerLine\"><a href=\""@, 0, 0) == read(true, "    <li><span class=\"headerLine\"><a href=\""@, 35, 0)) by {
        reveal_with_fuel(read, 36);
    }
    assert(read(true, "    <li><span class=\"headerLine\"><a href=\""@, 35, 0) == read(true, "    <li><span class=\"headerLine\"><a href=\""@, 42, 2)) by {
        reveal_with_fuel(read, 8);
    }
    reveal_strlit("\" onclick=\"_gaq.push(['_trackEvent', 'Click', 'Link', '");
    assert(read(true, "\" onclick=\"_gaq.push(['_trackEvent', 'Click', 'Link', '"@, 0, 0) == read(true, "\" onclick=\"_gaq.push(['_trackEvent', 'Click', 'Link', '"@, 35, 0)) by {
        reveal_with_fuel(read, 36);
    }
    assert(read(true, "\" onclick=\"_gaq.push(['_trackEvent', 'Click', 'Link', '"@, 35, 0) == read(true, "\" onclick=\"_gaq.push(['_trackEvent', 'Click', 'Link', '"@, 55, 0)) by {
        reveal_with_fuel(read, 21);
    }
    reveal_strlit("']);\">");
    assert(read(true, "']);\">"@, 0, 0) == 0) by {
        reveal_with_fuel(read, 7);
    }
    reveal_strlit("</a></span></li>\n");
    assert(read(true, "</a></span></li>\n"@, 0, 0) == 0) by {
        reveal_with_fuel(read, 18);
    }
    let l1 = "    <li><span class=\"headerLine\"><a href=\""@ + link_target(url);
    let l2 = l1 + "\" onclick=\"_gaq.push(['_trackEvent', 'Click', 'Link', '"@;
    let l3 = l2 + url;
    let l4 = l3 + "']);\">"@;
    let l5 = l4 + name;
    lemma_read_on(true, "    <li><span class=\"headerLine\"><a href=\""@, link_target(url), 0, 0);
    lemma_read_on(true, l1, "\" onclick=\"_gaq.push(['_trackEvent', 'Click', 'Link', '"@, 0, 0);
    lemma_read_on(true, l2, url, 0, 0);
    lemma_read_on(true, l3, "']);\">"@, 0, 0);
    lemma_read_on(true, l4, name, 0, 0);
    lemma_read_on(true, l5, "</a></span></li>\n"@, 0, 0);
}

/// Entries that lead nowhere make a list that leads nowhere.
proof fn lemma_items_are_clean(list: Seq<(Seq<char>, Seq<char>)>)
    requires
        forall|i: int| 0 <= i < list.len() ==> read(true, profile_item((#[trigger] list[i]).0, list[i].1), 0, 0) == 0,
    ensures
        read(true, profile_items(list), 0, 0) == 0,
    decreases list.len(),
{
    if list.len() > 0 {
        assert forall|i: int| 0 <= i < list.len() - 1 implies read(
            true,
            profile_item((#[trigger] list.drop_last()[i]).0, list.drop_last()[i].1),
            0,
            0,
        ) == 0 by {
            assert(list.drop_last()[i] == list[i]);
        }
        lemma_items_are_clean(list.drop_last());
        assert(list.last() == list[list.len() - 1]);
        lemma_read_on(true, profile_items(list.drop_last()), profile_item(list.last().0, list.last().1), 0, 0);
    }
}

/// An entry that goes by way of the redirect leads nowhere if its URL does not.
proof fn lemma_redirected_item_is_clean(name: Seq<char>, url: Seq<char>)
    requires
        url.len() > 0,
        url[0] == 'h',
        read(true, url, 0, 0) == 0,
        read(true, name, 0, 0) == 0,
    ensures
        read(true, profile_item(name, url), 0, 0) == 0,
{
    reveal_strlit("mailto:");
    reveal_strlit("/r?url=");
    assert(!"mailto:"@.is_prefix_of(url)) by {
        if "mailto:"@.is_prefix_of(url) {
            assert(url.subrange(0, 7)[0] == 'm');
        }
    }
    assert(read(true, "/r?url="@, 0, 2) == 1) by {
        reveal_with_fuel(read, 8);
    }
    assert(read(true, url, 0, 1) == read(true, url, 0, 0)) by {
        reveal_with_fuel(read, 2);
    }
    lemma_read_on(true, "/r?url="@, url, 0, 2);
    lemma_item_is_clean(name, url);
}

proof fn lemma_github_is_clean()
    ensures
        read(true, profile_item("github"@, "https://tinyurl.com/dkorolev-github"@), 0, 0) == 0,
{
    reveal_strlit("github");
    assert(read(true, "github"@, 0, 0) == 0) by {
        reveal_with_fuel(read, 7);
    }
    reveal_strlit("https://tinyurl.com/dkorolev-github");
    assert(read(true, "https://tinyurl.com/dkorolev-github"@, 0, 0) == 0) by {
        reveal_with_fuel(read, 36);
    }
    lemma_redirected_item_is_clean("github"@, "https://tinyurl.com/dkorolev-github"@);
}

proof fn lemma_linkedin_is_clean()
    ensures
        read(true, profile_item("linkedin"@, "https://tinyurl.com/dkorolev-linkedin"@), 0, 0) == 0,
{
    reveal_strlit("linkedin");
    assert(read(true, "linkedin"@, 0, 0) == 0) by {
        reveal_with_fuel(read, 9);
    }
    reveal_strlit("https://tinyurl.com/dkorolev-linkedin");
    assert(read(true, "https://tinyurl.com/dkorolev-linkedin"@, 0, 0) == read(true, "https://tinyurl.com/dkorolev-linkedin"@, 35, 0)) by {
        reveal_with_fuel(read, 36);
    }
    assert(read(true, "https://tinyurl.com/dkorolev-linkedin"@, 35, 0) == read(true, "https://tinyurl.com/dkorolev-linkedin"@, 37, 0)) by {
        reveal_with_fuel(read, 3);
    }
    lemma_redirected_item_is_clean("linkedin"@, "https://tinyurl.com/dkorolev-linkedin"@);
}

proof fn lemma_meetup_is_clean()
    ensures
        read(true, profile_item("meetup"@, "https://tinyurl.com/dkorolev-dsm"@), 0, 0) == 0,
{
    reveal_strlit("meetup");
    assert(read(true, "meetup"@, 0, 0) == 0) by {
        reveal_with_fuel(read, 7);
    }
    reveal_strlit("https://tinyurl.com/dkorolev-dsm");
    assert(read(true, "https://tinyurl.com/dkorolev-dsm"@, 0, 0) == 0) by {
        reveal_with_fuel(read, 33);
    }
    lemma_redirected_item_is_clean("meetup"@, "https://tinyurl.com/dkorolev-dsm"@);
}

proof fn lemma_telegram_is_clean()
    ensures
        read(true, profile_item("telegram"@, "https://tinyurl.com/dkorolev-telegram"@), 0, 0) == 0,
{
    reveal_strlit("telegram");
    assert(read(true, "telegram"@, 0, 0) == 0) by {
        reveal_with_fuel(read, 9);
    }
    reveal_strlit("https://tinyurl.com/dkorolev-telegram");
    assert(read(true, "https://tinyurl.com/dkorolev-telegram"@, 0, 0) == read(true, "https://tinyurl.com/dkorolev-telegram"@, 35, 0)) by {
        reveal_with_fuel(read, 36);
    }
    assert(read(true, "https://tinyurl.com/dkorolev-telegram"@, 35, 0) == read(true, "https://tinyurl.com/dkorolev-telegram"@, 37, 0)) by {
        reveal_with_fuel(read, 3);
    }
    lemma_redirected_item_is_clean("telegram"@, "https://tinyurl.com/dkorolev-telegram"@);
}

proof fn lemma_facebook_is_clean()
    ensures
        read(true, profile_item("facebook"@, "http://on.fb.me/1Q7y09G"@), 0, 0) == 0,
{
    reveal_strlit("facebook");
    assert(read(true, "facebook"@, 0, 0) == 0) by {
        reveal_with_fuel(read, 9);
    }
    reveal_strlit("http://on.fb.me/1Q7y09G");
    assert(read(true, "http://on.fb.me/1Q7y09G"@, 0, 0) == 0) by {
        reveal_with_fuel(read, 24);
    }
    lemma_redirected_item_is_clean("facebook"@, "http://on.fb.me/1Q7y09G"@);
}

proof fn lemma_substack_is_clean()
    ensures
        read(true, profile_item("substack"@, "https://tinyurl.com/dkorolev-substack"@), 0, 0) == 0,
{
    reveal_strlit("substack");
    assert(read(true, "substack"@, 0, 0) == 0) by {
        reveal_with_fuel(read, 9);
    }
    reveal_strlit("https://tinyurl.com/dkorolev-substack");
    assert(read(true, "https://tinyurl.com/dkorolev-substack"@, 0, 0) == read(true, "https://tinyurl.com/dkorolev-substack"@, 35, 0)) by {
        reveal_with_fuel(read, 36);
    }
    assert(read(true, "https://tinyurl.com/dkorolev-substack"@, 35, 0) == read(true, "https://tinyurl.com/dkorolev-substack"@, 37, 0)) by {
        reveal_with_fuel(read, 3);
    }
    lemma_redirected_item_is_clean("substack"@, "https://tinyurl.com/dkorolev-substack"@);
}

proof fn lemma_youtube_is_clean()
    ensures
        read(true, profile_item("youtube"@, "https://tinyurl.com/dkorolev-youtube"@), 0, 0) == 0,
{
    reveal_strlit("youtube");
    assert(read(true, "youtube"@, 0, 0) == 0) by {
        reveal_with_fuel(read, 8);
    }
    reveal_strlit("https://tinyurl.com/dkorolev-youtube");
    assert(read(true, "https://tinyurl.com/dkorolev-youtube"@, 0, 0) == read(true, "https://tinyurl.com/dkorolev-youtube"@, 35, 0)) by {
        reveal_with_fuel(read, 36);
    }
    assert(read(true, "https://tinyurl.com/dkorolev-youtube"@, 35, 0) == read(true, "https://tinyurl.com/dkorolev-youtube"@, 36, 0)) by {
        reveal_with_fuel(read, 2);
    }
    lemma_redirected_item_is_clean("youtube"@, "https://tinyurl.com/dkorolev-youtube"@);
}

proof fn lemma_medium_is_clean()
    ensures
        read(true, profile_item("medium"@, "https://tinyurl.com/dkorolev-medium"@), 0, 0) == 0,
{
    reveal_strlit("medium");
    assert(read(true, "medium"@, 0, 0) == 0) by {
        reveal_with_fuel(read, 7);
    }
    reveal_strlit("https://tinyurl.com/dkorolev-medium");
    assert(read(true, "https://tinyurl.com/dkorolev-medium"@, 0, 0) == 0) by {
        reveal_with_fuel(read, 36);
    }
    lemma_redirected_item_is_clean("medium"@, "https://tinyurl.com/dkorolev-medium"@);
}

proof fn lemma_twitter_is_clean()
    ensures
        read(true, profile_item("twitter"@, "https://tinyurl.com/dkorolev-twitter"@), 0, 0) == 0,
{
    reveal_strlit("twitter");
    assert(read(true, "twitter"@, 0, 0) == 0) by {
        reveal_with_fuel(read, 8);
    }
    reveal_strlit("https://tinyurl.com/dkorolev-twitter");
    assert(read(true, "https://tinyurl.com/dkorolev-twitter"@, 0, 0) == read(true, "https://tinyurl.com/dkorolev-twitter"@, 35, 0)) by {
        reveal_with_fuel(read, 36);
    }
    assert(read(true, "https://tinyurl.com/dkorolev-twitter"@, 35, 0) == read(true, "https://tinyurl.com/dkorolev-twitter"@, 36, 0)) by {
        reveal_with_fuel(read, 2);
    }
    lemma_redirected_item_is_clean("twitter"@, "https://tinyurl.com/dkorolev-twitter"@);
}

proof fn lemma_quora_is_clean()
    ensures
        read(true, profile_item("quora"@, "http://bit.ly/1iJQcXN"@), 0, 0) == 0,
{
    reveal_strlit("quora");
    assert(read(true, "quora"@, 0, 0) == 0) by {
        reveal_with_fuel(read, 6);
    }
    reveal_strlit("http://bit.ly/1iJQcXN");
    assert(read(true, "http://bit.ly/1iJQcXN"@, 0, 0) == 0) by {
        reveal_with_fuel(read, 22);
    }
    lemma_redirected_item_is_clean("quora"@, "http://bit.ly/1iJQcXN"@);
}

proof fn lemma_email_is_clean()
    ensures
        read(true, profile_item("email"@, "mailto:dima@current.ai"@), 0, 0) == 0,
{
    reveal_strlit("email");
    assert(read(true, "email"@, 0, 0) == 0) by {
        reveal_with_fuel(read, 6);
    }
    reveal_strlit("mailto:dima@current.ai");
    assert(read(true, "mailto:dima@current.ai"@, 0, 0) == 0) by {
        reveal_with_fuel(read, 23);
    }
    reveal_strlit("mailto:");
    assert("mailto:dima@current.ai"@.subrange(0, 7) =~= "mailto:"@);
    assert(read(true, "mailto:dima@current.ai"@, 0, 2) == 0) by {
        reveal_with_fuel(read, 23);
    }
    lemma_item_is_clean("email"@, "mailto:dima@current.ai"@);
}

proof fn lemma_head_is_clean()
    ensures
        read(true, home_head(), 0, 0) == 0,
{
    let list = profile_list();
    lemma_github_is_clean();
    lemma_linkedin_is_clean();
    lemma_meetup_is_clean();
    lemma_telegram_is_clean();
    lemma_facebook_is_clean();
    lemma_substack_is_clean();
    lemma_youtube_is_clean();
    lemma_medium_is_clean();
    lemma_twitter_is_clean();
    lemma_quora_is_clean();
    lemma_email_is_clean();
    lemma_items_are_clean(list);
    let h1 = HOME_START@ + NAME@;
    let h2 = h1 + HOME_SCRIPTS@;
    let h3 = h2 + GOOGLE_ANALYTICS_CODE@;
    let h4 = h3 + HOME_SEGMENT@;
    let h5 = h4 + SEGMENT_KEY@;
    let h6 = h5 + HOME_BODY@;
    lemma_start_is_clean();
    lemma_name_is_clean();
    lemma_scripts_is_clean();
    lemma_account_is_clean();
    lemma_segment_is_clean();
    lemma_key_is_clean();
    lemma_body_is_clean();
    lemma_read_on(true, HOME_START@, NAME@, 0, 0);
    lemma_read_on(true, h1, HOME_SCRIPTS@, 0, 0);
    lemma_read_on(true, h2, GOOGLE_ANALYTICS_CODE@, 0, 0);
    lemma_read_on(true, h3, HOME_SEGMENT@, 0, 0);
    lemma_read_on(true, h4, SEGMENT_KEY@, 0, 0);
    lemma_read_on(true, h5, HOME_BODY@, 0, 0);
    lemma_read_on(true, h6, profile_items(list), 0, 0);
}

/// The list ends with the address.
proof fn lemma_address_is_linked()
    ensures
        contains_part(home_head(), "<a href=\"mailto:dima@current.ai\""@),
{
    let list = profile_list();
    let url = "mailto:dima@current.ai"@;
    let part = "<a href=\"mailto:dima@current.ai\""@;
    reveal_strlit("mailto:dima@current.ai");
    reveal_strlit("mailto:");
    reveal_strlit("<a href=\"mailto:dima@current.ai\"");
    reveal_strlit("    <li><span class=\"headerLine\"><a href=\"");
    reveal_strlit("\" onclick=\"_gaq.push(['_trackEvent', 'Click', 'Link', '");
    assert(url.subrange(0, 7) =~= "mailto:"@);
    let item = profile_item("email"@, url);
    assert(item.subrange(33, 65) =~= part);
    assert(occurs_at(item, part, 33));
    assert(list.last() == ("email"@, url));
    let others = profile_items(list.drop_last());
    lemma_occurs_later(others, item, part, 33);
    assert(profile_items(list) == others + item);
    let first = HOME_START@ + NAME@ + HOME_SCRIPTS@ + GOOGLE_ANALYTICS_CODE@ + HOME_SEGMENT@ + SEGMENT_KEY@ + HOME_BODY@;
    lemma_occurs_later(first, profile_items(list), part, (others.len() + 33) as int);
}

/// A debug link is none to an address.
proof fn lemma_debug_item_is_clean(target: Seq<char>, name: Seq<char>)
    requires
        read(false, target, 0, 2) == 0,
        read(false, name, 0, 0) == 0,
    ensures
        read(false, debug_item(target, name), 0, 0) == 0,
{
    reveal_strlit("    <li><span class=\"headerLine\"><a href=\"");
    assert(read(false, "    <li><span class=\"headerLine\"><a href=\""@, 0, 0) == read(false, "    <li><span class=\"headerLine\"><a href=\""@, 35, 0)) by {
        reveal_with_fuel(read, 36);
    }
    assert(read(false, "    <li><span class=\"headerLine\"><a href=\""@, 35, 0) == read(false, "    <li><span class=\"headerLine\"><a href=\""@, 42, 2)) by {
        reveal_with_fuel(read, 8);
    }
    reveal_strlit("\" class=\"debug\" style=\"color: #ff8c00 !important;\">");
    assert(read(false, "\" class=\"debug\" style=\"color: #ff8c00 !important;\">"@, 0, 0) == read(false, "\" class=\"debug\" style=\"color: #ff8c00 !important;\">"@, 35, 0)) by {
        reveal_with_fuel(read, 36);
    }
    assert(read(false, "\" class=\"debug\" style=\"color: #ff8c00 !important;\">"@, 35, 0) == read(false, "\" class=\"debug\" style=\"color: #ff8c00 !important;\">"@, 51, 0)) by {
        reveal_with_fuel(read, 17);
    }
    reveal_strlit("</a></span></li>\n");
    assert(read(false, "</a></span></li>\n"@, 0, 0) == 0) by {
        reveal_with_fuel(read, 18);
    }
    let l1 = "    <li><span class=\"headerLine\"><a href=\""@ + target;
    let l2 = l1 + "\" class=\"debug\" style=\"color: #ff8c00 !important;\">"@;
    let l3 = l2 + name;
    lemma_read_on(false, "    <li><span class=\"headerLine\"><a href=\""@, target, 0, 0);
    lemma_read_on(false, l1, "\" class=\"debug\" style=\"color: #ff8c00 !important;\">"@, 0, 0);
    lemma_read_on(false, l2, name, 0, 0);
    lemma_read_on(false, l3, "</a></span></li>\n"@, 0, 0);
}

/// The debug page up to the revision.
spec fn debug_head() -> Seq<char> {
    home_head() + (debug_item("/passkey"@, "Passkey"@) + debug_item("/login"@, "OAuth2"@) + debug_item(
        "/mcpclient"@,
        "MCP Client"@,
    ) + debug_item("/anthropiclimits"@, "Anthropic Limits"@) + "    <li><span class=\"headerLine\" style=\"font-family:ui-monospace,monospace;font-size:0.75rem;color:rgba(0,0,0,0.35);padding-top:4px;\">"@)
}

/// The debug page from the revision on.
spec fn debug_tail() -> Seq<char> {
    "</span></li>\n"@ + HOME_END@
}

proof fn lemma_debug_head_is_clean()
    ensures
        read(false, debug_head(), 0, 0) == 0,
{
    reveal_strlit("/passkey");
    assert(read(false, "/passkey"@, 0, 2) == 0) by {
        reveal_with_fuel(read, 9);
    }
    reveal_strlit("Passkey");
    assert(read(false, "Passkey"@, 0, 0) == 0) by {
        reveal_with_fuel(read, 8);
    }
    lemma_debug_item_is_clean("/passkey"@, "Passkey"@);
    reveal_strlit("/login");
    assert(read(false, "/login"@, 0, 2) == 0) by {
        reveal_with_fuel(read, 7);
    }
    reveal_strlit("OAuth2");
    assert(read(false, "OAuth2"@, 0, 0) == 0) by {
        reveal_with_fuel(read, 7);
    }
    lemma_debug_item_is_clean("/login"@, "OAuth2"@);
    reveal_strlit("/mcpclient");
    assert(read(false, "/mcpclient"@, 0, 2) == 0) by {
        reveal_with_fuel(read, 11);
    }
    reveal_strlit("MCP Client");
    assert(read(false, "MCP Client"@, 0, 0) == 0) by {
        reveal_with_fuel(read, 11);
    }
    lemma_debug_item_is_clean("/mcpclient"@, "MCP Client"@);
    reveal_strlit("/anthropiclimits");
    assert(read(false, "/anthropiclimits"@, 0, 2) == 0) by {
        reveal_with_fuel(read, 17);
    }
    reveal_strlit("Anthropic Limits");
    assert(read(false, "Anthropic Limits"@, 0, 0) == 0) by {
        reveal_with_fuel(read, 17);
    }
    lemma_debug_item_is_clean("/anthropiclimits"@, "Anthropic Limits"@);
    reveal_strlit("    <li><span class=\"headerLine\" style=\"font-family:ui-monospace,monospace;font-size:0.75rem;color:rgba(0,0,0,0.35);padding-top:4px;\">");
    assert(read(false, "    <li><span class=\"headerLine\" style=\"font-family:ui-monospace,monospace;font-size:0.75rem;color:rgba(0,0,0,0.35);padding-top:4px;\">"@, 0, 0) == read(false, "    <li><span class=\"headerLine\" style=\"font-family:ui-monospace,monospace;font-size:0.75rem;color:rgba(0,0,0,0.35);padding-top:4px;\">"@, 35, 0)) by {
        reveal_with_fuel(read, 36);
    }
    assert(read(false, "    <li><span class=\"headerLine\" style=\"font-family:ui-monospace,monospace;font-size:0.75rem;color:rgba(0,0,0,0.35);padding-top:4px;\">"@, 35, 0) == read(false, "    <li><span class=\"headerLine\" style=\"font-family:ui-monospace,monospace;font-size:0.75rem;color:rgba(0,0,0,0.35);padding-top:4px;\">"@, 70, 0)) by {
        reveal_with_fuel(read, 36);
    }
    assert(read(false, "    <li><span class=\"headerLine\" style=\"font-family:ui-monospace,monospace;font-size:0.75rem;color:rgba(0,0,0,0.35);padding-top:4px;\">"@, 70, 0) == read(false, "    <li><span class=\"headerLine\" style=\"font-family:ui-monospace,monospace;font-size:0.75rem;color:rgba(0,0,0,0.35);padding-top:4px;\">"@, 105, 0)) by {
        reveal_with_fuel(read, 36);
    }
    assert(read(false, "    <li><span class=\"headerLine\" style=\"font-family:ui-monospace,monospace;font-size:0.75rem;color:rgba(0,0,0,0.35);padding-top:4px;\">"@, 105, 0) == read(false, "    <li><span class=\"headerLine\" style=\"font-family:ui-monospace,monospace;font-size:0.75rem;color:rgba(0,0,0,0.35);padding-top:4px;\">"@, 134, 0)) by {
        reveal_with_fuel(read, 30);
    }
    let d1 = debug_item("/passkey"@, "Passkey"@);
    let d2 = d1 + debug_item("/login"@, "OAuth2"@);
    let d3 = d2 + debug_item("/mcpclient"@, "MCP Client"@);
    let d4 = d3 + debug_item("/anthropiclimits"@, "Anthropic Limits"@);
    let d5 = d4 + "    <li><span class=\"headerLine\" style=\"font-family:ui-monospace,monospace;font-size:0.75rem;color:rgba(0,0,0,0.35);padding-top:4px;\">"@;
    lemma_read_on(false, d1, debug_item("/login"@, "OAuth2"@), 0, 0);
    lemma_read_on(false, d2, debug_item("/mcpclient"@, "MCP Client"@), 0, 0);
    lemma_read_on(false, d3, debug_item("/anthropiclimits"@, "Anthropic Limits"@), 0, 0);
    lemma_read_on(false, d4, "    <li><span class=\"headerLine\" style=\"font-family:ui-monospace,monospace;font-size:0.75rem;color:rgba(0,0,0,0.35);padding-top:4px;\">"@, 0, 0);
    lemma_head_is_clean();
    lemma_strict_is_more(home_head(), 0, 0);
    lemma_read_on(false, home_head(), d5, 0, 0);
}

/// The link would have to stand on one side of the revision, or in it: a tag ends before it, and one
/// begins behind it.
proof fn lemma_debug_page_is_clean(revision: Seq<char>)
    requires
        !contains_part(revision, "/r?url=mailto:"@),
    ensures
        !contains_part(home_page(true, revision), "/r?url=mailto:"@),
{
    let head = debug_head();
    let tail = debug_tail();
    let page = home_page(true, revision);
    let part = "/r?url=mailto:"@;
    assert(page =~= head + revision + tail);
    lemma_debug_head_is_clean();
    lemma_clean_of_mail(false, head);
    reveal_strlit("</span></li>\n");
    assert(read(false, "</span></li>\n"@, 0, 0) == 0) by {
        reveal_with_fuel(read, 14);
    }
    lemma_end_is_clean();
    lemma_strict_is_more(HOME_END@, 0, 0);
    lemma_read_on(false, "</span></li>\n"@, HOME_END@, 0, 0);
    lemma_clean_of_mail(false, tail);
    reveal_strlit("    <li><span class=\"headerLine\" style=\"font-family:ui-monospace,monospace;font-size:0.75rem;color:rgba(0,0,0,0.35);padding-top:4px;\">");
    reveal_strlit("/r?url=mailto:");
    assert(head.last() == '>');
    assert(tail[0] == '<');
    if contains_part(page, part) {
        let at = choose|at: int| occurs_at(page, part, at);
        let here = page.subrange(at, at + 14);
        let h = head.len();
        let r = revision.len();
        if at + 14 <= h {
            assert(head.subrange(at, at + 14) =~= part);
            assert(occurs_at(head, part, at));
        } else if at < h {
            assert(here[h - 1 - at] == '>');
        } else if at + 14 <= h + r {
            assert(revision.subrange(at - h, at - h + 14) =~= part);
            assert(occurs_at(revision, part, at - h));
        } else if at < h + r {
            assert(here[h + r - at] == '<');
        } else {
            assert(tail.subrange(at - h - r, at - h - r + 14) =~= part);
            assert(occurs_at(tail, part, at - h - r));
        }
    }
}

} // verus!
