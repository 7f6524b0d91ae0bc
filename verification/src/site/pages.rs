//! The pages that the site writes itself, and the redirects that need no more than a query.
use vstd::prelude::*;
use vstd::string::*;

use crate::encoding::{pair, pair_texts};
use crate::text::{
    contains_part, decimal, decimal_text, has_prefix, joined, lemma_contains_between, lemma_contains_longer, occurs_at,
    opt_text,
};

verus! {

// -- The homepage.

/// Whose page it is.
pub const NAME: &'static str = "Dima Korolev";

/// The account of the page's visits.
pub const GOOGLE_ANALYTICS_CODE: &'static str = "UA-46065883-1";

/// The key of the page's events.
pub const SEGMENT_KEY: &'static str = "IafwJFqA4vZaVDtStTf7HHUzcOaiFUlV";

/// The homepage up to its title.
pub const HOME_START: &'static str = "<!DOCTYPE html>\n<html lang=\"en\">\n<head>\n<meta charset=\"utf-8\" />\n<meta name=\"viewport\" content=\"width=device-width, initial-scale=1\" />\n<meta name=\"google-site-verification\" content=\"mQFXwDjB1tqPjGWoaUqup5v9b7ZOUZHdL3aAPOfpLic\" />\n<title>";

/// The homepage from its title to the account of its visits.
pub const HOME_SCRIPTS: &'static str = "</title>\n<link rel=\"icon\" type=\"image/svg+xml\" href=\"/static/favicon.svg\" sizes=\"any\" />\n<link href=\"static/css.css\" rel=\"stylesheet\" />\n<script type=\"text/javascript\">\n  var _gaq = _gaq || [];\n  _gaq.push(['_setAccount', '";

/// The homepage from the account of its visits to the key of its events.
pub const HOME_SEGMENT: &'static str = "']);\n  _gaq.push(['_trackPageview']);\n\n  (function() {\n    var ga = document.createElement('script'); ga.type = 'text/javascript'; ga.async = true;\n    ga.src = ('https:' == document.location.protocol ? 'https://' : 'http://') + 'stats.g.doubleclick.net/dc.js';\n    var s = document.getElementsByTagName('script')[0]; s.parentNode.insertBefore(ga, s);\n  })();\n</script>\n<script>\n  !function(){var analytics=window.analytics=window.analytics||[];if(!analytics.initialize)if(analytics.invoked)window.console&&console.error&&console.error(\"Segment snippet included twice.\");else{analytics.invoked=!0;analytics.methods=[\"trackSubmit\",\"trackClick\",\"trackLink\",\"trackForm\",\"pageview\",\"identify\",\"reset\",\"group\",\"track\",\"ready\",\"alias\",\"debug\",\"page\",\"once\",\"off\",\"on\"];analytics.factory=function(t){return function(){var e=Array.prototype.slice.call(arguments);e.unshift(t);analytics.push(e);return analytics}};for(var t=0;t<analytics.methods.length;t++){var e=analytics.methods[t];analytics[e]=analytics.factory(e)}analytics.load=function(t){var e=document.createElement(\"script\");e.type=\"text/javascript\";e.async=!0;e.src=(\"https:\"===document.location.protocol?\"https://\":\"http://\")+\"cdn.segment.com/analytics.js/v1/\"+t+\"/analytics.min.js\";var n=document.getElementsByTagName(\"script\")[0];n.parentNode.insertBefore(e,n)};analytics.SNIPPET_VERSION=\"4.0.0\";\n  analytics.load(\"";

/// The homepage from the key of its events to its list.
pub const HOME_BODY: &'static str = "\");\n  analytics.page();\n  }}();\n</script>\n</head>\n<body>\n<div class=\"outer\">\n<div class=\"wrapper\">\n<ul>\n";

/// The homepage from its list on.
pub const HOME_END: &'static str = "</ul>\n</div>\n</div>\n</body>\n</html>\n";

/// The profiles by name and URL.
pub open spec fn profile_list() -> Seq<(Seq<char>, Seq<char>)> {
    seq![
        ("github"@, "https://tinyurl.com/dkorolev-github"@),
        ("linkedin"@, "https://tinyurl.com/dkorolev-linkedin"@),
        ("meetup"@, "https://tinyurl.com/dkorolev-dsm"@),
        ("telegram"@, "https://tinyurl.com/dkorolev-telegram"@),
        ("facebook"@, "http://on.fb.me/1Q7y09G"@),
        ("substack"@, "https://tinyurl.com/dkorolev-substack"@),
        ("youtube"@, "https://tinyurl.com/dkorolev-youtube"@),
        ("medium"@, "https://tinyurl.com/dkorolev-medium"@),
        ("twitter"@, "https://tinyurl.com/dkorolev-twitter"@),
        ("quora"@, "http://bit.ly/1iJQcXN"@),
        ("email"@, "mailto:dima@current.ai"@),
    ]
}

/// The profiles by name and URL.
pub fn profiles() -> (r: Vec<(String, String)>)
    ensures
        pair_texts(r@) == profile_list(),
{
    let mut r: Vec<(String, String)> = Vec::new();
    r.push(pair("github", "https://tinyurl.com/dkorolev-github"));
    r.push(pair("linkedin", "https://tinyurl.com/dkorolev-linkedin"));
    r.push(pair("meetup", "https://tinyurl.com/dkorolev-dsm"));
    r.push(pair("telegram", "https://tinyurl.com/dkorolev-telegram"));
    r.push(pair("facebook", "http://on.fb.me/1Q7y09G"));
    r.push(pair("substack", "https://tinyurl.com/dkorolev-substack"));
    r.push(pair("youtube", "https://tinyurl.com/dkorolev-youtube"));
    r.push(pair("medium", "https://tinyurl.com/dkorolev-medium"));
    r.push(pair("twitter", "https://tinyurl.com/dkorolev-twitter"));
    r.push(pair("quora", "http://bit.ly/1iJQcXN"));
    r.push(pair("email", "mailto:dima@current.ai"));
    assert(pair_texts(r@) =~= profile_list());
    r
}

/// Where a link goes: to an address directly, to anything else by way of the site's own redirect.
pub open spec fn link_target(url: Seq<char>) -> Seq<char> {
    if "mailto:"@.is_prefix_of(url) {
        url
    } else {
        "/r?url="@ + url
    }
}

/// The entry of a profile in the list.
pub open spec fn profile_item(name: Seq<char>, url: Seq<char>) -> Seq<char> {
    "    <li><span class=\"headerLine\"><a href=\""@ + link_target(url) + "\" onclick=\"_gaq.push(['_trackEvent', 'Click', 'Link', '"@ + url
        + "']);\">"@ + name + "</a></span></li>\n"@
}

/// The entries of profiles.
pub open spec fn profile_items(list: Seq<(Seq<char>, Seq<char>)>) -> Seq<char>
    decreases list.len(),
{
    if list.len() == 0 {
        Seq::empty()
    } else {
        profile_items(list.drop_last()) + profile_item(list.last().0, list.last().1)
    }
}

fn write_profile_item(name: &str, url: &str) -> (r: String)
    ensures
        r@ == profile_item(name@, url@),
{
    let target = if has_prefix(url, "mailto:") {
        url.to_owned()
    } else {
        joined("/r?url=", url)
    };
    let mut r = joined("    <li><span class=\"headerLine\"><a href=\"", target.as_str());
    r.append("\" onclick=\"_gaq.push(['_trackEvent', 'Click', 'Link', '");
    r.append(url);
    r.append("']);\">");
    r.append(name);
    r.append("</a></span></li>\n");
    r
}

/// The entry of a page that is not shown to everybody.
pub open spec fn debug_item(target: Seq<char>, name: Seq<char>) -> Seq<char> {
    "    <li><span class=\"headerLine\"><a href=\""@ + target
        + "\" class=\"debug\" style=\"color: #ff8c00 !important;\">"@ + name
        + "</a></span></li>\n"@
}

fn write_debug_item(target: &str, name: &str) -> (r: String)
    ensures
        r@ == debug_item(target@, name@),
{
    let mut r = joined("    <li><span class=\"headerLine\"><a href=\"", target);
    r.append("\" class=\"debug\" style=\"color: #ff8c00 !important;\">");
    r.append(name);
    r.append("</a></span></li>\n");
    r
}

/// The entries that are not shown to everybody: the other pages, and the revision of the site.
pub open spec fn debug_items(revision: Seq<char>) -> Seq<char> {
    debug_item("/passkey"@, "Passkey"@) + debug_item("/login"@, "OAuth2"@) + debug_item("/mcpclient"@, "MCP Client"@) + debug_item("/anthropiclimits"@, "Anthropic Limits"@) + (
    "    <li><span class=\"headerLine\" style=\"font-family:ui-monospace,monospace;font-size:0.75rem;color:rgba(0,0,0,0.35);padding-top:4px;\">"@
        + revision + "</span></li>\n"@)
}

/// The homepage up to the end of the profiles.
pub open spec fn home_head() -> Seq<char> {
    HOME_START@ + NAME@ + HOME_SCRIPTS@ + GOOGLE_ANALYTICS_CODE@ + HOME_SEGMENT@ + SEGMENT_KEY@ + HOME_BODY@
        + profile_items(profile_list())
}

/// The homepage, with the entries that are not shown to everybody or without them.
pub open spec fn home_page(debug: bool, revision: Seq<char>) -> Seq<char> {
    home_head() + (if debug {
        debug_items(revision)
    } else {
        Seq::empty()
    }) + HOME_END@
}

/// Writes the homepage. `revision` is that of the site.
pub fn render_home(debug: bool, revision: &str) -> (html: String)
    ensures
        html@ == home_page(debug, revision@),
{
    let list = profiles();
    let ghost all = pair_texts(list@);
    let mut items = String::new();
    let mut i: usize = 0;
    assert(items@ =~= Seq::empty());
    assert(all.take(0) =~= Seq::empty());
    while i < list.len()
        invariant
            i <= list@.len(),
            all == pair_texts(list@),
            items@ == profile_items(all.take(i as int)),
        decreases list@.len() - i,
    {
        proof {
            assert(all.take(i + 1).drop_last() =~= all.take(i as int));
            assert(all.take(i + 1).last() == all[i as int]);
        }
        items.append(write_profile_item(list[i].0.as_str(), list[i].1.as_str()).as_str());
        i = i + 1;
    }
    assert(all.take(i as int) =~= all);
    let mut html = joined(HOME_START, NAME);
    html.append(HOME_SCRIPTS);
    html.append(GOOGLE_ANALYTICS_CODE);
    html.append(HOME_SEGMENT);
    html.append(SEGMENT_KEY);
    html.append(HOME_BODY);
    html.append(items.as_str());
    let mut extra = String::new();
    assert(extra@ =~= Seq::empty());
    if debug {
        extra.append(write_debug_item("/passkey", "Passkey").as_str());
        extra.append(write_debug_item("/login", "OAuth2").as_str());
        extra.append(write_debug_item("/mcpclient", "MCP Client").as_str());
        extra.append(write_debug_item("/anthropiclimits", "Anthropic Limits").as_str());
        let mut hash = joined(
            "    <li><span class=\"headerLine\" style=\"font-family:ui-monospace,monospace;font-size:0.75rem;color:rgba(0,0,0,0.35);padding-top:4px;\">",
            revision,
        );
        hash.append("</span></li>\n");
        extra.append(hash.as_str());
        assert(extra@ =~= debug_items(revision@));
    }
    html.append(extra.as_str());
    html.append(HOME_END);
    html
}

// -- The landing page.

/// Where the landing page points.
pub const CURRENT_GITHUB_URL: &'static str = "https://github.com/c5t/current";

/// Where the landing page moves on to.
pub const CURRENT_LANDING_NEXT_URL: &'static str = "https://dima.ai";

/// After how many seconds the landing page moves on.
pub const CURRENT_LANDING_SECONDS: u32 = 3;

/// The landing page up to the seconds.
pub const LANDING_START: &'static str = "<!DOCTYPE html>\n<html lang=\"en\">\n<head>\n<meta charset=\"utf-8\">\n<meta name=\"viewport\" content=\"width=device-width, initial-scale=1\">\n<meta http-equiv=\"refresh\" content=\"";

/// The landing page from the next URL to the link.
pub const LANDING_BODY: &'static str = "\">\n<title>Current</title>\n<style>\n  body { margin: 0; min-height: 100vh; display: flex; align-items: center; justify-content: center;\n         font-family: -apple-system, BlinkMacSystemFont, \"Segoe UI\", Helvetica, Arial, sans-serif; }\n  p { font-size: 1.5rem; padding: 0 1rem; text-align: center; }\n</style>\n</head>\n<body>\n<p>This is Current, see <a href=\"";

/// The landing page from the link on.
pub const LANDING_END: &'static str = "\">github.com/c5t/current</a>.</p>\n</body>\n</html>\n";

/// The landing page.
pub open spec fn landing_page() -> Seq<char> {
    LANDING_START@ + decimal(CURRENT_LANDING_SECONDS as nat) + ";url="@ + CURRENT_LANDING_NEXT_URL@ + LANDING_BODY@
        + CURRENT_GITHUB_URL@ + LANDING_END@
}

/// Writes the landing page.
pub fn current_landing_html() -> (html: String)
    ensures
        html@ == landing_page(),
{
    let mut html = joined(LANDING_START, decimal_text(CURRENT_LANDING_SECONDS as u64).as_str());
    html.append(";url=");
    html.append(CURRENT_LANDING_NEXT_URL);
    html.append(LANDING_BODY);
    html.append(CURRENT_GITHUB_URL);
    html.append(LANDING_END);
    html
}

// -- Redirects.

/// Where the blog is.
pub const BLOG_URL: &'static str = "http://medium.com/dima-korolev";

/// Where the translated post is.
pub const BLOG_CHINESE_URL: &'static str = "http://bit.ly/1kC7fKj";

/// Where a form without a URL leads.
pub const DEFAULT_URL: &'static str = "http://dimakorolev.com";

/// Where a query asks to be sent: nowhere is a bad request.
pub fn redirect_get(url: Option<String>) -> (r: Option<String>)
    ensures
        opt_text(r) == opt_text(url),
{
    url
}

/// Where a form asks to be sent, or else the page's old home.
pub fn redirect_post(url: Option<String>) -> (r: String)
    ensures
        r@ == (match url {
            Some(u) => u@,
            None => DEFAULT_URL@,
        }),
{
    match url {
        Some(u) => u,
        None => DEFAULT_URL.to_owned(),
    }
}

// -- What holds of the pages.

/// A link to an address goes there directly, and every other one by way of the site's own redirect.
pub proof fn links_go_by_the_redirect(url: Seq<char>)
    ensures
        "mailto:"@.is_prefix_of(url) ==> link_target(url) == url,
        !"mailto:"@.is_prefix_of(url) ==> link_target(url) == "/r?url="@ + url,
{
}

/// Every profile of a list has an entry, with its name and the link to it.
pub proof fn every_profile_is_listed(list: Seq<(Seq<char>, Seq<char>)>, i: int)
    requires
        0 <= i < list.len(),
    ensures
        contains_part(profile_items(list), "<a href=\""@ + link_target(list[i].1) + "\""@),
        contains_part(profile_items(list), ">"@ + list[i].0 + "</a>"@),
    decreases list.len(),
{
    let fewer = list.drop_last();
    let last = profile_item(list.last().0, list.last().1);
    let link = "<a href=\""@ + link_target(list[i].1) + "\""@;
    let shown = ">"@ + list[i].0 + "</a>"@;
    if i < fewer.len() {
        every_profile_is_listed(fewer, i);
        lemma_contains_longer(profile_items(fewer), link, last);
        lemma_contains_longer(profile_items(fewer), shown, last);
    } else {
        lemma_item_holds_link(list[i].0, list[i].1);
        lemma_contains_after(profile_items(fewer), last, link);
        lemma_contains_after(profile_items(fewer), last, shown);
    }
}

proof fn lemma_contains_after(before: Seq<char>, text: Seq<char>, part: Seq<char>)
    requires
        contains_part(text, part),
    ensures
        contains_part(before + text, part),
{
    let at = choose|at: int| occurs_at(text, part, at);
    let whole = before + text;
    assert(whole.subrange(before.len() + at, before.len() + at + part.len()) =~= text.subrange(at, at + part.len()));
    assert(occurs_at(whole, part, before.len() + at));
}

proof fn lemma_item_holds_link(name: Seq<char>, url: Seq<char>)
    ensures
        contains_part(profile_item(name, url), "<a href=\""@ + link_target(url) + "\""@),
        contains_part(profile_item(name, url), ">"@ + name + "</a>"@),
{
    reveal_strlit("    <li><span class=\"headerLine\"><a href=\"");
    reveal_strlit("<a href=\"");
    reveal_strlit("\"");
    reveal_strlit("\" onclick=\"_gaq.push(['_trackEvent', 'Click', 'Link', '");
    reveal_strlit("']);\">");
    reveal_strlit(">");
    reveal_strlit("</a></span></li>\n");
    reveal_strlit("</a>");
    let item = profile_item(name, url);
    let start = "    <li><span class=\"headerLine\"><a href=\""@;
    let click = "\" onclick=\"_gaq.push(['_trackEvent', 'Click', 'Link', '"@;
    let close = "']);\">"@;
    let end = "</a></span></li>\n"@;
    let link = "<a href=\""@ + link_target(url) + "\""@;
    let before = start.take(start.len() - 9);
    assert(start.skip(start.len() - 9) =~= "<a href=\""@);
    let after = click.skip(1) + url + close + name + end;
    assert(item =~= before + link + after);
    lemma_contains_between(before, link, after);
    let shown = ">"@ + name + "</a>"@;
    let head = start + link_target(url) + click + url + close.take(5);
    let tail = end.skip(4);
    assert(item =~= head + shown + tail);
    lemma_contains_between(head, shown, tail);
}

/// The homepage lists every profile, with the entries for few or without them. Only with them does it show
/// the revision and lead to the other pages; without them it is the same for every revision.
pub proof fn the_homepage_lists_every_profile(debug: bool, revision: Seq<char>, other: Seq<char>, i: int)
    requires
        0 <= i < profile_list().len(),
    ensures
        contains_part(home_page(debug, revision), "<a href=\""@ + link_target(profile_list()[i].1) + "\""@),
        contains_part(home_page(debug, revision), ">"@ + profile_list()[i].0 + "</a>"@),
        home_page(false, revision) == home_page(false, other),
        contains_part(home_page(true, revision), revision),
        contains_part(home_page(true, revision), debug_item("/login"@, "OAuth2"@)),
        contains_part(home_page(true, revision), debug_item("/passkey"@, "Passkey"@)),
        contains_part(home_page(true, revision), debug_item("/mcpclient"@, "MCP Client"@)),
{
    let list = profile_list();
    let items = profile_items(list);
    every_profile_is_listed(list, i);
    let link = "<a href=\""@ + link_target(list[i].1) + "\""@;
    let shown = ">"@ + list[i].0 + "</a>"@;
    let before = HOME_START@ + NAME@ + HOME_SCRIPTS@ + GOOGLE_ANALYTICS_CODE@ + HOME_SEGMENT@ + SEGMENT_KEY@
        + HOME_BODY@;
    lemma_contains_after(before, items, link);
    lemma_contains_after(before, items, shown);
    let extra = if debug {
        debug_items(revision)
    } else {
        Seq::empty()
    };
    lemma_contains_longer(home_head(), link, extra);
    lemma_contains_longer(home_head(), shown, extra);
    lemma_contains_longer(home_head() + extra, link, HOME_END@);
    lemma_contains_longer(home_head() + extra, shown, HOME_END@);
    lemma_debug_items(revision, revision);
    lemma_debug_items(revision, debug_item("/login"@, "OAuth2"@));
    lemma_debug_items(revision, debug_item("/passkey"@, "Passkey"@));
    lemma_debug_items(revision, debug_item("/mcpclient"@, "MCP Client"@));
}

proof fn lemma_debug_items(revision: Seq<char>, part: Seq<char>)
    ensures
        part == revision || part == debug_item("/login"@, "OAuth2"@) || part == debug_item("/passkey"@, "Passkey"@)
            || part == debug_item("/mcpclient"@, "MCP Client"@) ==> contains_part(home_page(true, revision), part),
{
    let a = debug_item("/passkey"@, "Passkey"@);
    let b = debug_item("/login"@, "OAuth2"@);
    let c = debug_item("/mcpclient"@, "MCP Client"@);
    let d = debug_item("/anthropiclimits"@, "Anthropic Limits"@);
    let start =
        "    <li><span class=\"headerLine\" style=\"font-family:ui-monospace,monospace;font-size:0.75rem;color:rgba(0,0,0,0.35);padding-top:4px;\">"@;
    let end = "</span></li>\n"@;
    let items = debug_items(revision);
    lemma_contains_between(Seq::empty(), a, b + c + d + (start + revision + end));
    assert(items =~= Seq::<char>::empty() + a + (b + c + d + (start + revision + end)));
    lemma_contains_between(a, b, c + d + (start + revision + end));
    assert(items =~= a + b + (c + d + (start + revision + end)));
    lemma_contains_between(a + b, c, d + (start + revision + end));
    assert(items =~= a + b + c + (d + (start + revision + end)));
    lemma_contains_between(a + b + c + d + start, revision, end);
    assert(items =~= a + b + c + d + start + revision + end);
    if contains_part(items, part) {
        lemma_contains_after(home_head(), items, part);
        lemma_contains_longer(home_head() + items, part, HOME_END@);
    }
}

/// The landing page links to the repository, and moves on to the site.
pub proof fn the_landing_page_leads_on()
    ensures
        contains_part(landing_page(), "https://github.com/c5t/current"@),
        contains_part(landing_page(), ";url="@ + "https://dima.ai"@),
{
    let before = LANDING_START@ + decimal(CURRENT_LANDING_SECONDS as nat);
    let next = ";url="@ + CURRENT_LANDING_NEXT_URL@;
    lemma_contains_between(before, next, LANDING_BODY@ + CURRENT_GITHUB_URL@ + LANDING_END@);
    assert(landing_page() =~= before + next + (LANDING_BODY@ + CURRENT_GITHUB_URL@ + LANDING_END@));
    lemma_contains_between(before + next + LANDING_BODY@, CURRENT_GITHUB_URL@, LANDING_END@);
    assert(landing_page() =~= before + next + LANDING_BODY@ + CURRENT_GITHUB_URL@ + LANDING_END@);
}

} // verus!
