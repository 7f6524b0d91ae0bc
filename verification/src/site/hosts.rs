//! Which hostname gets what: the rules for hosts with a treatment of their own, the redirects that
//! follow from them, and the choice of a certificate by server name.
use vstd::hash_map::*;
use vstd::prelude::*;
use vstd::string::*;

use crate::text::{
    ascii_lower, ascii_lower_char, chars_of, decimal, decimal_text, first_index, has_suffix, index_of, joined,
    lower_ascii, same_text, text_between, trim_end_char, trimmed_end,
};
use crate::transport::{header_text, read_header};
use crate::urls::{parse_authority, parsed_authority, HostPort};

verus! {

/// Where the meetings are.
pub const ZOOM_URL: &'static str = "https://us06web.zoom.us/j/2332123321";

/// The host with a landing page.
pub const CURRENT_HOST: &'static str = "current.ai";

/// What a hostname other than the site's own gets. The hostname that the caller asked for decides,
/// on the plain listener and on the encrypted one.
#[derive(Debug, PartialEq)]
pub enum HostRule {
    /// Every path goes to this URL.
    Redirect(&'static str),
    /// Served under this canonical hostname; other spellings redirect to it, keeping the path.
    Serve(&'static str),
}

/// What a rule says.
pub enum RuleView {
    Redirect(Seq<char>),
    Serve(Seq<char>),
}

/// What an optional rule says.
pub open spec fn rule_view(rule: Option<HostRule>) -> Option<RuleView> {
    match rule {
        Some(HostRule::Redirect(target)) => Some(RuleView::Redirect(target@)),
        Some(HostRule::Serve(canonical)) => Some(RuleView::Serve(canonical@)),
        None => None,
    }
}

/// A hostname in its plain form: without dots at its end, in lower case.
pub open spec fn plain_name(hostname: Seq<char>) -> Seq<char> {
    ascii_lower(trimmed_end(hostname, '.'))
}

/// Whether a hostname is a domain or lies below it.
pub open spec fn within(hostname: Seq<char>, domain: Seq<char>) -> bool {
    hostname == domain || ("."@ + domain).is_suffix_of(hostname)
}

/// The rule for a hostname.
pub open spec fn rule_for(hostname: Seq<char>) -> Option<RuleView> {
    if plain_name(hostname) == "zoom.dima.ai"@ {
        Some(RuleView::Redirect(ZOOM_URL@))
    } else if within(plain_name(hostname), CURRENT_HOST@) {
        Some(RuleView::Serve(CURRENT_HOST@))
    } else {
        None
    }
}

/// A hostname in its plain form.
pub fn plain(hostname: &str) -> (r: String)
    ensures
        r@ == plain_name(hostname@),
{
    let trimmed = trim_end_char(hostname, '.');
    lower_ascii(trimmed.as_str())
}

/// The rule for a hostname.
pub fn host_rule(hostname: &str) -> (r: Option<HostRule>)
    ensures
        rule_view(r) == rule_for(hostname@),
{
    let name = plain(hostname);
    if same_text(name.as_str(), "zoom.dima.ai") {
        return Some(HostRule::Redirect(ZOOM_URL));
    }
    let below = joined(".", CURRENT_HOST);
    if same_text(name.as_str(), CURRENT_HOST) || has_suffix(name.as_str(), below.as_str()) {
        return Some(HostRule::Serve(CURRENT_HOST));
    }
    None
}

/// Every spelling of a hostname gets the same rule.
pub proof fn spelling_makes_no_difference(a: Seq<char>, b: Seq<char>)
    requires
        plain_name(a) == plain_name(b),
    ensures
        rule_for(a) == rule_for(b),
{
}

// -- Requests.

/// The parts of a request that decide what it gets.
#[derive(Debug)]
pub struct RequestParts {
    /// The host and port in the request's URI, where it has one.
    pub authority: Option<HostPort>,
    /// The first `Host` header.
    pub host: Option<Vec<u8>>,
    pub path: String,
    /// The path with the query.
    pub path_and_query: Option<String>,
    pub method: String,
    /// The first `If-None-Match` header.
    pub if_none_match: Option<Vec<u8>>,
}

/// What a host and a port are.
pub open spec fn host_port_view(h: HostPort) -> (Seq<char>, Option<u16>) {
    (h.host@, h.port)
}

/// The host and port that a request asks for: those of its URI, or else those of its `Host` header.
pub open spec fn asked_host(request: RequestParts) -> Option<(Seq<char>, Option<u16>)> {
    match request.authority {
        Some(h) => Some(host_port_view(h)),
        None => match request.host {
            Some(bytes) => match header_text(bytes@) {
                Some(text) => parsed_authority(text),
                None => None,
            },
            None => None,
        },
    }
}

/// The host and port that a request asks for.
pub fn request_host(request: &RequestParts) -> (r: Option<HostPort>)
    ensures
        match r {
            Some(h) => asked_host(*request) == Some(host_port_view(h)),
            None => asked_host(*request) is None,
        },
{
    match &request.authority {
        Some(h) => Some(HostPort { host: h.host.clone(), port: h.port }),
        None => match &request.host {
            Some(bytes) => match read_header(bytes) {
                Some(text) => parse_authority(text.as_str()),
                None => None,
            },
            None => None,
        },
    }
}

/// The path of a request with its query, or the root.
pub open spec fn asked_path(request: RequestParts) -> Seq<char> {
    match request.path_and_query {
        Some(p) => p@,
        None => "/"@,
    }
}

/// The same path on HTTPS at a host, with the port only where it is not the default.
pub open spec fn https_url(host: Seq<char>, port: Option<u16>, path: Seq<char>) -> Seq<char> {
    match port {
        Some(p) if p != 443 => "https://"@ + host + ":"@ + decimal(p as nat) + path,
        _ => "https://"@ + host + path,
    }
}

/// The same path on HTTPS at a host.
pub fn https_location(host: &str, port: Option<u16>, request: &RequestParts) -> (r: String)
    ensures
        r@ == https_url(host@, port, asked_path(*request)),
{
    let mut r = joined("https://", host);
    match port {
        Some(p) => if p != 443 {
            r.append(":");
            r.append(decimal_text(p as u64).as_str());
        },
        None => {},
    }
    match &request.path_and_query {
        Some(p) => {
            r.append(p.as_str());
        },
        None => {
            r.append("/");
        },
    }
    r
}

/// The origin of the site.
pub open spec fn origin_url(fqdn: Seq<char>, port: u16) -> Seq<char> {
    https_url(fqdn, Some(port), Seq::empty())
}

/// The origin of the site.
pub fn site_origin(fqdn: &str, port: u16) -> (r: String)
    ensures
        r@ == origin_url(fqdn@, port),
{
    let mut r = joined("https://", fqdn);
    if port != 443 {
        r.append(":");
        r.append(decimal_text(port as u64).as_str());
    }
    assert(r@ =~= origin_url(fqdn@, port));
    r
}

/// Where a plain request goes: a host that is redirected straight to its target, a host that is
/// served under a canonical name to that name on HTTPS, any other to the site itself on HTTPS.
pub open spec fn plain_target(request: RequestParts, fqdn: Seq<char>, https_port: u16) -> Seq<char> {
    let rule = match asked_host(request) {
        Some((hostname, _)) => rule_for(hostname),
        None => None,
    };
    match rule {
        Some(RuleView::Redirect(target)) => target,
        Some(RuleView::Serve(canonical)) => https_url(canonical, Some(https_port), asked_path(request)),
        None => https_url(fqdn, Some(https_port), asked_path(request)),
    }
}

/// Where a plain request goes.
pub fn http_redirect_location(request: &RequestParts, fqdn: &str, https_port: u16) -> (r: String)
    ensures
        r@ == plain_target(*request, fqdn@, https_port),
{
    let rule = match request_host(request) {
        Some(h) => host_rule(h.host.as_str()),
        None => None,
    };
    match rule {
        Some(HostRule::Redirect(target)) => target.to_owned(),
        Some(HostRule::Serve(canonical)) => https_location(canonical, Some(https_port), request),
        None => https_location(fqdn, Some(https_port), request),
    }
}

/// A plain request always goes to HTTPS.
pub proof fn plain_requests_go_to_https(request: RequestParts, fqdn: Seq<char>, https_port: u16)
    ensures
        "https://"@.is_prefix_of(plain_target(request, fqdn, https_port)),
{
    reveal_strlit("https://");
    reveal_strlit("https://us06web.zoom.us/j/2332123321");
    let target = plain_target(request, fqdn, https_port);
    assert(target.subrange(0, 8) =~= "https://"@);
}

// -- Certificates by server name.

/// The parent of a domain: what follows its first dot, if that is anything.
pub open spec fn parent_domain(name: Seq<char>) -> Option<Seq<char>> {
    let at = first_index(name, '.', 0);
    if 0 <= at && at + 1 < name.len() {
        Some(name.skip(at + 1))
    } else {
        None
    }
}

/// The entry for a name: its own, or else that of the closest parent with one.
pub open spec fn closest<V>(by_name: Map<Seq<char>, V>, name: Seq<char>) -> Option<V>
    decreases name.len(),
{
    if by_name.contains_key(name) {
        Some(by_name[name])
    } else {
        match parent_domain(name) {
            Some(parent) => closest(by_name, parent),
            None => None,
        }
    }
}

/// Values by hostname.
pub type NameMap<V> = StringHashMap<V>;

/// Looks a server name up: by exact match first, and then by its parent domains, so that
/// `www.current.ai` gets the entry of `current.ai` where there is no closer one.
pub fn sni_lookup<'a, V>(by_name: &'a NameMap<V>, server_name: &str) -> (r: Option<&'a V>)
    ensures
        match r {
            Some(v) => closest(by_name@, plain_name(server_name@)) == Some(*v),
            None => closest(by_name@, plain_name(server_name@)) is None,
        },
{
    let mut candidate = plain(server_name);
    loop
        invariant
            closest(by_name@, plain_name(server_name@)) == closest(by_name@, candidate@),
        decreases candidate@.len(),
    {
        match by_name.get(candidate.as_str()) {
            Some(v) => {
                return Some(v);
            },
            None => {},
        }
        let v = chars_of(candidate.as_str());
        let at = index_of(&v, '.', 0);
        if v.len() == 0 || at >= v.len() - 1 {
            return None;
        }
        candidate = text_between(&v, at + 1, v.len());
        assert(candidate@ =~= v@.skip(at + 1));
    }
}

/// Whether a name is a domain or lies below it, the domain being named without a dot at its front.
pub open spec fn serves(domain: Seq<char>, name: Seq<char>) -> bool {
    domain.len() > 0 && within(name, domain)
}

/// The entry that is found belongs to the name or to a domain above it, and no entry of a longer
/// such domain was passed over.
pub proof fn the_closest_entry_is_found<V>(by_name: Map<Seq<char>, V>, name: Seq<char>)
    requires
        name.len() > 0,
    ensures
        match closest(by_name, name) {
            Some(v) => exists|domain: Seq<char>|
                {
                    &&& #[trigger] serves(domain, name)
                    &&& by_name.contains_key(domain)
                    &&& by_name[domain] == v
                    &&& forall|longer: Seq<char>| #[trigger]
                        serves(longer, name) && longer.len() > domain.len() ==> !by_name.contains_key(longer)
                },
            None => forall|domain: Seq<char>| #[trigger] serves(domain, name) ==> !by_name.contains_key(domain),
        },
    decreases name.len(),
{
    reveal_strlit(".");
    if by_name.contains_key(name) {
        assert(serves(name, name));
        assert forall|longer: Seq<char>| #[trigger] serves(longer, name) && longer.len() > name.len() implies !by_name
            .contains_key(longer) by {
            if longer != name {
                assert(("."@ + longer).len() <= name.len());
            }
        }
    } else {
        let at = first_index(name, '.', 0);
        lemma_first_dot(name, 0);
        match parent_domain(name) {
            Some(parent) => {
                the_closest_entry_is_found(by_name, parent);
                assert forall|domain: Seq<char>| #[trigger] serves(domain, name) && domain != name implies serves(
                    domain,
                    parent,
                ) by {
                    lemma_below_parent(domain, name);
                }
                assert forall|domain: Seq<char>| #[trigger] serves(domain, parent) implies serves(domain, name) by {
                    lemma_parent_above(domain, name);
                }
                match closest(by_name, parent) {
                    Some(v) => {
                        let domain = choose|domain: Seq<char>|
                            {
                                &&& #[trigger] serves(domain, parent)
                                &&& by_name.contains_key(domain)
                                &&& by_name[domain] == v
                                &&& forall|longer: Seq<char>| #[trigger]
                                    serves(longer, parent) && longer.len() > domain.len() ==> !by_name.contains_key(
                                        longer,
                                    )
                            };
                        assert(serves(domain, name));
                        assert forall|longer: Seq<char>| #[trigger]
                            serves(longer, name) && longer.len() > domain.len() implies !by_name.contains_key(
                            longer,
                        ) by {
                            if longer != name {
                                assert(serves(longer, parent));
                            }
                        }
                    },
                    None => {
                        assert forall|domain: Seq<char>| #[trigger] serves(domain, name) implies !by_name.contains_key(
                            domain,
                        ) by {
                            if domain != name {
                                assert(serves(domain, parent));
                            }
                        }
                    },
                }
            },
            None => {
                assert forall|domain: Seq<char>| #[trigger] serves(domain, name) implies !by_name.contains_key(
                    domain,
                ) by {
                    if domain != name {
                        let dot = name.len() - domain.len() - 1;
                        assert(("."@ + domain)[0] == '.');
                        assert(name[dot] == '.');
                        assert(at <= dot);
                    }
                }
            },
        }
    }
}

/// The first dot is one, and none stands before it.
proof fn lemma_first_dot(name: Seq<char>, from: int)
    requires
        0 <= from <= name.len(),
    ensures
        from <= first_index(name, '.', from) <= name.len(),
        first_index(name, '.', from) < name.len() ==> name[first_index(name, '.', from)] == '.',
        forall|j: int| from <= j < first_index(name, '.', from) ==> name[j] != '.',
    decreases name.len() - from,
{
    if from < name.len() && name[from] != '.' {
        lemma_first_dot(name, from + 1);
    }
}

/// A domain above a name is the name's parent or lies above it.
proof fn lemma_below_parent(domain: Seq<char>, name: Seq<char>)
    requires
        serves(domain, name),
        domain != name,
        parent_domain(name) is Some,
    ensures
        serves(domain, parent_domain(name)->0),
{
    reveal_strlit(".");
    let at = first_index(name, '.', 0);
    let parent = name.skip(at + 1);
    lemma_first_dot(name, 0);
    let tail = "."@ + domain;
    let dot = name.len() - tail.len();
    assert(tail[0] == '.');
    assert(name.subrange(dot, name.len() as int) == tail);
    assert(name[dot] == tail[0]);
    assert(at <= dot);
    if at == dot {
        assert(parent =~= domain) by {
            assert forall|i: int| 0 <= i < domain.len() implies parent[i] == domain[i] by {
                assert(tail[i + 1] == domain[i]);
                assert(name.subrange(dot, name.len() as int)[i + 1] == name[dot + i + 1]);
            }
        }
    } else {
        assert(tail.is_suffix_of(parent)) by {
            assert(parent.subrange(parent.len() - tail.len(), parent.len() as int) =~= tail) by {
                assert forall|i: int| 0 <= i < tail.len() implies parent[parent.len() - tail.len() + i] == tail[i] by {
                    assert(name.subrange(dot, name.len() as int)[i] == name[dot + i]);
                }
            }
        }
    }
}

/// A domain that serves the parent of a name serves the name.
proof fn lemma_parent_above(domain: Seq<char>, name: Seq<char>)
    requires
        parent_domain(name) is Some,
        serves(domain, parent_domain(name)->0),
    ensures
        serves(domain, name),
{
    reveal_strlit(".");
    let at = first_index(name, '.', 0);
    let parent = name.skip(at + 1);
    lemma_first_dot(name, 0);
    let tail = "."@ + domain;
    if domain == parent {
        assert(name.subrange(at, name.len() as int) =~= tail);
    } else {
        assert(parent.subrange(parent.len() - tail.len(), parent.len() as int) == tail);
        assert(name.subrange(name.len() - tail.len(), name.len() as int) =~= tail) by {
            assert forall|i: int| 0 <= i < tail.len() implies name[name.len() - tail.len() + i] == tail[i] by {
                assert(parent.subrange(parent.len() - tail.len(), parent.len() as int)[i] == parent[parent.len()
                    - tail.len() + i]);
            }
        }
    }
}

// -- What holds of hosts.

/// Trimming dots and lowering letters can be done in either order.
proof fn lemma_lowered_trimmed(text: Seq<char>)
    ensures
        ascii_lower(trimmed_end(text, '.')) == trimmed_end(ascii_lower(text), '.'),
    decreases text.len(),
{
    let low = ascii_lower(text);
    if text.len() > 0 {
        assert(low.last() == ascii_lower_char(text.last()));
        assert(low.drop_last() =~= ascii_lower(text.drop_last()));
        if text.last() == '.' {
            lemma_lowered_trimmed(text.drop_last());
        }
    } else {
        assert(low =~= text);
    }
}

/// Capitals and dots at the end of a hostname make no difference to its rule.
pub proof fn capitals_and_dots_make_no_difference(a: Seq<char>, b: Seq<char>)
    ensures
        rule_for(a.push('.')) == rule_for(a),
        ascii_lower(a) == ascii_lower(b) ==> rule_for(a) == rule_for(b),
{
    assert(a.push('.').drop_last() =~= a);
    lemma_lowered_trimmed(a);
    lemma_lowered_trimmed(b);
}

/// A name without capitals and without a dot at its end is plain already.
proof fn lemma_plain_stays(name: Seq<char>)
    requires
        ascii_lower(name) == name,
        name.len() > 0 ==> name.last() != '.',
    ensures
        plain_name(name) == name,
{
}

proof fn lemma_host_names()
    ensures
        "."@ + "current.ai"@ == ".current.ai"@,
        plain_name("current.ai"@) == "current.ai"@,
        plain_name("zoom.dima.ai"@) == "zoom.dima.ai"@,
        "current.ai"@.len() == 10 && ".current.ai"@.len() == 11 && "zoom.dima.ai"@.len() == 12,
        ".current.ai"@[7] == 't' && ".current.ai"@.last() == 'i' && "zoom.dima.ai"@[8] == 'a',
        ascii_lower(".current.ai"@) == ".current.ai"@,
{
    reveal_strlit(".");
    reveal_strlit("current.ai");
    reveal_strlit(".current.ai");
    reveal_strlit("zoom.dima.ai");
    assert("."@ + "current.ai"@ =~= ".current.ai"@);
    assert(ascii_lower("current.ai"@) =~= "current.ai"@);
    assert(ascii_lower("zoom.dima.ai"@) =~= "zoom.dima.ai"@);
    assert(ascii_lower(".current.ai"@) =~= ".current.ai"@);
    lemma_plain_stays("current.ai"@);
    lemma_plain_stays("zoom.dima.ai"@);
}

/// Every name below the host with a landing page is served under that host, and so is the host itself.
pub proof fn names_below_are_served(below: Seq<char>)
    ensures
        rule_for(below + ".current.ai"@) == Some(RuleView::Serve("current.ai"@)),
        rule_for("current.ai"@) == Some(RuleView::Serve("current.ai"@)),
{
    lemma_host_names();
    let tail = ".current.ai"@;
    let host = below + tail;
    assert(host.last() == tail.last());
    assert(trimmed_end(host, '.') == host);
    let low = plain_name(host);
    assert(low =~= ascii_lower(below) + ascii_lower(tail));
    assert(low.subrange(low.len() - 11, low.len() as int) =~= tail);
    assert(low[low.len() - 4] == tail[7]);
}

/// The meetings' host is sent to the meetings, and no name elsewhere has a rule.
pub proof fn other_names_have_no_rule(name: Seq<char>)
    requires
        ascii_lower(name) == name,
        name.len() > 0 && name.last() != '.',
    ensures
        rule_for("zoom.dima.ai"@) == Some(RuleView::Redirect("https://us06web.zoom.us/j/2332123321"@)),
        name != "zoom.dima.ai"@ && name != "current.ai"@ && !".current.ai"@.is_suffix_of(name) ==> rule_for(
            name,
        ) is None,
{
    lemma_host_names();
    lemma_plain_stays(name);
}

/// The host in a request's URI decides; only where there is none does the `Host` header.
pub proof fn the_uri_decides_before_the_header(request: RequestParts)
    ensures
        request.authority matches Some(h) ==> asked_host(request) == Some((h.host@, h.port)),
        request.authority is None && request.host is None ==> asked_host(request) is None,
        request.authority is None ==> (request.host matches Some(bytes) ==> (header_text(bytes@) matches Some(text)
            ==> asked_host(request) == parsed_authority(text))),
{
}

/// A location on HTTPS begins with its host, names the port exactly where it is not the default, and keeps
/// the path.
pub proof fn https_locations_keep_host_and_path(host: Seq<char>, port: u16, path: Seq<char>)
    ensures
        https_url(host, None, path) == "https://"@ + host + path,
        https_url(host, Some(443), path) == "https://"@ + host + path,
        port != 443 ==> (("https://"@ + host + ":"@ + decimal(port as nat)).is_prefix_of(
            https_url(host, Some(port), path),
        ) && https_url(host, Some(port), path).len() == ("https://"@ + host + ":"@ + decimal(port as nat)).len()
            + path.len()),
        path.is_suffix_of(https_url(host, Some(port), path)),
{
    let url = https_url(host, Some(port), path);
    assert(url.subrange(url.len() - path.len(), url.len() as int) =~= path);
    if port != 443 {
        let first = "https://"@ + host + ":"@ + decimal(port as nat);
        assert(url.subrange(0, first.len() as int) =~= first);
    }
}

/// A plain request for a host without a rule goes to the site itself, on its port, with its path and query;
/// one for a name below the host with a landing page goes to that host.
pub proof fn plain_requests_keep_their_path(request: RequestParts, fqdn: Seq<char>, https_port: u16)
    ensures
        (asked_host(request) is None || rule_for((asked_host(request)->0).0) is None) ==> {
            let target = plain_target(request, fqdn, https_port);
            &&& ("https://"@ + fqdn).is_prefix_of(target)
            &&& https_port == 443 ==> target == "https://"@ + fqdn + asked_path(request)
            &&& https_port != 443 ==> target == "https://"@ + fqdn + ":"@ + decimal(https_port as nat) + asked_path(
                request,
            )
        },
        asked_host(request) matches Some(asked) ==> (rule_for(asked.0) == Some(RuleView::Serve("current.ai"@)) ==> {
            let target = plain_target(request, fqdn, https_port);
            &&& "https://current.ai"@.is_prefix_of(target)
            &&& asked_path(request).is_suffix_of(target)
        }),
        request.path_and_query matches Some(p) ==> asked_path(request) == p@,
        request.path_and_query is None ==> asked_path(request) == "/"@,
{
    let path = asked_path(request);
    let target = plain_target(request, fqdn, https_port);
    let first = "https://"@ + fqdn;
    if asked_host(request) is None || rule_for((asked_host(request)->0).0) is None {
        assert(target.subrange(0, first.len() as int) =~= first);
    } else if rule_for((asked_host(request)->0).0) == Some(RuleView::Serve("current.ai"@)) {
        reveal_strlit("https://");
        reveal_strlit("current.ai");
        reveal_strlit("https://current.ai");
        assert(target.subrange(0, 18) =~= "https://current.ai"@);
        assert(target.subrange(target.len() - path.len(), target.len() as int) =~= path);
    }
}

/// The origin of the site is its name on HTTPS, with the port exactly where it is not the default, and
/// nothing behind it.
pub proof fn the_origin_has_no_path(fqdn: Seq<char>, port: u16)
    ensures
        port == 443 ==> origin_url(fqdn, port) == "https://"@ + fqdn,
        port != 443 ==> origin_url(fqdn, port) == "https://"@ + fqdn + ":"@ + decimal(port as nat),
{
    assert(origin_url(fqdn, 443) =~= "https://"@ + fqdn);
    assert(port != 443 ==> origin_url(fqdn, port) =~= "https://"@ + fqdn + ":"@ + decimal(port as nat));
}

} // verus!
