//! URLs as plain records of their parts, and the host and port of a request.
use vstd::prelude::*;
use vstd::string::*;

use crate::text::{decimal, decimal_text, opt_text, trim_end_char, trimmed_end};

verus! {

/// The parts of a URL.
#[derive(Debug, Clone)]
pub struct UrlParts {
    /// The whole URL, normalized.
    pub text: String,
    pub scheme: String,
    pub host: Option<String>,
    /// The host, where it is a name and no address.
    pub domain: Option<String>,
    /// The port, where it is not the scheme's default.
    pub port: Option<u16>,
    pub path: String,
    /// What stands between `://` and the path.
    pub authority: String,
}

/// What the parts of a URL say.
pub struct UrlView {
    pub text: Seq<char>,
    pub scheme: Seq<char>,
    pub host: Option<Seq<char>>,
    pub domain: Option<Seq<char>>,
    pub port: Option<u16>,
    pub path: Seq<char>,
    pub authority: Seq<char>,
}

impl View for UrlParts {
    type V = UrlView;

    open spec fn view(&self) -> UrlView {
        UrlView {
            text: self.text@,
            scheme: self.scheme@,
            host: opt_text(self.host),
            domain: opt_text(self.domain),
            port: self.port,
            path: self.path@,
            authority: self.authority@,
        }
    }
}

/// What `url::Url::parse` makes of a text: the parts of the URL, or the text of the error.
pub uninterp spec fn parsed_url(text: Seq<char>) -> Result<UrlView, Seq<char>>;

/// `url::Url::parse`, and the parts of the URL by `as_str`, `scheme`, `host_str`, `domain`, `port`,
/// `path` and `authority`. All of it is a function of the text.
#[verifier::external_body]
pub(crate) fn parse_url(text: &str) -> (r: Result<UrlParts, String>)
    ensures
        match r {
            Ok(parts) => parsed_url(text@) == Ok::<UrlView, Seq<char>>(parts@),
            Err(e) => parsed_url(text@) == Err::<UrlView, Seq<char>>(e@),
        },
{
    url::Url::parse(text).map_err(|e| e.to_string()).map(|url| UrlParts {
        text: url.as_str().to_owned(),
        scheme: url.scheme().to_owned(),
        host: url.host_str().map(|h| h.to_owned()),
        domain: url.domain().map(|d| d.to_owned()),
        port: url.port(),
        path: url.path().to_owned(),
        authority: url.authority().to_owned(),
    })
}

/// Whether a URL stays below four gigabytes with another path, which is written with twelve characters
/// at most for each of its own.
pub open spec fn has_room(url: UrlView, path: Seq<char>) -> bool {
    url.text.len() + 12 * path.len() + 16 <= u32::MAX
}

/// The text of a URL after `url::Url::set_path`.
pub uninterp spec fn url_with_path(text: Seq<char>, path: Seq<char>) -> Seq<char>;

/// `url::Url::set_path` on the URL of a text, and the URL's text after it; the empty text where
/// the text is no URL. It panics where the URL passes four gigabytes.
#[verifier::external_body]
pub(crate) fn with_path(text: &str, path: &str) -> (r: String)
    requires
        parsed_url(text@) matches Ok(url) ==> has_room(url, path@),
    ensures
        r@ == url_with_path(text@, path@),
{
    match url::Url::parse(text) {
        Ok(mut url) => {
            url.set_path(path);
            url.as_str().to_owned()
        },
        Err(_) => String::new(),
    }
}

/// Scheme, host, port where it is not the default, and the path without slashes at its end.
pub open spec fn canonical_form(url: UrlView) -> Seq<char> {
    let host = match url.host {
        Some(h) => h,
        None => Seq::empty(),
    };
    let port = match url.port {
        Some(p) => ":"@ + decimal(p as nat),
        None => Seq::empty(),
    };
    url.scheme + "://"@ + host + port + trimmed_end(url.path, '/')
}

/// Writes the canonical form of a URL.
pub fn canonical_parts(parts: &UrlParts) -> (r: String)
    ensures
        r@ == canonical_form(parts@),
{
    let mut r = parts.scheme.clone();
    r.append("://");
    match &parts.host {
        Some(h) => r.append(h.as_str()),
        None => {
            assert(r@ =~= r@ + Seq::<char>::empty());
        },
    }
    let ghost before = r@;
    match parts.port {
        Some(p) => {
            r.append(":");
            r.append(decimal_text(p as u64).as_str());
            assert(r@ =~= before + (":"@ + decimal(p as nat)));
        },
        None => {
            assert(r@ =~= before + Seq::<char>::empty());
        },
    }
    r.append(trim_end_char(parts.path.as_str(), '/').as_str());
    r
}

/// The resource identifier of a server: its URL in canonical form, or the text itself where it is
/// no URL.
pub open spec fn resource_identifier(url: Seq<char>) -> Seq<char> {
    match parsed_url(url) {
        Ok(parts) => canonical_form(parts),
        Err(_) => url,
    }
}

/// The resource identifier of a server.
pub fn canonical_resource(url: &str) -> (r: String)
    ensures
        r@ == resource_identifier(url@),
{
    match parse_url(url) {
        Ok(parts) => canonical_parts(&parts),
        Err(_) => url.to_owned(),
    }
}

/// Scheme, authority and a fixed path.
pub open spec fn at_origin(url: UrlView, path: Seq<char>) -> Seq<char> {
    url.scheme + "://"@ + url.authority + path
}

/// A URL at the same scheme and authority with another path.
pub fn origin_with(parts: &UrlParts, path: &str) -> (r: String)
    ensures
        r@ == at_origin(parts@, path@),
{
    let mut r = parts.scheme.clone();
    r.append("://");
    r.append(parts.authority.as_str());
    r.append(path);
    r
}

/// The host and port of an authority, as `http`'s parser reads them.
pub uninterp spec fn parsed_authority(text: Seq<char>) -> Option<(Seq<char>, Option<u16>)>;

/// A host with its port.
#[derive(Debug, Clone)]
pub struct HostPort {
    pub host: String,
    pub port: Option<u16>,
}

/// `http::uri::Authority` parsed from a text, with its `host` and `port_u16`: a function of the
/// text; nothing where the text is no authority.
#[verifier::external_body]
pub(crate) fn parse_authority(text: &str) -> (r: Option<HostPort>)
    ensures
        match r {
            Some(a) => parsed_authority(text@) == Some((a.host@, a.port)),
            None => parsed_authority(text@) is None,
        },
{
    text.parse::<axum::http::uri::Authority>().ok().map(|a| HostPort {
        host: a.host().to_owned(),
        port: a.port_u16(),
    })
}

// -- What holds of URLs.

/// The canonical form begins with scheme and host, and with the port where it is not the default; slashes
/// at the end of the path make no difference to it.
pub proof fn canonical_forms_leave_slashes_out(a: UrlView, b: UrlView)
    ensures
        a.host matches Some(host) ==> (a.scheme + "://"@ + host).is_prefix_of(canonical_form(a)),
        a.host matches Some(host) ==> (a.port matches Some(port) ==> (a.scheme + "://"@ + host + ":"@ + decimal(
            port as nat,
        )).is_prefix_of(canonical_form(a))),
        a.host matches Some(host) ==> (a.port is None ==> canonical_form(a) == a.scheme + "://"@ + host + trimmed_end(
            a.path,
            '/',
        )),
        trimmed_end(a.path, '/').is_suffix_of(canonical_form(a)),
        a.scheme == b.scheme && a.host == b.host && a.port == b.port && trimmed_end(a.path, '/') == trimmed_end(
            b.path,
            '/',
        ) ==> canonical_form(a) == canonical_form(b),
{
    let whole = canonical_form(a);
    let path = trimmed_end(a.path, '/');
    assert(whole.subrange(whole.len() - path.len(), whole.len() as int) =~= path);
    if a.host is Some {
        let first = a.scheme + "://"@ + a.host->0;
        assert(whole.subrange(0, first.len() as int) =~= first);
        if a.port is Some {
            let longer = a.scheme + "://"@ + a.host->0 + ":"@ + decimal(a.port->0 as nat);
            assert(whole.subrange(0, longer.len() as int) =~= longer);
        } else {
            assert(whole =~= a.scheme + "://"@ + a.host->0 + path);
        }
    }
}

/// Another path at the same origin keeps scheme and authority.
pub proof fn another_path_keeps_the_origin(url: UrlView, path: Seq<char>)
    ensures
        (url.scheme + "://"@ + url.authority).is_prefix_of(at_origin(url, path)),
        path.is_suffix_of(at_origin(url, path)),
        at_origin(url, path).len() == (url.scheme + "://"@ + url.authority).len() + path.len(),
{
    let whole = at_origin(url, path);
    let first = url.scheme + "://"@ + url.authority;
    assert(whole.subrange(0, first.len() as int) =~= first);
    assert(whole.subrange(whole.len() - path.len(), whole.len() as int) =~= path);
}

/// The resource that a server's URL names does not depend on slashes at its end; and what is no URL names
/// itself.
pub proof fn resources_are_named_without_slashes(a: Seq<char>, b: Seq<char>, x: UrlView, y: UrlView)
    ensures
        parsed_url(a) == Ok::<UrlView, Seq<char>>(x) && parsed_url(b) == Ok::<UrlView, Seq<char>>(y) && x.scheme
            == y.scheme && x.host == y.host && x.port == y.port && trimmed_end(x.path, '/') == trimmed_end(y.path, '/')
            ==> resource_identifier(a) == resource_identifier(b),
        parsed_url(a) == Ok::<UrlView, Seq<char>>(x) && x.host is Some && x.port is None ==> resource_identifier(a)
            == x.scheme + "://"@ + x.host->0 + trimmed_end(x.path, '/'),
        parsed_url(a) is Err ==> resource_identifier(a) == a,
{
    canonical_forms_leave_slashes_out(x, y);
}

} // verus!
