use homepage::site::certs::{
    expand_tilde, file_name, join_path, missing_file, parent_path, precedes, resolve_fqdn_cert_key,
    sibling_letsencrypt_dirs, sibling_parent, CertArgs, Sibling,
};
use homepage::site::hosts::{
    host_rule, http_redirect_location, https_location, request_host, site_origin, sni_lookup, HostRule, NameMap, RequestParts,
    CURRENT_HOST, ZOOM_URL,
};
use homepage::site::pages::{
    current_landing_html, redirect_get, redirect_post, render_home, CURRENT_GITHUB_URL, CURRENT_LANDING_NEXT_URL,
};
use homepage::site::statics::{
    can_revalidate, file_etag, host_redirects, if_none_match_matches, pad_answer, pad_asset, read_path, static_answer,
    static_cache_headers, static_file, static_relative_path, FileAnswer, Plan,
};
use homepage::urls::HostPort;

/// A request as HTTP/1.1 sends it: a path, and a `Host` header.
fn request(path_and_query: &str, host: Option<&str>) -> RequestParts {
    let path = match path_and_query.split_once('?') {
        Some((path, _)) => path,
        None => path_and_query,
    };
    RequestParts {
        authority: None,
        host: host.map(|h| h.as_bytes().to_vec()),
        path: path.to_string(),
        path_and_query: Some(path_and_query.to_string()),
        method: "GET".to_string(),
        if_none_match: None,
    }
}

/// A request as HTTP/2 sends it: with the host in the URI.
fn request_at(host: &str, port: Option<u16>, path: &str) -> RequestParts {
    let mut parts = request(path, None);
    parts.authority = Some(HostPort { host: host.to_string(), port });
    parts
}

#[test]
fn host_rules_cover_every_current_ai_spelling() {
    assert_eq!(host_rule("current.ai"), Some(HostRule::Serve(CURRENT_HOST)));
    assert_eq!(host_rule("CURRENT.AI"), Some(HostRule::Serve(CURRENT_HOST)));
    assert_eq!(host_rule("www.current.ai"), Some(HostRule::Serve(CURRENT_HOST)));
    assert_eq!(host_rule("current.ai."), Some(HostRule::Serve(CURRENT_HOST)));
    assert_eq!(host_rule("zoom.dima.ai"), Some(HostRule::Redirect(ZOOM_URL)));
    assert_eq!(host_rule("notcurrent.ai"), None);
    assert_eq!(host_rule("dima.ai"), None);
}

#[test]
fn current_ai_serves_the_landing_page_and_canonicalizes_other_spellings() {
    // The bare host gets the landing page on every path, statics and the pad alias included.
    for path in ["/", "/some/path?q=1", "/pad", "/static/favicon.svg", "/.well-known"] {
        let Plan::Page(body) = host_redirects(&request(path, Some("current.ai"))) else {
            panic!("no page for {path}");
        };
        assert!(body.contains(&format!(r#"<a href="{}">github.com/c5t/current</a>"#, CURRENT_GITHUB_URL)), "{path}");
        assert!(body.contains(&format!(r#"content="3;url={}""#, CURRENT_LANDING_NEXT_URL)), "{path}");
    }

    // Other spellings redirect to the bare host, keeping path, query, and a non-default port.
    for (host, path, location) in [
        ("www.current.ai", "/", "https://current.ai/"),
        ("www.current.ai:443", "/a/b?c=d", "https://current.ai/a/b?c=d"),
        ("www.current.ai:8443", "/pad", "https://current.ai:8443/pad"),
        ("WWW.Current.AI", "/", "https://current.ai/"),
        ("current.ai.", "/", "https://current.ai/"),
    ] {
        let Plan::Redirect(to) = host_redirects(&request(path, Some(host))) else {
            panic!("no redirect for {host}{path}");
        };
        assert_eq!(to, location, "{host}{path}");
    }

    // HTTP/2 requests carry the host in the URI authority and no `Host` header at all.
    let Plan::Redirect(to) = host_redirects(&request_at("www.current.ai", Some(8443), "/x")) else {
        panic!("no redirect");
    };
    assert_eq!(to, "https://current.ai:8443/x");
    assert!(matches!(host_redirects(&request_at("current.ai", None, "/x")), Plan::Page(_)));

    // ACME challenges pass through to the static files, so certbot's webroot mode keeps working.
    let plan = host_redirects(&request("/.well-known/acme-challenge/token", Some("current.ai")));
    let Plan::Static(Some(names)) = plan else {
        panic!("no static file: {plan:?}");
    };
    assert_eq!(names, [".well-known", "acme-challenge", "token"]);

    // Other hosts still get their own content, the pad alias included.
    assert!(matches!(
        host_redirects(&request("/pad", Some("dima.ai"))),
        Plan::Pad("pad.html", "text/html; charset=utf-8")
    ));
    assert!(matches!(host_redirects(&request("/", Some("dima.ai"))), Plan::Route));
    assert!(matches!(host_redirects(&request("/", None)), Plan::Route));
    let Plan::Redirect(to) = host_redirects(&request("/any", Some("zoom.dima.ai"))) else {
        panic!("no redirect");
    };
    assert_eq!(to, ZOOM_URL);
}

#[test]
fn plain_http_goes_to_https_on_the_canonical_host() {
    let at = |path: &str, host: Option<&str>, port: u16| http_redirect_location(&request(path, host), "dima.ai", port);
    assert_eq!(at("/anything?x=y", Some("current.ai"), 443), "https://current.ai/anything?x=y");
    assert_eq!(at("/anything?x=y", Some("www.current.ai"), 443), "https://current.ai/anything?x=y");
    assert_eq!(at("/anything?x=y", Some("www.current.ai"), 8443), "https://current.ai:8443/anything?x=y");

    assert_eq!(at("/anything?x=y", Some("dima.ai"), 443), "https://dima.ai/anything?x=y");
    assert_eq!(at("/", Some("dima.ai"), 8443), "https://dima.ai:8443/");

    // No usable Host header at all: still the FQDN.
    assert_eq!(at("/", None, 443), "https://dima.ai/");

    // Plain-HTTP requests for the Zoom hostname used to bounce via https://dima.ai/ instead.
    assert_eq!(at("/", Some("zoom.dima.ai"), 443), ZOOM_URL);
}

#[test]
fn sni_lookup_falls_back_to_parent_domains() {
    let mut by_name: NameMap<&str> = NameMap::new();
    by_name.insert("current.ai".to_string(), "current");
    by_name.insert("dima.ai".to_string(), "dima");
    assert_eq!(sni_lookup(&by_name, "current.ai"), Some(&"current"));
    assert_eq!(sni_lookup(&by_name, "Current.AI"), Some(&"current"));
    assert_eq!(sni_lookup(&by_name, "www.current.ai"), Some(&"current"));
    assert_eq!(sni_lookup(&by_name, "a.b.dima.ai"), Some(&"dima"));
    assert_eq!(sni_lookup(&by_name, "example.com"), None);
    assert_eq!(sni_lookup(&by_name, "ai"), None);
}

#[test]
fn redirects_of_other_spellings_are_followed_once() {
    for host in ["www.current.ai:8443", "CURRENT.AI:8443", "a.b.current.ai.:8443"] {
        let Plan::Redirect(to) = host_redirects(&request("/x?y", Some(host))) else {
            panic!("no redirect for {host}");
        };
        assert_eq!(to, "https://current.ai:8443/x?y");
    }
    assert!(matches!(host_redirects(&request("/x?y", Some("current.ai:8443"))), Plan::Page(_)));
    assert!(matches!(host_redirects(&request("/x", Some("notcurrent.ai"))), Plan::Route));
}

#[test]
fn plain_requests_always_go_to_https() {
    for host in [None, Some("dima.ai"), Some("www.current.ai"), Some("Zoom.Dima.AI."), Some("no host")] {
        let to = http_redirect_location(&request("/", host), "dima.ai", 8443);
        assert!(to.starts_with("https://"), "{to}");
    }
    // Both listeners send the meetings' host to the meetings.
    let Plan::Redirect(to) = host_redirects(&request("/x", Some("Zoom.Dima.AI."))) else {
        panic!("no redirect");
    };
    assert_eq!(to, ZOOM_URL);
}

#[test]
fn only_tokens_pass_the_landing_page() {
    for path in ["/.well-known/", "/.well-known/x", "/.well-known/acme-challenge", "/.well-known/acme-challengex/t"] {
        let Plan::Page(body) = host_redirects(&request(path, Some("current.ai"))) else {
            panic!("no page for {path}");
        };
        assert_eq!(body, current_landing_html(), "{path}");
        // Elsewhere they are static files.
        assert!(matches!(host_redirects(&request(path, Some("dima.ai"))), Plan::Static(_)), "{path}");
    }
    assert!(matches!(
        host_redirects(&request("/.well-known/acme-challenge/", Some("current.ai"))),
        Plan::Static(_)
    ));
}

#[test]
fn tokens_are_served_on_hosts_that_are_not_redirected() {
    let path = "/.well-known/acme-challenge/a-B_9";
    for host in [None, Some("dima.ai"), Some("current.ai")] {
        let Plan::Static(Some(names)) = host_redirects(&request(path, host)) else {
            panic!("no file for {host:?}");
        };
        assert_eq!(names, [".well-known", "acme-challenge", "a-B_9"]);
    }
    assert!(matches!(host_redirects(&request(path, Some("zoom.dima.ai"))), Plan::Redirect(_)));
}

#[test]
fn sni_lookup_prefers_the_closest_entry() {
    let mut by_name: NameMap<u8> = NameMap::new();
    by_name.insert("ai".to_string(), 1);
    by_name.insert("dima.ai".to_string(), 2);
    by_name.insert("b.dima.ai".to_string(), 3);
    assert_eq!(sni_lookup(&by_name, "a.b.dima.ai."), Some(&3));
    assert_eq!(sni_lookup(&by_name, "c.dima.ai"), Some(&2));
    assert_eq!(sni_lookup(&by_name, "notdima.ai"), Some(&1));
    assert_eq!(sni_lookup(&by_name, ""), None);
}

#[test]
fn pad_asset_maps_both_relative_forms_of_the_script() {
    assert_eq!(pad_asset("/pad").unwrap().0, "pad.html");
    assert_eq!(pad_asset("/pad/").unwrap().0, "pad.html");
    // Reached from `/pad` and from `/pad/` respectively.
    assert_eq!(pad_asset("/pad.js").unwrap().0, "pad.js");
    assert_eq!(pad_asset("/pad/pad.js").unwrap().0, "pad.js");
    // Client-side routes fall back to the shell; unrelated paths are left to the router.
    assert_eq!(pad_asset("/pad/whatever").unwrap().0, "pad.html");
    assert!(pad_asset("/padding").is_none());
    assert!(pad_asset("/static/pad.js").is_none());
}

#[test]
fn pad_serves_the_script_with_its_own_content_type() {
    for path in ["/pad", "/pad/", "/pad/some/client/route"] {
        assert_eq!(pad_asset(path), Some(("pad.html", "text/html; charset=utf-8")), "{path}");
    }
    for path in ["/pad.js", "/pad/pad.js"] {
        assert_eq!(pad_asset(path), Some(("pad.js", "text/javascript; charset=utf-8")), "{path}");
    }
    assert_eq!(static_cache_headers(&None), [("cache-control".to_string(), "no-cache".to_string())]);
}

#[test]
fn pad_paths_get_their_files() {
    let shell = ("pad.html", "text/html; charset=utf-8");
    let script = ("pad.js", "text/javascript; charset=utf-8");
    for (path, expected) in [
        ("/pad", shell),
        ("/pad/", shell),
        ("/pad/some/client/route", shell),
        ("/pad.js", script),
        ("/pad/pad.js", script),
    ] {
        let asked = request(path, None);
        let Plan::Pad(file, content_type) = host_redirects(&asked) else {
            panic!("no file of the pad for {path}");
        };
        assert_eq!((file, content_type), expected, "{path}");
        let etag = Some(file_etag(33, 1700000000, 0));
        assert_eq!(pad_answer(&asked, true, &etag), FileAnswer::Body, "{path}");
        assert_eq!(static_cache_headers(&etag)[0], ("cache-control".to_string(), "no-cache".to_string()), "{path}");
    }
}

#[test]
fn statics_have_cache_headers_and_revalidate() {
    let etag = Some(file_etag(1234, 1700000000, 5));
    let first = request("/static/favicon.svg", None);
    assert_eq!(static_answer(&first, 200, &etag), FileAnswer::Body);
    assert_eq!(
        static_cache_headers(&etag),
        [
            ("cache-control".to_string(), "no-cache".to_string()),
            ("etag".to_string(), "W/\"4d2-6553f100-5\"".to_string())
        ]
    );

    let mut again = request("/static/favicon.svg", None);
    again.if_none_match = etag.clone().map(|tag| tag.into_bytes());
    assert_eq!(static_answer(&again, 200, &etag), FileAnswer::NotModified);
    // A failure is handed on as it is.
    assert_eq!(static_answer(&again, 404, &etag), FileAnswer::Body);
    assert_eq!(static_answer(&again, 200, &None), FileAnswer::Body);
}

#[test]
fn pad_script_revalidates() {
    let etag = Some(file_etag(19, 1700000000, 0));
    let mut again = request("/pad/pad.js", None);
    again.if_none_match = etag.clone().map(|tag| tag.into_bytes());
    assert_eq!(pad_answer(&again, true, &etag), FileAnswer::NotModified);
    again.method = "HEAD".to_string();
    assert_eq!(pad_answer(&again, true, &etag), FileAnswer::NotModified);
    again.method = "POST".to_string();
    assert_eq!(pad_answer(&again, true, &etag), FileAnswer::Body);
    assert!(!can_revalidate(&again, &etag));
    assert_eq!(pad_answer(&again, false, &None), FileAnswer::NotFound);
}

#[test]
fn pad_shell_and_script_have_distinct_etags() {
    let shell = file_etag(33, 1700000000, 123456789);
    let script = file_etag(19, 1700000000, 123456789);
    assert_ne!(shell, script);
    assert_ne!(file_etag(1, 0x11, 1), file_etag(0x11, 1, 1));
    assert_eq!(file_etag(0, 0, 0), "W/\"0-0-0\"");
    assert_eq!(file_etag(u64::MAX, 255, 999_999_999), "W/\"ffffffffffffffff-ff-3b9ac9ff\"");
}

#[test]
fn conditions_are_lists_of_tags() {
    let matches = |condition: &str| if_none_match_matches(&Some(condition.as_bytes().to_vec()), "W/\"a-b-c\"");
    assert!(matches("W/\"a-b-c\""));
    assert!(matches("\"a-b-c\""));
    assert!(matches("\"x\", W/\"a-b-c\" , \"y\""));
    assert!(matches("*"));
    assert!(matches("\"x\",*"));
    assert!(!matches("\"x\""));
    assert!(!matches(""));
    assert!(!matches("w/\"a-b-c\""));
    assert!(!if_none_match_matches(&None, "W/\"a-b-c\""));
    // A value that is no text matches nothing.
    assert!(!if_none_match_matches(&Some(vec![b'*', 0xe4]), "W/\"a-b-c\""));
    assert!(!if_none_match_matches(&Some(vec![b'*', b'\n']), "W/\"a-b-c\""));
}

#[test]
fn static_paths_map_below_the_static_directory() {
    assert_eq!(static_relative_path("/static/a/b.css").as_deref(), Some("a/b.css"));
    assert_eq!(static_relative_path("/.well-known/x").as_deref(), Some("x"));
    assert_eq!(
        static_relative_path("/.well-known/acme-challenge/t").as_deref(),
        Some(".well-known/acme-challenge/t")
    );
    assert_eq!(static_relative_path("/.well-known/acme-challenge").as_deref(), Some("acme-challenge"));
    assert_eq!(static_relative_path("/static").as_deref(), Some(""));
    assert_eq!(static_relative_path("/.well-known").as_deref(), Some(""));
    assert_eq!(static_relative_path("/staticx"), None);
    assert_eq!(static_relative_path("/"), None);
}

#[test]
fn static_files_never_leave_their_directory() {
    let file = |path: &str| static_file(path).map(|names| names.join("/"));
    assert_eq!(file("/static/a/b.css").as_deref(), Some("a/b.css"));
    assert_eq!(file("/static/a%20b").as_deref(), Some("a b"));
    assert_eq!(file("/static/a%2Fb").as_deref(), Some("a/b"));
    assert_eq!(file("/static/a//b/./c/").as_deref(), Some("a/b/c"));
    assert_eq!(file("/static/").as_deref(), Some(""));
    assert_eq!(file("/static/%C3%A4").as_deref(), Some("ä"));
    // Paths that lead elsewhere, and texts that do not decode.
    assert_eq!(file("/static/../secret"), None);
    assert_eq!(file("/static/a/%2e%2e/secret"), None);
    assert_eq!(file("/static/./a"), None);
    assert_eq!(file("/static//etc/passwd"), None);
    assert_eq!(file("/static/a%5Cb"), None);
    assert_eq!(file("/static/%FF"), None);
    assert_eq!(file("/other"), None);
    assert_eq!(read_path("a/.hidden/...").unwrap(), ["a", ".hidden", "..."]);
}

#[test]
fn the_host_of_a_request() {
    let asked = |host: &str| request_host(&request("/", Some(host))).map(|h| (h.host, h.port));
    assert_eq!(asked("dima.ai"), Some(("dima.ai".to_string(), None)));
    assert_eq!(asked("dima.ai:8443"), Some(("dima.ai".to_string(), Some(8443))));
    assert_eq!(asked("[::1]:80"), Some(("[::1]".to_string(), Some(80))));
    assert_eq!(asked("not a host"), None);
    assert!(request_host(&request("/", None)).is_none());
    // The URI counts before the header.
    let mut both = request_at("a.example", Some(1), "/");
    both.host = Some(b"b.example".to_vec());
    let host = request_host(&both).unwrap();
    assert_eq!((host.host.as_str(), host.port), ("a.example", Some(1)));
}

#[test]
fn locations_leave_the_default_port_out() {
    let parts = request("/a?b", None);
    assert_eq!(https_location("h", Some(443), &parts), "https://h/a?b");
    assert_eq!(https_location("h", None, &parts), "https://h/a?b");
    assert_eq!(https_location("h", Some(80), &parts), "https://h:80/a?b");
    let mut bare = request("/a", None);
    bare.path_and_query = None;
    assert_eq!(https_location("h", None, &bare), "https://h/");
    assert_eq!(site_origin("dima.ai", 443), "https://dima.ai");
    assert_eq!(site_origin("dima.ai", 8443), "https://dima.ai:8443");
}

#[test]
fn the_homepage_lists_the_profiles() {
    let plain = render_home(false, "abc123");
    let debug = render_home(true, "abc123");
    assert!(plain.starts_with("<!DOCTYPE html>\n<html lang=\"en\">\n<head>\n"));
    assert!(plain.ends_with("</div>\n</div>\n</body>\n</html>\n"));
    assert!(plain.contains("<title>Dima Korolev</title>\n"));
    assert!(plain.contains("  _gaq.push(['_setAccount', 'UA-46065883-1']);\n"));
    assert!(plain.contains(
        "    <li><span class=\"headerLine\"><a href=\"/r?url=https://tinyurl.com/dkorolev-github\" \
         onclick=\"_gaq.push(['_trackEvent', 'Click', 'Link', 'https://tinyurl.com/dkorolev-github']);\">\
         github</a></span></li>\n"
    ));
    assert!(plain.contains("<a href=\"mailto:dima@current.ai\" onclick="));
    assert!(!plain.contains("abc123"));
    assert!(!plain.contains("MCP Client"));
    assert!(debug.contains("<a href=\"/mcpclient\" class=\"debug\" style=\"color: #ff8c00 !important;\">MCP Client</a>"));
    assert!(debug.contains("padding-top:4px;\">abc123</span></li>\n</ul>\n"));
    assert_eq!(plain.matches("<li>").count(), 11);
    assert_eq!(debug.matches("<li>").count(), 16);
}

#[test]
fn the_debug_page_adds_links_to_the_plain_one() {
    let plain = render_home(false, "abc123");
    let debug = render_home(true, "abc123");
    let (head, end) = plain.split_at(plain.find("</ul>\n").unwrap());
    assert!(debug.starts_with(head) && debug.ends_with(end));
    let links = &debug[head.len()..debug.len() - end.len()];
    let mut at = 0;
    for target in ["/passkey", "/login", "/mcpclient", "/anthropiclimits"] {
        at += links[at..].find(&format!("<a href=\"{target}\" class=\"debug\"")).unwrap() + 1;
    }
    assert!(!plain.contains("class=\"debug\""));
    for page in [plain, debug] {
        assert!(page.contains("<a href=\"mailto:dima@current.ai\""));
        assert!(!page.contains("/r?url=mailto:"));
    }
}

#[test]
fn the_landing_page_moves_on() {
    let html = current_landing_html();
    assert!(html.starts_with("<!DOCTYPE html>\n<html lang=\"en\">\n"));
    assert!(html.contains("<meta http-equiv=\"refresh\" content=\"3;url=https://dima.ai\">\n<title>Current</title>"));
    assert!(html.contains("  p { font-size: 1.5rem; padding: 0 1rem; text-align: center; }\n"));
    assert!(html.ends_with("</a>.</p>\n</body>\n</html>\n"));
}

#[test]
fn redirects_by_query() {
    assert_eq!(redirect_get(Some("https://x".to_string())).as_deref(), Some("https://x"));
    assert_eq!(redirect_get(None), None);
    assert_eq!(redirect_post(Some("https://x".to_string())), "https://x");
    assert_eq!(redirect_post(None), "http://dimakorolev.com");
}

fn home() -> Option<String> {
    Some("/home/me".to_string())
}

#[test]
fn tildes_stand_for_the_home_directory() {
    assert_eq!(expand_tilde("~/.ssl/dima.ai", &home()), "/home/me/.ssl/dima.ai");
    assert_eq!(expand_tilde("~", &home()), "/home/me");
    assert_eq!(expand_tilde("~//etc", &home()), "/etc");
    assert_eq!(expand_tilde("~other/x", &home()), "~other/x");
    assert_eq!(expand_tilde("/a/~/b", &home()), "/a/~/b");
    assert_eq!(expand_tilde("~/x", &None), "~/x");
    assert_eq!(join_path("a/", "b"), "a/b");
    assert_eq!(join_path("", "b"), "b");
    assert_eq!(join_path("a", "/b"), "/b");
}

#[test]
fn the_name_at_the_end_of_a_path() {
    for (path, name) in [
        ("/a/b", Some("b")),
        ("/a/b/", Some("b")),
        ("/a/b/.", Some("b")),
        ("a", Some("a")),
        ("/a/..", None),
        ("/", None),
        (".", None),
        ("", None),
    ] {
        assert_eq!(file_name(path).as_deref(), name, "{path}");
        // The standard library agrees.
        assert_eq!(std::path::Path::new(path).file_name().and_then(|n| n.to_str()), name, "{path}");
    }
}

#[test]
fn certificates_come_from_a_directory_or_one_by_one() {
    let args = CertArgs { letsencrypt: Some("~/.ssl/dima.ai".to_string()), fqdn: None, cert: None, key: None };
    let paths = resolve_fqdn_cert_key(&args, &home()).unwrap();
    assert_eq!(paths.fqdn, "dima.ai");
    assert_eq!(paths.cert, "/home/me/.ssl/dima.ai/fullchain.pem");
    assert_eq!(paths.key, "/home/me/.ssl/dima.ai/privkey.pem");
    assert_eq!(missing_file(&paths, true, true), None);
    assert_eq!(
        missing_file(&paths, false, false).as_deref(),
        Some("missing /home/me/.ssl/dima.ai/fullchain.pem (expected in --letsencrypt dir)")
    );
    assert_eq!(
        missing_file(&paths, true, false).as_deref(),
        Some("missing /home/me/.ssl/dima.ai/privkey.pem (expected in --letsencrypt dir)")
    );

    let args = CertArgs { letsencrypt: Some("/".to_string()), fqdn: None, cert: None, key: None };
    assert_eq!(
        resolve_fqdn_cert_key(&args, &None).unwrap_err(),
        "--letsencrypt path has no usable directory name: /"
    );

    let mut args = CertArgs {
        letsencrypt: None,
        fqdn: Some("dima.ai".to_string()),
        cert: Some("c.pem".to_string()),
        key: Some("k.pem".to_string()),
    };
    let paths = resolve_fqdn_cert_key(&args, &None).unwrap();
    assert_eq!((paths.fqdn.as_str(), paths.cert.as_str(), paths.key.as_str()), ("dima.ai", "c.pem", "k.pem"));
    // Files that are named one by one are looked for when they are loaded.
    assert_eq!(missing_file(&paths, false, false), None);
    args.key = None;
    assert_eq!(
        resolve_fqdn_cert_key(&args, &None).unwrap_err(),
        "either --letsencrypt or all of --fqdn, --cert, --key are required"
    );
}

#[test]
fn paths_have_parents() {
    for path in [
        "a/b/c", "a/b/", "/a", "//a", "///a//", "a", "a/", ".", "./a", "..", "a/..", "a/./b", "a//./b/.", "x//a/b", "/",
        "/.", "", "/a/b/../c", "./.", "/a/./b",
    ] {
        let parent = std::path::Path::new(path).parent().and_then(|p| p.to_str()).filter(|p| !p.is_empty());
        assert_eq!(parent_path(path).as_deref(), parent, "{path:?}");
    }
}

#[test]
fn siblings_with_both_files_are_served_in_order() {
    let entry = |name: &str, is_dir, has_cert, has_key| Sibling { name: name.to_string(), is_dir, has_cert, has_key };
    let entries = vec![
        entry("zeta.ai", true, true, true),
        entry("dima.ai", true, true, true),
        entry("no-key", true, true, false),
        entry("no-cert", true, false, true),
        entry("file", false, true, true),
        entry("current.ai", true, true, true),
        entry("current.ai.old", true, true, true),
        entry("Zed.ai", true, true, true),
    ];
    let at = |dir: Option<&str>| CertArgs {
        letsencrypt: dir.map(|d| d.to_string()),
        fqdn: Some("x".to_string()),
        cert: None,
        key: None,
    };
    let args = at(Some("~/.ssl/dima.ai"));
    assert_eq!(sibling_parent(&args, &home()).as_deref(), Some("/home/me/.ssl"));
    let found = sibling_letsencrypt_dirs(&args, &home(), &entries);
    let names: Vec<&str> = found.iter().map(|(name, _, _)| name.as_str()).collect();
    assert_eq!(names, ["Zed.ai", "current.ai", "current.ai.old", "zeta.ai"]);
    assert_eq!(
        found[1],
        (
            "current.ai".to_string(),
            "/home/me/.ssl/current.ai/fullchain.pem".to_string(),
            "/home/me/.ssl/current.ai/privkey.pem".to_string()
        )
    );
    // Without a name of its own the site's directory counts like any other.
    assert_eq!(sibling_letsencrypt_dirs(&at(Some("/ssl/..")), &home(), &entries).len(), 5);
    // Without a directory, or one in which it stands, there is nothing to look at.
    assert!(sibling_letsencrypt_dirs(&at(None), &home(), &entries).is_empty());
    assert!(sibling_letsencrypt_dirs(&at(Some("dima.ai")), &home(), &entries).is_empty());
    assert_eq!(sibling_parent(&at(None), &home()), None);
    assert!(precedes("a", "ab") && !precedes("b", "ab") && precedes("a", "a"));
}
