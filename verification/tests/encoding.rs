use homepage::encoding::{code_challenge, pair, urlencod};
use homepage::exchange::{Answer, Fetched};
use homepage::json::{text_json, Json};
use homepage::text::{
    after_prefix, chars_of, decimal_text, find_part, has_part, has_prefix, has_suffix, hex_text, index_of, joined,
    lines_of, lower_ascii, replace_char, same_text, split_char, text_between, trim, trim_end_char,
};
use homepage::urls::canonical_resource;

#[test]
fn query_values_are_percent_encoded() {
    assert_eq!(urlencod(""), "");
    assert_eq!(urlencod("AZaz09-_.~"), "AZaz09-_.~");
    assert_eq!(urlencod("a b&c=d/e?f"), "a%20b%26c%3Dd%2Fe%3Ff");
    assert_eq!(urlencod("ä€"), "%C3%A4%E2%82%AC");
    assert_eq!(urlencod("%41+"), "%2541%2B");
    // Different texts have different values.
    assert_ne!(urlencod("%20"), urlencod(" "));
}

#[test]
fn the_challenge_of_a_verifier() {
    // The example of RFC 7636, appendix B.
    assert_eq!(
        code_challenge("dBjftJeZ4CVP-mB92K27uhbUJU1p1r_wW1gFWFOEjXk"),
        "E9Melhoa2OwvFrEMTJguCHaoeK1t8URWbuGJSstw-cM"
    );
    assert_eq!(code_challenge(""), "47DEQpj8HBSa-_TImW-5JCeuQeRkm5NMpJWZG3hSuFU");
    assert_eq!(pair("a", "b"), ("a".to_string(), "b".to_string()));
}

#[test]
fn texts_are_taken_apart() {
    assert_eq!(chars_of("aä"), ['a', 'ä']);
    assert_eq!(text_between(&chars_of("hello"), 1, 3), "el");
    assert_eq!(joined("a", "b"), "ab");
    assert!(same_text("ä", "ä") && !same_text("a", "A"));
    assert!(has_prefix("abc", "ab") && !has_prefix("abc", "b") && has_prefix("a", ""));
    assert!(has_suffix("abc", "bc") && !has_suffix("abc", "b"));
    assert_eq!(after_prefix("abc", "ab").as_deref(), Some("c"));
    assert_eq!(after_prefix("abc", "b"), None);
    assert!(has_part("abc", "b") && !has_part("abc", "ac") && has_part("", ""));
    assert_eq!(find_part(&chars_of("a,b,"), &chars_of(","), 2), Some(3));
    assert_eq!(find_part(&chars_of("ab"), &chars_of(","), 0), None);
    assert_eq!(index_of(&chars_of("abc"), 'c', 0), 2);
    assert_eq!(index_of(&chars_of("abc"), 'x', 1), 3);
    assert_eq!(trim_end_char("a//", '/'), "a");
    assert_eq!(trim(" \t a b\u{a0}\n"), "a b");
    assert_eq!(lower_ascii("ÄBc"), "Äbc");
    assert_eq!(split_char("a,,b", ','), ["a", "", "b"]);
    assert_eq!(split_char("", ','), [""]);
    assert_eq!(lines_of("a\r\nb\n\nc"), ["a", "b", "", "c"]);
    assert_eq!(lines_of("a\n"), ["a"]);
    assert_eq!(replace_char("a/b/", '/', "%2F"), "a%2Fb%2F");
    assert_eq!(decimal_text(0), "0");
    assert_eq!(decimal_text(u64::MAX), "18446744073709551615");
    assert_eq!(hex_text(0xdeadbeef), "deadbeef");
}

#[test]
fn documents_are_read() {
    let json = Json::parse(br#"{"b": [1, 2.50, "x", null, true], "a": {"k": "v"}, "b2": -1e3}"#).unwrap();
    assert_eq!(json.get("a").unwrap().get_str("k").as_deref(), Some("v"));
    let items = json.get_items("b").unwrap();
    assert_eq!(items.len(), 5);
    assert_eq!(items[0], Json::Number("1".to_string()));
    assert_eq!(items[2], text_json("x"));
    assert_eq!(items[3], Json::Null);
    assert_eq!(items[4], Json::Bool(true));
    assert!(json.has("b2") && !json.has("c"));
    assert!(json.get_str("b").is_none() && json.get_items("a").is_none());
    assert_eq!(json.copy(), json);
    assert_eq!(text_json("t").as_str().map(|s| s.as_str()), Some("t"));
    assert_eq!(Json::Null.as_str(), None);
    assert!(Json::Null.get("a").is_none());

    // The last of several members of one name counts.
    let twice = Json::parse(br#"{"a": 1, "a": 2}"#).unwrap();
    assert_eq!(twice.get("a"), Some(&Json::Number("2".to_string())));

    assert_eq!(Json::parse(b"").unwrap_err(), "EOF while parsing a value at line 1 column 0");
    assert_eq!(Json::parse(b"{} x").unwrap_err(), "trailing characters at line 1 column 4");

    let printed = Json::parse_printed(br#"{"a":[1]}"#).unwrap();
    assert_eq!(printed.pretty, "{\n  \"a\": [\n    1\n  ]\n}");
    assert!(Json::parse_printed(b"[").is_err());

    let frame = Json::parse_frame(br#" {"error": {"b": 1, "a": "x"}} {"next": 1}"#).unwrap();
    assert_eq!(frame.consumed, 30);
    assert_eq!(frame.error.as_deref(), Some(r#"{"a":"x","b":1}"#));
    let frame = Json::parse_frame(b"[] ").unwrap();
    assert_eq!((frame.consumed, frame.error.is_none()), (2, true));
    assert!(Json::parse_frame(b"{\"a\"").is_none());
    assert!(Json::parse_frame(b"  ").is_none());
}

#[test]
fn answers_are_read() {
    let answer = |status: u16, body: Result<&[u8], &str>| Answer {
        status,
        status_text: String::new(),
        body: match body {
            Ok(bytes) => Ok(bytes.to_vec()),
            Err(e) => Err(e.to_string()),
        },
    };
    assert!(answer(200, Ok(b"")).succeeded() && answer(299, Ok(b"")).succeeded());
    assert!(!answer(199, Ok(b"")).succeeded() && !answer(300, Ok(b"")).succeeded());
    assert_eq!(answer(500, Ok(b"1")).json().unwrap(), Json::Number("1".to_string()));
    assert_eq!(answer(200, Ok(b"{")).json().unwrap_err(), "error decoding response body");
    assert_eq!(answer(200, Err("cut")).json().unwrap_err(), "cut");
    assert_eq!(answer(200, Ok(b"a\xffb")).body_text(), "a\u{fffd}b");
    assert_eq!(answer(200, Err("cut")).body_text(), "");
    assert_eq!(answer(200, Ok(b"[]")).printed().unwrap().pretty, "[]");
    assert!(Fetched::Answer(answer(200, Ok(b"{}"))).usable_json().is_some());
    assert!(Fetched::Answer(answer(404, Ok(b"{}"))).usable_json().is_none());
    assert!(Fetched::Answer(answer(200, Ok(b"<"))).usable_json().is_none());
    assert!(Fetched::Failed("x".to_string()).usable_json().is_none());
}

#[test]
fn resources_have_a_canonical_form() {
    assert_eq!(canonical_resource("HTTPS://Example.COM:443/mcp/?q#f"), "https://example.com/mcp");
    assert_eq!(canonical_resource("http://example.com:8080"), "http://example.com:8080");
    assert_eq!(canonical_resource("http://u:p@example.com/a//"), "http://example.com/a");
    assert_eq!(canonical_resource("no url"), "no url");
}
