//! Encodings of text and bytes: percent-encoding, form encoding, base64url, SHA-256 digests, and
//! the random values that login flows are made of.
use base64::Engine;
use rand::RngCore;
use sha2::Digest;
use vstd::prelude::*;
use vstd::string::*;
use vstd::utf8::*;

verus! {

// -- Percent-encoding.

/// Bytes that stand for themselves in a percent-encoded query value.
pub open spec fn is_unreserved(b: u8) -> bool {
    is_letter_or_digit(b) || b == 45 || b == 95 || b == 46 || b == 126
}

/// The ASCII letters and digits.
pub open spec fn is_letter_or_digit(b: u8) -> bool {
    (65 <= b && b <= 90) || (97 <= b && b <= 122) || (48 <= b && b <= 57)
}

/// The uppercase hexadecimal digit of a value below sixteen.
pub open spec fn upper_hex(digit: int) -> char {
    if digit < 10 {
        ((48 + digit) as u8) as char
    } else {
        ((55 + digit) as u8) as char
    }
}

/// A byte written as a percent sign and two hexadecimal digits.
pub open spec fn escaped(b: u8) -> Seq<char> {
    seq!['%', upper_hex(b as int / 16), upper_hex(b as int % 16)]
}

/// One byte of a query value.
pub open spec fn percent_byte(b: u8) -> Seq<char> {
    if is_unreserved(b) {
        seq![b as char]
    } else {
        escaped(b)
    }
}

/// A byte string as a query value.
pub open spec fn percent_encoded(bytes: Seq<u8>) -> Seq<char>
    decreases bytes.len(),
{
    if bytes.len() == 0 {
        Seq::empty()
    } else {
        percent_encoded(bytes.drop_last()) + percent_byte(bytes.last())
    }
}

/// A text as a query value: its UTF-8 bytes, percent-encoded.
pub open spec fn query_value(text: Seq<char>) -> Seq<char> {
    percent_encoded(encode_utf8(text))
}

/// Percent-encodes a text so that it can stand as a value in a query string.
pub fn urlencod(s: &str) -> (r: String)
    ensures
        r@ == query_value(s@),
{
    let bytes = s.as_bytes();
    let mut r = String::new();
    let mut i: usize = 0;
    while i < bytes.len()
        invariant
            i <= bytes@.len(),
            r@ == percent_encoded(bytes@.take(i as int)),
        decreases bytes@.len() - i,
    {
        let b = bytes[i];
        let ghost before = r@;
        if (65 <= b && b <= 90) || (97 <= b && b <= 122) || (48 <= b && b <= 57) || b == 45 || b == 95 || b == 46
            || b == 126 {
            r.push(b as char);
            assert(r@ =~= before + percent_byte(b));
        } else {
            r.push('%');
            r.push(upper_hex_digit(b / 16));
            r.push(upper_hex_digit(b % 16));
            assert(r@ =~= before + percent_byte(b));
        }
        assert(bytes@.take(i + 1).drop_last() =~= bytes@.take(i as int));
        i += 1;
    }
    assert(bytes@.take(bytes@.len() as int) =~= bytes@);
    r
}

/// The uppercase hexadecimal digit of a value below sixteen.
fn upper_hex_digit(d: u8) -> (c: char)
    requires
        d < 16,
    ensures
        c == upper_hex(d as int),
{
    if d < 10 {
        (48 + d) as char
    } else {
        (55 + d) as char
    }
}

/// Whether a character can occur in a percent-encoded value.
pub open spec fn is_query_char(c: char) -> bool {
    c == '%' || ((c as u32) < 128 && is_unreserved(c as u8))
}

/// A percent-encoded value holds unreserved characters and percent signs alone: none of `&`, `=`,
/// `#`, `+` or white space, so it cannot end the parameter in which it stands.
pub proof fn percent_encoded_is_safe(bytes: Seq<u8>)
    ensures
        forall|i: int| 0 <= i < percent_encoded(bytes).len() ==> is_query_char(#[trigger] percent_encoded(bytes)[i]),
    decreases bytes.len(),
{
    if bytes.len() > 0 {
        percent_encoded_is_safe(bytes.drop_last());
        let head = percent_encoded(bytes.drop_last());
        let tail = percent_byte(bytes.last());
        assert forall|i: int| 0 <= i < percent_encoded(bytes).len() implies is_query_char(
            #[trigger] percent_encoded(bytes)[i],
        ) by {
            if i < head.len() {
                assert(percent_encoded(bytes)[i] == head[i]);
            } else {
                assert(percent_encoded(bytes)[i] == tail[i - head.len()]);
            }
        }
    }
}

/// Two different texts never have the same percent-encoded value.
pub proof fn query_value_is_injective(a: Seq<char>, b: Seq<char>)
    ensures
        query_value(a) == query_value(b) ==> a == b,
{
    if query_value(a) == query_value(b) {
        lemma_percent_encoded_injective(encode_utf8(a), encode_utf8(b));
        encode_utf8_decode_utf8(a);
        encode_utf8_decode_utf8(b);
    }
}

proof fn lemma_percent_encoded_injective(a: Seq<u8>, b: Seq<u8>)
    requires
        percent_encoded(a) == percent_encoded(b),
    ensures
        a == b,
    decreases a.len(),
{
    let ea = percent_encoded(a);
    let eb = percent_encoded(b);
    if a.len() == 0 || b.len() == 0 {
        if a.len() != 0 {
            assert(percent_byte(a.last()).len() > 0);
        }
        if b.len() != 0 {
            assert(percent_byte(b.last()).len() > 0);
        }
        assert(a =~= b);
    } else {
        let x = a.last();
        let y = b.last();
        let ha = percent_encoded(a.drop_last());
        let hb = percent_encoded(b.drop_last());
        let n = ea.len();
        lemma_escape_ends(a.drop_last(), x);
        lemma_escape_ends(b.drop_last(), y);
        if is_unreserved(x) == is_unreserved(y) {
            let k = percent_byte(x).len();
            assert(ha =~= ea.take(n - k));
            assert(hb =~= eb.take(n - k));
            if is_unreserved(x) {
                assert(ea[n - 1] == x as char);
                assert(eb[n - 1] == y as char);
            } else {
                assert(ea[n - 2] == upper_hex(x as int / 16));
                assert(eb[n - 2] == upper_hex(y as int / 16));
                assert(ea[n - 1] == upper_hex(x as int % 16));
                assert(eb[n - 1] == upper_hex(y as int % 16));
            }
            assert(x == y);
            lemma_percent_encoded_injective(a.drop_last(), b.drop_last());
            assert(a =~= a.drop_last().push(x));
            assert(b =~= b.drop_last().push(y));
        } else if is_unreserved(x) {
            assert(ea.len() >= 3 && ea[n - 3] == '%');
            lemma_no_trailing_escape(a, x);
        } else {
            assert(eb.len() >= 3 && eb[n - 3] == '%');
            lemma_no_trailing_escape(b, y);
        }
    }
}

proof fn lemma_escape_ends(head: Seq<u8>, b: u8)
    ensures
        percent_encoded(head.push(b)) == percent_encoded(head) + percent_byte(b),
        !is_unreserved(b) ==> {
            let e = percent_encoded(head.push(b));
            e.len() >= 3 && e[e.len() - 3] == '%'
        },
{
    assert(head.push(b).drop_last() =~= head);
    if !is_unreserved(b) {
        let h = percent_encoded(head);
        assert((h + escaped(b))[h.len() as int] == '%');
    }
}

/// Where the last byte stands for itself, the percent sign three places from the end would have to
/// open an escape of which that byte is a part.
proof fn lemma_no_trailing_escape(bytes: Seq<u8>, last: u8)
    requires
        bytes.len() > 0,
        bytes.last() == last,
        is_unreserved(last),
        percent_encoded(bytes).len() >= 3,
    ensures
        percent_encoded(bytes)[percent_encoded(bytes).len() - 3] != '%',
{
    if percent_encoded(bytes)[percent_encoded(bytes).len() - 3] == '%' {
        let head = bytes.drop_last();
        let h = percent_encoded(head);
        assert(percent_encoded(bytes) =~= h + seq![last as char]);
        assert(h.len() >= 2 && h[h.len() - 2] == '%');
        assert(head.len() > 0);
        let b = head.last();
        let g = percent_encoded(head.drop_last());
        if is_unreserved(b) {
            assert(h =~= g + seq![b as char]);
            assert(g.len() >= 1 && g[g.len() - 1] == '%');
            assert(head.drop_last().len() > 0);
            let c = head.drop_last().last();
            let f = percent_encoded(head.drop_last().drop_last());
            if is_unreserved(c) {
                assert(g =~= f + seq![c as char]);
                assert(false);
            } else {
                assert(g =~= f + escaped(c));
                assert(g[g.len() - 1] == upper_hex(c as int % 16));
                assert(false);
            }
        } else {
            assert(h =~= g + escaped(b));
            assert(h[h.len() - 2] == upper_hex(b as int / 16));
            assert(false);
        }
    }
}

/// The value of a hexadecimal digit in either case.
pub open spec fn hex_value(b: u8) -> Option<int> {
    if 48 <= b && b <= 57 {
        Some(b - 48)
    } else if 65 <= b && b <= 70 {
        Some(b - 55)
    } else if 97 <= b && b <= 102 {
        Some(b - 87)
    } else {
        None
    }
}

/// The bytes that a percent-encoded byte string stands for: an escape is one byte, anything else
/// stands for itself, a stray percent sign too.
pub open spec fn percent_decoded(bytes: Seq<u8>) -> Seq<u8>
    decreases bytes.len(),
{
    if bytes.len() == 0 {
        Seq::empty()
    } else if bytes[0] == 37 && bytes.len() >= 3 && hex_value(bytes[1]) is Some && hex_value(bytes[2]) is Some {
        seq![(hex_value(bytes[1])->0 * 16 + hex_value(bytes[2])->0) as u8] + percent_decoded(bytes.skip(3))
    } else {
        seq![bytes[0]] + percent_decoded(bytes.skip(1))
    }
}

/// The text that a percent-encoded text stands for, if its bytes are UTF-8.
pub open spec fn percent_decoded_text(text: Seq<char>) -> Option<Seq<char>> {
    let bytes = percent_decoded(encode_utf8(text));
    if valid_utf8(bytes) {
        Some(decode_utf8(bytes))
    } else {
        None
    }
}

/// `percent_encoding::percent_decode_str(..).decode_utf8()`: escapes are decoded, and the result
/// is refused where it is not UTF-8.
#[verifier::external_body]
pub(crate) fn percent_decode(s: &str) -> (r: Option<String>)
    ensures
        crate::text::opt_text(r) == percent_decoded_text(s@),
{
    percent_encoding::percent_decode_str(s).decode_utf8().ok().map(|t| t.into_owned())
}

// -- Form encoding.

/// One byte of a form field.
pub open spec fn form_byte(b: u8) -> Seq<char> {
    if is_letter_or_digit(b) || b == 42 || b == 45 || b == 46 || b == 95 {
        seq![b as char]
    } else if b == 32 {
        seq!['+']
    } else {
        escaped(b)
    }
}

/// A form field.
pub open spec fn form_field(bytes: Seq<u8>) -> Seq<char>
    decreases bytes.len(),
{
    if bytes.len() == 0 {
        Seq::empty()
    } else {
        form_field(bytes.drop_last()) + form_byte(bytes.last())
    }
}

/// A name with its value.
pub open spec fn form_pair(pair: (Seq<char>, Seq<char>)) -> Seq<char> {
    form_field(encode_utf8(pair.0)) + seq!['='] + form_field(encode_utf8(pair.1))
}

/// Names with their values, in order, as `application/x-www-form-urlencoded`.
pub open spec fn form_encoded(pairs: Seq<(Seq<char>, Seq<char>)>) -> Seq<char>
    decreases pairs.len(),
{
    if pairs.len() == 0 {
        Seq::empty()
    } else if pairs.len() == 1 {
        form_pair(pairs[0])
    } else {
        form_encoded(pairs.drop_last()) + seq!['&'] + form_pair(pairs.last())
    }
}

/// The texts of a list of names and values.
pub open spec fn pair_texts(pairs: Seq<(String, String)>) -> Seq<(Seq<char>, Seq<char>)> {
    Seq::new(pairs.len(), |i: int| (pairs[i].0@, pairs[i].1@))
}

/// `url::form_urlencoded::Serializer` over a list of pairs: names and values joined by `=`, pairs
/// joined by `&`, a space as `+`, and every byte but ASCII letters, digits and `*-._` escaped.
#[verifier::external_body]
pub(crate) fn form_urlencoded(pairs: &Vec<(String, String)>) -> (r: String)
    ensures
        r@ == form_encoded(pair_texts(pairs@)),
{
    url::form_urlencoded::Serializer::new(String::new()).extend_pairs(pairs).finish()
}

/// A name with its value.
pub fn pair(name: &str, value: &str) -> (p: (String, String))
    ensures
        p.0@ == name@,
        p.1@ == value@,
{
    (name.to_owned(), value.to_owned())
}

// -- Base64url.

/// The base64url digit of a value below sixty-four.
pub open spec fn base64url_digit(v: int) -> char {
    if v < 26 {
        ((65 + v) as u8) as char
    } else if v < 52 {
        ((71 + v) as u8) as char
    } else if v < 62 {
        ((v - 4) as u8) as char
    } else if v == 62 {
        '-'
    } else {
        '_'
    }
}

/// The byte at a position, zero behind the end.
pub open spec fn byte_or_zero(bytes: Seq<u8>, i: int) -> int {
    if 0 <= i < bytes.len() {
        bytes[i] as int
    } else {
        0
    }
}

/// The six bits that start at bit `6 * i`.
pub open spec fn sextet(bytes: Seq<u8>, i: int) -> int {
    let at = 6 * i / 8;
    let two = byte_or_zero(bytes, at) * 256 + byte_or_zero(bytes, at + 1);
    if 6 * i % 8 == 0 {
        two / 1024 % 64
    } else if 6 * i % 8 == 6 {
        two / 16 % 64
    } else if 6 * i % 8 == 4 {
        two / 64 % 64
    } else {
        two / 256 % 64
    }
}

/// A byte string in base64url without padding: one digit for each six bits, the last ones filled
/// up with zeros.
pub open spec fn base64url(bytes: Seq<u8>) -> Seq<char> {
    Seq::new(((8 * bytes.len() + 5) / 6) as nat, |i: int| base64url_digit(sextet(bytes, i)))
}

/// `base64`'s `URL_SAFE_NO_PAD` engine encodes by RFC 4648's URL-safe alphabet without padding.
#[verifier::external_body]
pub(crate) fn b64url(bytes: &[u8]) -> (r: String)
    ensures
        r@ == base64url(bytes@),
{
    base64::engine::general_purpose::URL_SAFE_NO_PAD.encode(bytes)
}

/// A base64url text holds letters, digits, `-` and `_` alone.
pub proof fn base64url_is_unreserved(bytes: Seq<u8>)
    ensures
        forall|i: int|
            0 <= i < base64url(bytes).len() ==> {
                let c = #[trigger] base64url(bytes)[i];
                (c as u32) < 128 && is_unreserved(c as u8)
            },
{
    assert forall|i: int| 0 <= i < base64url(bytes).len() implies {
        let c = #[trigger] base64url(bytes)[i];
        (c as u32) < 128 && is_unreserved(c as u8)
    } by {
        let v = sextet(bytes, i);
        assert(0 <= v < 64);
    }
}

// -- Digests.

/// The SHA-256 digest of a byte string.
pub uninterp spec fn sha256(bytes: Seq<u8>) -> Seq<u8>;

/// `sha2::Sha256::digest`, which is thirty-two bytes long.
#[verifier::external_body]
pub(crate) fn sha256_digest(bytes: &[u8]) -> (r: Vec<u8>)
    ensures
        r@ == sha256(bytes@),
        r@.len() == 32,
{
    sha2::Sha256::digest(bytes).to_vec()
}

/// The PKCE challenge of a verifier, method S256.
pub open spec fn s256_challenge(verifier: Seq<char>) -> Seq<char> {
    base64url(sha256(encode_utf8(verifier)))
}

/// Computes the PKCE challenge of a verifier, method S256.
pub fn code_challenge(verifier: &str) -> (c: String)
    ensures
        c@ == s256_challenge(verifier@),
        c@.len() == 43,
{
    let digest = sha256_digest(verifier.as_bytes());
    b64url(digest.as_slice())
}

// -- Random values.

/// `rand::random::<usize>()`: any number.
#[verifier::external_body]
pub(crate) fn random_number() -> (n: usize) {
    rand::random::<usize>()
}

/// `rand::thread_rng().fill_bytes(..)`: that many bytes, any of them.
#[verifier::external_body]
pub(crate) fn random_bytes(count: usize) -> (bytes: Vec<u8>)
    ensures
        bytes@.len() == count,
{
    let mut buf = vec![0u8; count];
    rand::thread_rng().fill_bytes(&mut buf);
    buf
}

/// The hyphenated text of a version 4 UUID.
pub open spec fn is_uuid_text(s: Seq<char>) -> bool {
    &&& s.len() == 36
    &&& forall|i: int|
        0 <= i < 36 ==> if i == 8 || i == 13 || i == 18 || i == 23 {
            #[trigger] s[i] == '-'
        } else {
            ('0' <= s[i] && s[i] <= '9') || ('a' <= s[i] && s[i] <= 'f')
        }
    &&& s[14] == '4'
}

/// `uuid::Uuid::new_v4().to_string()`: a fresh random identifier in hyphenated lowercase form.
#[verifier::external_body]
pub(crate) fn new_uuid() -> (s: String)
    ensures
        is_uuid_text(s@),
{
    uuid::Uuid::new_v4().to_string()
}

// -- Lists of pairs.

/// The pairs hold that value under that name, and no other one.
pub open spec fn holds_only(pairs: Seq<(Seq<char>, Seq<char>)>, name: Seq<char>, value: Seq<char>) -> bool {
    &&& pairs.contains((name, value))
    &&& forall|other: Seq<char>| #[trigger] pairs.contains((name, other)) ==> other == value
}

/// The pairs hold nothing under that name.
pub open spec fn holds_none(pairs: Seq<(Seq<char>, Seq<char>)>, name: Seq<char>) -> bool {
    forall|value: Seq<char>| !#[trigger] pairs.contains((name, value))
}

/// A name that stands in one place of the pairs holds what stands there.
pub proof fn lemma_holds_only(pairs: Seq<(Seq<char>, Seq<char>)>, at: int)
    requires
        0 <= at < pairs.len(),
        forall|i: int| 0 <= i < pairs.len() && i != at ==> (#[trigger] pairs[i]).0 != pairs[at].0,
    ensures
        holds_only(pairs, pairs[at].0, pairs[at].1),
{
    assert(pairs[at] == (pairs[at].0, pairs[at].1));
}

// -- What holds of query values.

/// The value of a hexadecimal digit in upper case.
pub open spec fn upper_hex_value(c: char) -> int {
    if '0' <= c && c <= '9' {
        c as int - '0' as int
    } else {
        c as int - 'A' as int + 10
    }
}

/// The bytes that a query value stands for: a percent sign and two hexadecimal digits for one byte, any
/// other character for its own.
pub open spec fn unescaped(text: Seq<char>) -> Seq<u8>
    decreases text.len(),
{
    if text.len() == 0 {
        Seq::empty()
    } else if text[0] == '%' && text.len() >= 3 {
        seq![(upper_hex_value(text[1]) * 16 + upper_hex_value(text[2])) as u8] + unescaped(text.skip(3))
    } else {
        seq![text[0] as u8] + unescaped(text.skip(1))
    }
}

proof fn lemma_unescaped_concat(bytes: Seq<u8>, more: Seq<char>)
    ensures
        unescaped(percent_encoded(bytes) + more) == bytes + unescaped(more),
    decreases bytes.len(),
{
    if bytes.len() == 0 {
        assert(percent_encoded(bytes) + more =~= more);
        assert(bytes + unescaped(more) =~= unescaped(more));
    } else {
        let head = bytes.drop_last();
        let b = bytes.last();
        let tail = percent_byte(b) + more;
        assert(percent_encoded(bytes) + more =~= percent_encoded(head) + tail);
        lemma_unescaped_concat(head, tail);
        if is_unreserved(b) {
            assert(tail[0] == b as char);
            assert(tail.skip(1) =~= more);
        } else {
            assert(tail[0] == '%' && tail[1] == upper_hex(b as int / 16) && tail[2] == upper_hex(b as int % 16));
            assert(tail.skip(3) =~= more);
            assert(upper_hex_value(upper_hex(b as int / 16)) == b as int / 16);
            assert(upper_hex_value(upper_hex(b as int % 16)) == b as int % 16);
        }
        assert(unescaped(tail) =~= seq![b] + unescaped(more));
        assert(head + (seq![b] + unescaped(more)) =~= bytes + unescaped(more));
    }
}

/// A query value stands for its text: unescaping it gives the UTF-8 bytes back. It is made of letters,
/// digits and `-`, `_`, `.`, `~` and `%`, so none of `&`, `=`, `#`, `+` and white space stands in it.
pub proof fn query_values_stand_for_their_texts(text: Seq<char>)
    ensures
        unescaped(query_value(text)) == encode_utf8(text),
        forall|i: int|
            0 <= i < query_value(text).len() ==> {
                let c = #[trigger] query_value(text)[i];
                ('a' <= c && c <= 'z') || ('A' <= c && c <= 'Z') || ('0' <= c && c <= '9') || c == '-' || c == '_'
                    || c == '.' || c == '~' || c == '%'
            },
{
    let bytes = encode_utf8(text);
    lemma_unescaped_concat(bytes, Seq::empty());
    assert(query_value(text) + Seq::<char>::empty() =~= query_value(text));
    assert(bytes + unescaped(Seq::empty()) =~= bytes);
    lemma_query_chars(bytes);
}

proof fn lemma_query_chars(bytes: Seq<u8>)
    ensures
        forall|i: int|
            0 <= i < percent_encoded(bytes).len() ==> {
                let c = #[trigger] percent_encoded(bytes)[i];
                ('a' <= c && c <= 'z') || ('A' <= c && c <= 'Z') || ('0' <= c && c <= '9') || c == '-' || c == '_'
                    || c == '.' || c == '~' || c == '%'
            },
    decreases bytes.len(),
{
    if bytes.len() > 0 {
        lemma_query_chars(bytes.drop_last());
        let head = percent_encoded(bytes.drop_last());
        let tail = percent_byte(bytes.last());
        assert forall|i: int| 0 <= i < percent_encoded(bytes).len() implies {
            let c = #[trigger] percent_encoded(bytes)[i];
            ('a' <= c && c <= 'z') || ('A' <= c && c <= 'Z') || ('0' <= c && c <= '9') || c == '-' || c == '_' || c
                == '.' || c == '~' || c == '%'
        } by {
            if i < head.len() {
                assert(percent_encoded(bytes)[i] == head[i]);
            } else {
                assert(percent_encoded(bytes)[i] == tail[i - head.len()]);
            }
        }
    }
}

} // verus!
