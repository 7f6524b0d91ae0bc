//! Text as sequences of characters: the searching, trimming, splitting and number formatting that
//! the rest of the crate needs, each operation specified over `Seq<char>`.
use vstd::prelude::*;
use vstd::string::*;
use vstd::utf8::*;

verus! {

// -- What the operations mean.

/// The texts held by a sequence of strings.
pub open spec fn texts(strings: Seq<String>) -> Seq<Seq<char>> {
    Seq::new(strings.len(), |i: int| strings[i]@)
}

/// The text held by an optional string.
pub open spec fn opt_text(text: Option<String>) -> Option<Seq<char>> {
    match text {
        Some(t) => Some(t@),
        None => None,
    }
}

/// `text` without the run of `c` at its end.
pub open spec fn trimmed_end(text: Seq<char>, c: char) -> Seq<char>
    decreases text.len(),
{
    if text.len() > 0 && text.last() == c {
        trimmed_end(text.drop_last(), c)
    } else {
        text
    }
}

/// Whether `part` occurs in `text` at position `at`.
pub open spec fn occurs_at(text: Seq<char>, part: Seq<char>, at: int) -> bool {
    0 <= at && at + part.len() <= text.len() && text.subrange(at, at + part.len()) == part
}

/// Whether `part` occurs anywhere in `text`.
pub open spec fn contains_part(text: Seq<char>, part: Seq<char>) -> bool {
    exists|at: int| occurs_at(text, part, at)
}

/// The position of the first `c` at or after `from`, or the length of `text` where there is none.
pub open spec fn first_index(text: Seq<char>, c: char, from: int) -> int
    decreases text.len() - from,
{
    if from >= text.len() || from < 0 {
        text.len() as int
    } else if text[from] == c {
        from
    } else {
        first_index(text, c, from + 1)
    }
}

/// The lowercase form of an ASCII capital; every other character is itself.
pub open spec fn ascii_lower_char(c: char) -> char {
    if 'A' <= c && c <= 'Z' {
        ((c as u8 + 32) as u8) as char
    } else {
        c
    }
}

/// `text` with its ASCII capitals lowered.
pub open spec fn ascii_lower(text: Seq<char>) -> Seq<char> {
    Seq::new(text.len(), |i: int| ascii_lower_char(text[i]))
}

/// The pieces of `text` between occurrences of `c`: one more piece than there are occurrences.
pub open spec fn split_on(text: Seq<char>, c: char) -> Seq<Seq<char>>
    decreases text.len(),
{
    let at = first_index(text, c, 0);
    if 0 <= at < text.len() {
        seq![text.take(at)] + split_on(text.skip(at + 1), c)
    } else {
        seq![text]
    }
}

/// A line without the carriage return that ends it, if one does.
pub open spec fn without_cr(line: Seq<char>) -> Seq<char> {
    if line.len() > 0 && line.last() == '\r' {
        line.drop_last()
    } else {
        line
    }
}

/// The lines of `text`: the pieces between line feeds, where a line that a line feed ends also
/// loses a carriage return before it, and a final line feed opens no further line.
pub open spec fn line_list(text: Seq<char>) -> Seq<Seq<char>>
    decreases text.len(),
{
    let at = first_index(text, '\n', 0);
    if 0 <= at < text.len() {
        seq![without_cr(text.take(at))] + line_list(text.skip(at + 1))
    } else if text.len() == 0 {
        Seq::empty()
    } else {
        seq![text]
    }
}

/// `text` with every `c` replaced by `with`.
pub open spec fn replaced(text: Seq<char>, c: char, with: Seq<char>) -> Seq<char>
    decreases text.len(),
{
    if text.len() == 0 {
        Seq::empty()
    } else if text.last() == c {
        replaced(text.drop_last(), c, with) + with
    } else {
        replaced(text.drop_last(), c, with).push(text.last())
    }
}

/// The character of a digit below sixteen, letters in lowercase.
pub open spec fn digit_char(digit: nat) -> char {
    if digit < 10 {
        ((48 + digit) as u8) as char
    } else {
        ((87 + digit) as u8) as char
    }
}

/// `n` written in the given base, without leading zeros.
pub open spec fn numeral(n: nat, base: nat) -> Seq<char>
    decreases n,
{
    if base < 2 || n < base {
        seq![digit_char(n)]
    } else {
        proof {
            assert(n / base < n) by (nonlinear_arith)
                requires
                    n >= base >= 2,
            ;
        }
        numeral(n / base, base).push(digit_char(n % base))
    }
}

/// `n` in decimal.
pub open spec fn decimal(n: nat) -> Seq<char> {
    numeral(n, 10)
}

/// `n` in lowercase hexadecimal.
pub open spec fn hexadecimal(n: nat) -> Seq<char> {
    numeral(n, 16)
}

/// Whether every character is ASCII.
pub open spec fn all_ascii(text: Seq<char>) -> bool {
    forall|i: int| 0 <= i < text.len() ==> (#[trigger] text[i] as u32) < 128
}

/// What `char::is_whitespace` answers outside ASCII.
pub uninterp spec fn unicode_whitespace(c: char) -> bool;

/// Whether a character is white space: in ASCII, the tab, line feed, vertical tab, form feed,
/// carriage return and space.
pub open spec fn is_space(c: char) -> bool {
    if (c as u32) < 128 {
        c == ' ' || (9 <= c as u32 && c as u32 <= 13)
    } else {
        unicode_whitespace(c)
    }
}

/// What `char::is_alphanumeric` answers outside ASCII.
pub uninterp spec fn unicode_alphanumeric(c: char) -> bool;

/// Whether a character is a letter or a digit.
pub open spec fn is_alnum(c: char) -> bool {
    if (c as u32) < 128 {
        ('a' <= c && c <= 'z') || ('A' <= c && c <= 'Z') || ('0' <= c && c <= '9')
    } else {
        unicode_alphanumeric(c)
    }
}

/// What `str::to_lowercase` makes of a text that is not all ASCII.
pub uninterp spec fn unicode_lowercase(text: Seq<char>) -> Seq<char>;

/// `text` in lowercase.
pub open spec fn lowercase(text: Seq<char>) -> Seq<char> {
    if all_ascii(text) {
        ascii_lower(text)
    } else {
        unicode_lowercase(text)
    }
}

/// What `String::from_utf8_lossy` makes of bytes that are not UTF-8.
pub uninterp spec fn lossy_utf8(bytes: Seq<u8>) -> Seq<char>;

/// The text of a byte string, with replacement characters where it is not UTF-8.
pub open spec fn lossy_text(bytes: Seq<u8>) -> Seq<char> {
    if valid_utf8(bytes) {
        decode_utf8(bytes)
    } else {
        lossy_utf8(bytes)
    }
}

/// The number of white-space characters at the front of `text`.
pub open spec fn leading_spaces(text: Seq<char>) -> nat
    decreases text.len(),
{
    if text.len() > 0 && is_space(text.first()) {
        1 + leading_spaces(text.drop_first())
    } else {
        0
    }
}

/// `text` without the white space at its end.
pub open spec fn without_trailing_spaces(text: Seq<char>) -> Seq<char>
    decreases text.len(),
{
    if text.len() > 0 && is_space(text.last()) {
        without_trailing_spaces(text.drop_last())
    } else {
        text
    }
}

/// `text` without the white space at either end.
pub open spec fn trimmed(text: Seq<char>) -> Seq<char> {
    without_trailing_spaces(text.skip(leading_spaces(text) as int))
}

// -- Standard library functions that are taken at their documented word.

/// `String::push` adds one character at the end.
pub assume_specification[ String::push ](s: &mut String, c: char)
    ensures
        final(s)@ == old(s)@.push(c),
;

/// `char::is_whitespace` tells the characters with Unicode's `White_Space` property; the ASCII
/// ones are spelled out, the others go by the function's own answer.
pub assume_specification[ char::is_whitespace ](c: char) -> (b: bool)
    ensures
        (c as u32) < 128 ==> b == is_space(c),
        (c as u32) >= 128 ==> b == unicode_whitespace(c),
;

/// `char::is_alphanumeric` tells Unicode's letters and numbers; the ASCII ones are spelled out,
/// the others go by the function's own answer.
pub assume_specification[ char::is_alphanumeric ](c: char) -> (b: bool)
    ensures
        (c as u32) < 128 ==> b == is_alnum(c),
        (c as u32) >= 128 ==> b == unicode_alphanumeric(c),
;

/// `str::to_lowercase` lowers the letters of a text by Unicode's rules, which on ASCII text are
/// those of `ascii_lower`.
pub assume_specification[ str::to_lowercase ](s: &str) -> (r: String)
    ensures
        all_ascii(s@) ==> r@ == ascii_lower(s@),
        !all_ascii(s@) ==> r@ == unicode_lowercase(s@),
;

/// `String::from_utf8_lossy` decodes UTF-8, and puts replacement characters where the bytes are
/// not UTF-8; which ones is left to the function itself.
#[verifier::external_body]
pub(crate) fn decode_lossy(bytes: &[u8]) -> (r: String)
    ensures
        valid_utf8(bytes@) ==> r@ == decode_utf8(bytes@),
        !valid_utf8(bytes@) ==> r@ == lossy_utf8(bytes@),
{
    String::from_utf8_lossy(bytes).into_owned()
}

/// `std::str::from_utf8` accepts what is UTF-8.
#[verifier::external_body]
pub(crate) fn is_utf8(bytes: &[u8]) -> (r: bool)
    ensures
        r == valid_utf8(bytes@),
{
    std::str::from_utf8(bytes).is_ok()
}

// -- Characters and strings.

/// The characters of a text.
pub fn chars_of(s: &str) -> (v: Vec<char>)
    ensures
        v@ == s@,
{
    let mut v: Vec<char> = Vec::new();
    for c in it: s.chars()
        invariant
            v@ == it.seq().take(it.index() as int),
            it.seq() == s@,
    {
        v.push(c);
    }
    assert(s@.take(s@.len() as int) =~= s@);
    v
}

/// The text of the characters from `from` up to `to`.
pub fn text_between(v: &Vec<char>, from: usize, to: usize) -> (s: String)
    requires
        from <= to <= v@.len(),
    ensures
        s@ == v@.subrange(from as int, to as int),
{
    let mut s = String::new();
    let mut i: usize = from;
    while i < to
        invariant
            from <= i <= to <= v@.len(),
            s@ == v@.subrange(from as int, i as int),
        decreases to - i,
    {
        s.push(v[i]);
        assert(v@.subrange(from as int, i + 1) =~= v@.subrange(from as int, i as int).push(v@[i as int]));
        i += 1;
    }
    s
}

/// Two texts put together.
pub fn joined(a: &str, b: &str) -> (s: String)
    ensures
        s@ == a@ + b@,
{
    let mut s = a.to_owned();
    s.append(b);
    s
}

/// Whether two texts are the same.
pub fn same_text(a: &str, b: &str) -> (same: bool)
    ensures
        same == (a@ == b@),
{
    let x = a.as_bytes();
    let y = b.as_bytes();
    proof {
        encode_utf8_decode_utf8(a@);
        encode_utf8_decode_utf8(b@);
    }
    if x.len() != y.len() {
        return false;
    }
    let mut i: usize = 0;
    while i < x.len()
        invariant
            x@ == a.spec_bytes(),
            y@ == b.spec_bytes(),
            x@.len() == y@.len(),
            i <= x@.len(),
            forall|j: int| 0 <= j < i ==> x@[j] == y@[j],
            decode_utf8(encode_utf8(a@)) == a@,
            decode_utf8(encode_utf8(b@)) == b@,
        decreases x@.len() - i,
    {
        if x[i] != y[i] {
            return false;
        }
        i += 1;
    }
    assert(x@ =~= y@);
    true
}

/// Whether `part` occurs in `v` at `at`.
fn occurs(v: &Vec<char>, part: &Vec<char>, at: usize) -> (found: bool)
    requires
        at <= v@.len(),
    ensures
        found == occurs_at(v@, part@, at as int),
{
    let len = v.len();
    if len - at < part.len() {
        return false;
    }
    let mut i: usize = 0;
    while i < part.len()
        invariant
            i <= part@.len(),
            len == v@.len(),
            at + part@.len() <= v@.len(),
            forall|j: int| 0 <= j < i ==> v@[at + j] == part@[j],
        decreases part@.len() - i,
    {
        if v[at + i] != part[i] {
            assert(v@.subrange(at as int, at + part@.len())[i as int] != part@[i as int]);
            return false;
        }
        i += 1;
    }
    assert(v@.subrange(at as int, at + part@.len()) =~= part@);
    true
}

/// Whether a text starts with `part`.
pub fn has_prefix(s: &str, part: &str) -> (found: bool)
    ensures
        found == part@.is_prefix_of(s@),
{
    let v = chars_of(s);
    let p = chars_of(part);
    occurs(&v, &p, 0)
}

/// Whether a text ends with `part`.
pub fn has_suffix(s: &str, part: &str) -> (found: bool)
    ensures
        found == part@.is_suffix_of(s@),
{
    let v = chars_of(s);
    let p = chars_of(part);
    if v.len() < p.len() {
        return false;
    }
    occurs(&v, &p, v.len() - p.len())
}

/// What follows `part` at the front of a text.
pub fn after_prefix(s: &str, part: &str) -> (rest: Option<String>)
    ensures
        match rest {
            Some(r) => s@ == part@ + r@,
            None => !part@.is_prefix_of(s@),
        },
{
    let v = chars_of(s);
    let p = chars_of(part);
    if occurs(&v, &p, 0) {
        let r = text_between(&v, p.len(), v.len());
        assert(s@ =~= part@ + r@) by {
            assert(s@.subrange(0, part@.len() as int) == part@);
        }
        Some(r)
    } else {
        None
    }
}

/// Whether `part` occurs anywhere in a text.
pub fn has_part(s: &str, part: &str) -> (found: bool)
    ensures
        found == contains_part(s@, part@),
{
    let v = chars_of(s);
    let p = chars_of(part);
    let at = find_part(&v, &p, 0);
    at.is_some()
}

/// The first position at or after `from` at which `part` occurs.
pub fn find_part(v: &Vec<char>, part: &Vec<char>, from: usize) -> (at: Option<usize>)
    requires
        from <= v@.len(),
    ensures
        match at {
            Some(i) => from <= i && occurs_at(v@, part@, i as int) && forall|j: int|
                from <= j < i ==> !occurs_at(v@, part@, j),
            None => forall|j: int| from <= j ==> !occurs_at(v@, part@, j),
        },
{
    let mut i: usize = from;
    loop
        invariant
            from <= i <= v@.len(),
            forall|j: int| from <= j < i ==> !occurs_at(v@, part@, j),
        decreases v@.len() - i,
    {
        if occurs(v, part, i) {
            return Some(i);
        }
        if i == v.len() {
            return None;
        }
        i += 1;
    }
}

/// The position of the first `c` at or after `from`, or the length of the text.
pub fn index_of(v: &Vec<char>, c: char, from: usize) -> (at: usize)
    requires
        from <= v@.len(),
    ensures
        at == first_index(v@, c, from as int),
        from <= at <= v@.len(),
        at < v@.len() ==> v@[at as int] == c,
        forall|j: int| from <= j < at ==> v@[j] != c,
{
    let mut i: usize = from;
    while i < v.len()
        invariant
            from <= i <= v@.len(),
            first_index(v@, c, from as int) == first_index(v@, c, i as int),
            forall|j: int| from <= j < i ==> v@[j] != c,
        decreases v@.len() - i,
    {
        if v[i] == c {
            return i;
        }
        i += 1;
    }
    i
}

/// A text without the run of `c` at its end.
pub fn trim_end_char(s: &str, c: char) -> (r: String)
    ensures
        r@ == trimmed_end(s@, c),
{
    let v = chars_of(s);
    let mut n: usize = v.len();
    assert(v@.take(n as int) =~= v@);
    while n > 0 && v[n - 1] == c
        invariant
            n <= v@.len(),
            trimmed_end(v@, c) == trimmed_end(v@.take(n as int), c),
        decreases n,
    {
        assert(v@.take(n as int).drop_last() =~= v@.take(n - 1));
        n -= 1;
    }
    assert(v@.subrange(0, n as int) =~= v@.take(n as int));
    text_between(&v, 0, n)
}

/// A text without the white space at either end.
pub fn trim(s: &str) -> (r: String)
    ensures
        r@ == trimmed(s@),
{
    let v = chars_of(s);
    let mut from: usize = 0;
    assert(v@.skip(0) =~= v@);
    while from < v.len() && v[from].is_whitespace()
        invariant
            from <= v@.len(),
            leading_spaces(v@) == from + leading_spaces(v@.skip(from as int)),
        decreases v@.len() - from,
    {
        assert(v@.skip(from as int).drop_first() =~= v@.skip(from + 1));
        from += 1;
    }
    let mut to: usize = v.len();
    let ghost tail = v@.skip(from as int);
    assert(tail.take(tail.len() as int) =~= tail);
    while to > from && v[to - 1].is_whitespace()
        invariant
            from <= to <= v@.len(),
            tail == v@.skip(from as int),
            without_trailing_spaces(tail) == without_trailing_spaces(tail.take(to - from)),
        decreases to,
    {
        assert(tail.take(to - from).drop_last() =~= tail.take(to - 1 - from));
        to -= 1;
    }
    assert(v@.subrange(from as int, to as int) =~= tail.take(to - from));
    text_between(&v, from, to)
}

/// A text with its ASCII capitals lowered.
pub fn lower_ascii(s: &str) -> (r: String)
    ensures
        r@ == ascii_lower(s@),
{
    let v = chars_of(s);
    let mut r = String::new();
    let mut i: usize = 0;
    while i < v.len()
        invariant
            i <= v@.len(),
            r@ == ascii_lower(v@.take(i as int)),
        decreases v@.len() - i,
    {
        let c = v[i];
        let low = if 'A' <= c && c <= 'Z' {
            (c as u8 + 32) as char
        } else {
            c
        };
        r.push(low);
        assert(ascii_lower(v@.take(i + 1)) =~= ascii_lower(v@.take(i as int)).push(ascii_lower_char(c)));
        i += 1;
    }
    assert(v@.take(v@.len() as int) =~= v@);
    r
}

/// The pieces of a text between occurrences of `c`.
pub fn split_char(s: &str, c: char) -> (pieces: Vec<String>)
    ensures
        texts(pieces@) == split_on(s@, c),
{
    let v = chars_of(s);
    let mut pieces: Vec<String> = Vec::new();
    let mut from: usize = 0;
    assert(v@.skip(0) =~= v@);
    assert(texts(pieces@) + split_on(v@, c) =~= split_on(v@, c));
    loop
        invariant
            from <= v@.len(),
            v@ == s@,
            split_on(v@, c) == texts(pieces@) + split_on(v@.skip(from as int), c),
        decreases v@.len() - from,
    {
        let at = index_of(&v, c, from);
        let piece = text_between(&v, from, at);
        let ghost rest = v@.skip(from as int);
        proof {
            lemma_first_index_skip(v@, c, from as int, 0);
        }
        let ghost before = texts(pieces@);
        pieces.push(piece);
        assert(texts(pieces@) =~= before.push(v@.subrange(from as int, at as int)));
        if at == v.len() {
            assert(v@.subrange(from as int, at as int) =~= rest);
            assert(before + seq![rest] =~= texts(pieces@));
            return pieces;
        }
        assert(rest.take(at - from) =~= v@.subrange(from as int, at as int));
        assert(rest.skip(at - from + 1) =~= v@.skip(at + 1));
        assert(before + (seq![rest.take(at - from)] + split_on(v@.skip(at + 1), c)) =~= texts(pieces@) + split_on(
            v@.skip(at + 1),
            c,
        ));
        from = at + 1;
    }
}

/// Searching in a text from some position is searching from the front of what follows it.
pub proof fn lemma_first_index_skip(text: Seq<char>, c: char, from: int, i: int)
    requires
        0 <= from <= text.len(),
        0 <= i <= text.len() - from,
    ensures
        first_index(text.skip(from), c, i) == first_index(text, c, from + i) - from,
    decreases text.len() - from - i,
{
    if i < text.len() - from {
        lemma_first_index_skip(text, c, from, i + 1);
    }
}

/// The lines of a text.
pub fn lines_of(s: &str) -> (lines: Vec<String>)
    ensures
        texts(lines@) == line_list(s@),
{
    let v = chars_of(s);
    let mut lines: Vec<String> = Vec::new();
    let mut from: usize = 0;
    assert(v@.skip(0) =~= v@);
    assert(texts(lines@) + line_list(v@) =~= line_list(v@));
    loop
        invariant
            from <= v@.len(),
            v@ == s@,
            line_list(v@) == texts(lines@) + line_list(v@.skip(from as int)),
        decreases v@.len() - from,
    {
        let ghost rest = v@.skip(from as int);
        let ghost before = texts(lines@);
        if from == v.len() {
            assert(before + line_list(rest) =~= before);
            return lines;
        }
        let at = index_of(&v, '\n', from);
        proof {
            lemma_first_index_skip(v@, '\n', from as int, 0);
        }
        if at == v.len() {
            let line = text_between(&v, from, at);
            assert(v@.subrange(from as int, at as int) =~= rest);
            lines.push(line);
            assert(texts(lines@) =~= before.push(rest));
            assert(before + seq![rest] =~= texts(lines@));
            return lines;
        }
        let end = if at > from && v[at - 1] == '\r' {
            at - 1
        } else {
            at
        };
        let line = text_between(&v, from, end);
        assert(rest.take(at - from) =~= v@.subrange(from as int, at as int));
        assert(without_cr(rest.take(at - from)) =~= v@.subrange(from as int, end as int));
        lines.push(line);
        assert(texts(lines@) =~= before.push(v@.subrange(from as int, end as int)));
        assert(rest.skip(at - from + 1) =~= v@.skip(at + 1));
        assert(before + (seq![without_cr(rest.take(at - from))] + line_list(v@.skip(at + 1))) =~= texts(lines@)
            + line_list(v@.skip(at + 1)));
        from = at + 1;
    }
}

/// A text with every `c` replaced by `with`.
pub fn replace_char(s: &str, c: char, with: &str) -> (r: String)
    ensures
        r@ == replaced(s@, c, with@),
{
    let v = chars_of(s);
    let mut r = String::new();
    let mut i: usize = 0;
    while i < v.len()
        invariant
            i <= v@.len(),
            r@ == replaced(v@.take(i as int), c, with@),
        decreases v@.len() - i,
    {
        assert(v@.take(i + 1).drop_last() =~= v@.take(i as int));
        if v[i] == c {
            r.append(with);
        } else {
            r.push(v[i]);
        }
        i += 1;
    }
    assert(v@.take(v@.len() as int) =~= v@);
    r
}

/// A number in the given base.
fn numeral_text(n: u64, base: u64) -> (r: String)
    requires
        2 <= base <= 16,
    ensures
        r@ == numeral(n as nat, base as nat),
    decreases n,
{
    let digit = n % base;
    let c = if digit < 10 {
        (48 + digit as u8) as char
    } else {
        (87 + digit as u8) as char
    };
    if n < base {
        assert(n % base == n) by (nonlinear_arith)
            requires
                0 <= n < base,
        ;
        let mut r = String::new();
        r.push(c);
        assert(r@ =~= seq![digit_char(n as nat)]);
        r
    } else {
        assert(n / base < n) by (nonlinear_arith)
            requires
                n >= base >= 2,
        ;
        let mut r = numeral_text(n / base, base);
        r.push(c);
        r
    }
}

/// A numeral tells its number.
pub proof fn lemma_numeral_injective(a: nat, b: nat, base: nat)
    requires
        2 <= base <= 16,
        numeral(a, base) == numeral(b, base),
    ensures
        a == b,
    decreases a,
{
    let x = numeral(a, base);
    let y = numeral(b, base);
    assert(a % base < base && b % base < base) by (nonlinear_arith)
        requires
            base >= 2,
    ;
    assert(a == base * (a / base) + a % base && b == base * (b / base) + b % base) by (nonlinear_arith)
        requires
            base >= 2,
    ;
    lemma_numeral_ends(a, base);
    lemma_numeral_ends(b, base);
    assert(a % base == b % base);
    if a < base && b < base {
        assert(a % base == a && b % base == b) by (nonlinear_arith)
            requires
                a < base,
                b < base,
        ;
    } else if a >= base && b >= base {
        assert(a / base < a) by (nonlinear_arith)
            requires
                a >= base >= 2,
        ;
        assert(x.drop_last() =~= numeral(a / base, base));
        assert(y.drop_last() =~= numeral(b / base, base));
        lemma_numeral_injective(a / base, b / base, base);
    } else if a < base {
        lemma_numeral_ends(b / base, base);
    } else {
        lemma_numeral_ends(a / base, base);
    }
}

/// A numeral is made of digits.
pub proof fn lemma_numeral_digits(n: nat, base: nat)
    requires
        2 <= base <= 16,
    ensures
        forall|i: int|
            0 <= i < numeral(n, base).len() ==> {
                let c = #[trigger] numeral(n, base)[i];
                ('0' <= c && c <= '9') || ('a' <= c && c <= 'f')
            },
    decreases n,
{
    assert(n % base < base) by (nonlinear_arith)
        requires
            base >= 2,
    ;
    if n >= base {
        assert(n / base < n) by (nonlinear_arith)
            requires
                n >= base >= 2,
        ;
        lemma_numeral_digits(n / base, base);
        let before = numeral(n / base, base);
        assert forall|i: int| 0 <= i < numeral(n, base).len() implies {
            let c = #[trigger] numeral(n, base)[i];
            ('0' <= c && c <= '9') || ('a' <= c && c <= 'f')
        } by {
            if i < before.len() {
                assert(numeral(n, base)[i] == before[i]);
            }
        }
    }
}

/// A numeral is not empty and ends in the digit of the remainder.
proof fn lemma_numeral_ends(n: nat, base: nat)
    requires
        2 <= base <= 16,
    ensures
        numeral(n, base).len() > 0,
        numeral(n, base).last() == digit_char(n % base),
{
    if n < base {
        assert(n % base == n) by (nonlinear_arith)
            requires
                n < base,
        ;
    }
}

/// A number in decimal.
pub fn decimal_text(n: u64) -> (r: String)
    ensures
        r@ == decimal(n as nat),
{
    numeral_text(n, 10)
}

/// A number in lowercase hexadecimal.
pub fn hex_text(n: u64) -> (r: String)
    ensures
        r@ == hexadecimal(n as nat),
{
    numeral_text(n, 16)
}

// -- What holds of texts.

/// What occurs in a text occurs in a longer one, and what it begins with begins the longer one.
pub proof fn lemma_contains_longer(text: Seq<char>, part: Seq<char>, more: Seq<char>)
    ensures
        contains_part(text, part) ==> contains_part(text + more, part),
        part.is_prefix_of(text) ==> part.is_prefix_of(text + more),
{
    if contains_part(text, part) {
        let at = choose|at: int| occurs_at(text, part, at);
        assert((text + more).subrange(at, at + part.len()) =~= text.subrange(at, at + part.len()));
        assert(occurs_at(text + more, part, at));
    }
    if part.is_prefix_of(text) {
        assert((text + more).subrange(0, part.len() as int) =~= text.subrange(0, part.len() as int));
    }
}

/// A part occurs between whatever stands before and behind it.
pub proof fn lemma_contains_between(before: Seq<char>, part: Seq<char>, after: Seq<char>)
    ensures
        contains_part(before + part + after, part),
{
    let text = before + part + after;
    let at = before.len() as int;
    assert(text.subrange(at, at + part.len()) =~= part);
    assert(occurs_at(text, part, at));
}

/// Trimming takes the whole run at the end, and nothing else.
pub proof fn only_the_run_at_the_end_is_trimmed(text: Seq<char>, c: char)
    ensures
        trimmed_end(text, c).is_prefix_of(text),
        forall|i: int| trimmed_end(text, c).len() <= i < text.len() ==> #[trigger] text[i] == c,
        trimmed_end(text, c).len() > 0 ==> trimmed_end(text, c).last() != c,
    decreases text.len(),
{
    if text.len() > 0 && text.last() == c {
        let head = text.drop_last();
        only_the_run_at_the_end_is_trimmed(head, c);
        let t = trimmed_end(text, c);
        assert(text.subrange(0, t.len() as int) =~= head.subrange(0, t.len() as int));
        assert forall|i: int| t.len() <= i < text.len() implies #[trigger] text[i] == c by {
            if i < head.len() {
                assert(head[i] == text[i]);
            }
        }
    } else {
        assert(text.subrange(0, text.len() as int) =~= text);
    }
}

/// Trimming takes the white space at either end, and nothing else: what is left stands in the text between
/// white space, and neither begins nor ends with any.
pub proof fn only_the_spaces_around_are_trimmed(text: Seq<char>)
    ensures
        ({
            let from = leading_spaces(text) as int;
            let t = trimmed(text);
            &&& from + t.len() <= text.len()
            &&& t == text.subrange(from, from + t.len())
            &&& forall|i: int| 0 <= i < from ==> is_space(#[trigger] text[i])
            &&& forall|i: int| from + t.len() <= i < text.len() ==> is_space(#[trigger] text[i])
            &&& t.len() > 0 ==> !is_space(t.first()) && !is_space(t.last())
        }),
{
    lemma_leading_spaces(text);
    let from = leading_spaces(text) as int;
    let tail = text.skip(from);
    lemma_trailing_spaces(tail);
    let t = trimmed(text);
    assert(t =~= text.subrange(from, from + t.len()));
    assert forall|i: int| from + t.len() <= i < text.len() implies is_space(#[trigger] text[i]) by {
        assert(tail[i - from] == text[i]);
    }
    if t.len() > 0 {
        assert(t.first() == text[from]);
    }
}

proof fn lemma_leading_spaces(text: Seq<char>)
    ensures
        leading_spaces(text) <= text.len(),
        forall|i: int| 0 <= i < leading_spaces(text) ==> is_space(#[trigger] text[i]),
        leading_spaces(text) < text.len() ==> !is_space(text[leading_spaces(text) as int]),
    decreases text.len(),
{
    if text.len() > 0 && is_space(text.first()) {
        let rest = text.drop_first();
        lemma_leading_spaces(rest);
        assert forall|i: int| 0 <= i < leading_spaces(text) implies is_space(#[trigger] text[i]) by {
            if i > 0 {
                assert(rest[i - 1] == text[i]);
            }
        }
    }
}

proof fn lemma_trailing_spaces(text: Seq<char>)
    ensures
        ({
            let t = without_trailing_spaces(text);
            &&& t.len() <= text.len()
            &&& t == text.take(t.len() as int)
            &&& forall|i: int| t.len() <= i < text.len() ==> is_space(#[trigger] text[i])
            &&& t.len() > 0 ==> !is_space(t.last())
        }),
    decreases text.len(),
{
    if text.len() > 0 && is_space(text.last()) {
        let head = text.drop_last();
        lemma_trailing_spaces(head);
        let t = without_trailing_spaces(text);
        assert(text.take(t.len() as int) =~= head.take(t.len() as int));
        assert forall|i: int| t.len() <= i < text.len() implies is_space(#[trigger] text[i]) by {
            if i < head.len() {
                assert(head[i] == text[i]);
            }
        }
    } else {
        assert(text.take(text.len() as int) =~= text);
    }
}

proof fn lemma_first_index_at(text: Seq<char>, c: char, from: int, at: int)
    requires
        0 <= from <= at <= text.len(),
        at < text.len() ==> text[at] == c,
        forall|j: int| from <= j < at ==> text[j] != c,
    ensures
        first_index(text, c, from) == at,
    decreases at - from,
{
    if from < at {
        lemma_first_index_at(text, c, from + 1, at);
    }
}

/// A line feed ends a line, which loses a carriage return at its end; and the text goes on behind it.
pub proof fn a_line_feed_ends_a_line(line: Seq<char>, more: Seq<char>)
    requires
        !line.contains('\n'),
    ensures
        line.len() == 0 || line.last() != '\r' ==> line_list(line + seq!['\n'] + more) == seq![line] + line_list(
            more,
        ),
        line_list(line + seq!['\r', '\n'] + more) == seq![line] + line_list(more),
        line.len() > 0 ==> line_list(line) == seq![line],
{
    let text = line + seq!['\n'] + more;
    let at = line.len() as int;
    assert forall|j: int| 0 <= j < at implies text[j] != '\n' by {
        assert(line[j] == text[j]);
    }
    assert(text[at] == '\n');
    lemma_first_index_at(text, '\n', 0, at);
    assert(text.take(at) =~= line);
    assert(text.skip(at + 1) =~= more);
    let other = line + seq!['\r', '\n'] + more;
    assert forall|j: int| 0 <= j < at + 1 implies other[j] != '\n' by {
        if j < at {
            assert(line[j] == other[j]);
        }
    }
    assert(other[at + 1] == '\n');
    lemma_first_index_at(other, '\n', 0, at + 1);
    assert(other.take(at + 1) =~= line.push('\r'));
    assert(without_cr(line.push('\r')) =~= line);
    assert(other.skip(at + 2) =~= more);
    if line.len() > 0 {
        assert forall|j: int| 0 <= j < at implies line[j] != '\n' by {}
        lemma_first_index_at(line, '\n', 0, at);
    }
}

/// The separator ends a piece, and the text goes on behind it; without one the text is one piece.
pub proof fn a_separator_ends_a_piece(piece: Seq<char>, c: char, more: Seq<char>)
    requires
        !piece.contains(c),
    ensures
        split_on(piece + seq![c] + more, c) == seq![piece] + split_on(more, c),
        split_on(piece, c) == seq![piece],
{
    let text = piece + seq![c] + more;
    let at = piece.len() as int;
    assert forall|j: int| 0 <= j < at implies text[j] != c by {
        assert(piece[j] == text[j]);
    }
    assert(text[at] == c);
    lemma_first_index_at(text, c, 0, at);
    assert(text.take(at) =~= piece);
    assert(text.skip(at + 1) =~= more);
    assert forall|j: int| 0 <= j < at implies piece[j] != c by {}
    lemma_first_index_at(piece, c, 0, at);
}

/// The number that digits stand for.
pub open spec fn number_of(digits: Seq<char>) -> int
    decreases digits.len(),
{
    if digits.len() == 0 {
        0
    } else {
        number_of(digits.drop_last()) * 10 + (digits.last() as int - '0' as int)
    }
}

/// A number in decimal is made of the digits from zero to nine, and stands for the number; it has no zero
/// in front, but for zero itself.
pub proof fn decimals_stand_for_their_numbers(n: nat)
    ensures
        number_of(decimal(n)) == n,
        decimal(n).len() > 0,
        forall|i: int| 0 <= i < decimal(n).len() ==> '0' <= #[trigger] decimal(n)[i] <= '9',
        n > 0 ==> decimal(n)[0] != '0',
    decreases n,
{
    reveal_with_fuel(number_of, 2);
    let digits = decimal(n);
    if n < 10 {
        assert(digits =~= seq![digit_char(n)]);
        assert(digits.drop_last() =~= Seq::empty());
    } else {
        let before = decimal(n / 10);
        decimals_stand_for_their_numbers(n / 10);
        assert(digits =~= before.push(digit_char(n % 10)));
        assert(digits.drop_last() =~= before);
        assert forall|i: int| 0 <= i < digits.len() implies '0' <= #[trigger] digits[i] <= '9' by {
            if i < before.len() {
                assert(digits[i] == before[i]);
            }
        }
        assert(digits[0] == before[0]);
    }
}

/// Lowering takes the capitals from A to Z to their small letters, each in its place, and leaves every
/// other character alone.
pub proof fn only_capitals_are_lowered(text: Seq<char>)
    ensures
        ascii_lower(text).len() == text.len(),
        forall|i: int|
            0 <= i < text.len() ==> {
                let low = #[trigger] ascii_lower(text)[i];
                if 'A' <= text[i] && text[i] <= 'Z' {
                    low as u32 == text[i] as u32 + 32 && 'a' <= low && low <= 'z'
                } else {
                    low == text[i]
                }
            },
        ascii_lower(ascii_lower(text)) == ascii_lower(text),
{
    assert(ascii_lower(ascii_lower(text)) =~= ascii_lower(text));
}

/// A text that neither begins nor ends with white space is trimmed already.
pub proof fn trimmed_texts_stay(text: Seq<char>)
    requires
        text.len() > 0 ==> !is_space(text.first()) && !is_space(text.last()),
    ensures
        trimmed(text) == text,
{
    assert(text.skip(0) =~= text);
}

} // verus!
