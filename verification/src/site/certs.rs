//! Which certificates the server loads: paths with a tilde, the directory of the site's own
//! certificate, and the directories beside it.
use vstd::prelude::*;
use vstd::seq_lib::*;
use vstd::string::*;

use crate::site::statics::says_nothing;
use crate::text::{
    a_separator_ends_a_piece, chars_of, first_index, has_prefix, has_suffix, joined, opt_text, same_text, split_char,
    split_on, texts,
};

verus! {

/// A path below another, or a path of its own where it starts at the root.
pub open spec fn path_join(base: Seq<char>, path: Seq<char>) -> Seq<char> {
    if "/"@.is_prefix_of(path) || base.len() == 0 {
        path
    } else if "/"@.is_suffix_of(base) {
        base + path
    } else {
        base + "/"@ + path
    }
}

/// Joins two paths.
pub fn join_path(base: &str, path: &str) -> (r: String)
    ensures
        r@ == path_join(base@, path@),
{
    let empty = base.unicode_len() == 0;
    if has_prefix(path, "/") || empty {
        return path.to_owned();
    }
    if has_suffix(base, "/") {
        return joined(base, path);
    }
    let mut r = joined(base, "/");
    r.append(path);
    r
}

/// A path with its tilde replaced by the home directory, where there is one.
pub open spec fn tilde_expanded(path: Seq<char>, home: Option<Seq<char>>) -> Seq<char> {
    match home {
        Some(h) => if "~/"@.is_prefix_of(path) {
            path_join(h, path.skip(2))
        } else if path == "~"@ {
            h
        } else {
            path
        },
        None => path,
    }
}

/// Replaces the tilde of a path.
pub fn expand_tilde(path: &str, home: &Option<String>) -> (r: String)
    ensures
        r@ == tilde_expanded(path@, opt_text(*home)),
{
    match home {
        Some(h) => {
            match crate::text::after_prefix(path, "~/") {
                Some(rest) => {
                    proof {
                        reveal_strlit("~/");
                        assert("~/"@.is_prefix_of(path@));
                        assert(path@.skip(2) =~= rest@);
                    }
                    return join_path(h.as_str(), rest.as_str());
                },
                None => {},
            }
            if same_text(path, "~") {
                h.clone()
            } else {
                path.to_owned()
            }
        },
        None => path.to_owned(),
    }
}

/// The last piece of a path that says something, and whether it is the first of a path that does
/// not start at the root.
pub open spec fn last_said(pieces: Seq<Seq<char>>) -> Option<Seq<char>>
    decreases pieces.len(),
{
    if pieces.len() == 0 {
        None
    } else if says_nothing(pieces.last(), pieces.len() == 1) {
        last_said(pieces.drop_last())
    } else {
        Some(pieces.last())
    }
}

/// The name at the end of a path; none where the path ends in dots or says nothing.
pub open spec fn name_at_end(path: Seq<char>) -> Option<Seq<char>> {
    match last_said(split_on(path, '/')) {
        Some(piece) => if piece == "."@ || piece == ".."@ {
            None
        } else {
            Some(piece)
        },
        None => None,
    }
}

/// The name at the end of a path.
pub fn file_name(path: &str) -> (r: Option<String>)
    ensures
        opt_text(r) == name_at_end(path@),
{
    let pieces = split_char(path, '/');
    let ghost all = texts(pieces@);
    let mut n: usize = pieces.len();
    assert(all.take(n as int) =~= all);
    while n > 0
        invariant
            n <= pieces@.len(),
            all == texts(pieces@),
            all == split_on(path@, '/'),
            last_said(all) == last_said(all.take(n as int)),
        decreases n,
    {
        let piece = pieces[n - 1].as_str();
        proof {
            assert(all.take(n as int).last() == piece@);
            assert(all.take(n as int).drop_last() =~= all.take(n - 1));
        }
        let dot = same_text(piece, ".");
        let empty = piece.unicode_len() == 0;
        if !(empty || (dot && n != 1)) {
            if dot || same_text(piece, "..") {
                return None;
            }
            return Some(pieces[n - 1].clone());
        }
        n = n - 1;
    }
    None
}

// -- The site's own certificate.

/// What the command line says about certificates.
#[derive(Debug)]
pub struct CertArgs {
    /// A directory that is named like the site and holds its certificate and key.
    pub letsencrypt: Option<String>,
    pub fqdn: Option<String>,
    pub cert: Option<String>,
    pub key: Option<String>,
}

/// The name of the site, and where its certificate and its key are.
#[derive(Debug)]
pub struct CertPaths {
    pub fqdn: String,
    pub cert: String,
    pub key: String,
    /// Whether the two files have to be there from the start.
    pub in_directory: bool,
}

/// What is said where the command line does not say enough.
pub open spec fn not_enough() -> Seq<char> {
    "either --letsencrypt or all of --fqdn, --cert, --key are required"@
}

/// Where the files of the site are found by what the command line says.
pub open spec fn finds_files(args: CertArgs, home: Option<Seq<char>>, r: Result<CertPaths, String>) -> bool {
    match r {
        Ok(paths) => match args.letsencrypt {
            Some(path) => {
                let dir = tilde_expanded(path@, home);
                &&& name_at_end(dir) == Some(paths.fqdn@)
                &&& paths.cert@ == path_join(dir, "fullchain.pem"@)
                &&& paths.key@ == path_join(dir, "privkey.pem"@)
                &&& paths.in_directory
            },
            None => {
                &&& opt_text(args.fqdn) == Some(paths.fqdn@)
                &&& opt_text(args.cert) == Some(paths.cert@)
                &&& opt_text(args.key) == Some(paths.key@)
                &&& !paths.in_directory
            },
        },
        Err(_) => match args.letsencrypt {
            Some(path) => name_at_end(tilde_expanded(path@, home)) is None,
            None => args.fqdn is None || args.cert is None || args.key is None,
        },
    }
}

/// The name of the site and the paths of its files: those of the directory, or else those that are
/// given one by one.
pub fn resolve_fqdn_cert_key(args: &CertArgs, home: &Option<String>) -> (r: Result<CertPaths, String>)
    ensures
        match args.letsencrypt {
            Some(path) => {
                let dir = tilde_expanded(path@, opt_text(*home));
                match name_at_end(dir) {
                    Some(name) => {
                        &&& r matches Ok(paths)
                        &&& paths.fqdn@ == name
                        &&& paths.cert@ == path_join(dir, "fullchain.pem"@)
                        &&& paths.key@ == path_join(dir, "privkey.pem"@)
                        &&& paths.in_directory
                    },
                    None => r matches Err(e) && e@ == "--letsencrypt path has no usable directory name: "@ + dir,
                }
            },
            None => match (args.fqdn, args.cert, args.key) {
                (Some(fqdn), Some(cert), Some(key)) => {
                    &&& r matches Ok(paths)
                    &&& paths.fqdn@ == fqdn@
                    &&& paths.cert@ == cert@
                    &&& paths.key@ == key@
                    &&& !paths.in_directory
                },
                _ => r matches Err(e) && e@ == not_enough(),
            },
        },
        finds_files(*args, opt_text(*home), r),
{
    match &args.letsencrypt {
        Some(path) => {
            let dir = expand_tilde(path.as_str(), home);
            match file_name(dir.as_str()) {
                Some(fqdn) => Ok(
                    CertPaths {
                        fqdn,
                        cert: join_path(dir.as_str(), "fullchain.pem"),
                        key: join_path(dir.as_str(), "privkey.pem"),
                        in_directory: true,
                    },
                ),
                None => Err(joined("--letsencrypt path has no usable directory name: ", dir.as_str())),
            }
        },
        None => match (&args.fqdn, &args.cert, &args.key) {
            (Some(fqdn), Some(cert), Some(key)) => Ok(
                CertPaths { fqdn: fqdn.clone(), cert: cert.clone(), key: key.clone(), in_directory: false },
            ),
            _ => Err("either --letsencrypt or all of --fqdn, --cert, --key are required".to_owned()),
        },
    }
}

/// Why the paths are no good, if so: a file that has to be there is missing. The certificate is
/// looked for first.
pub fn missing_file(paths: &CertPaths, cert_is_file: bool, key_is_file: bool) -> (r: Option<String>)
    ensures
        opt_text(r) == (if !paths.in_directory || (cert_is_file && key_is_file) {
            None
        } else if !cert_is_file {
            Some("missing "@ + paths.cert@ + " (expected in --letsencrypt dir)"@)
        } else {
            Some("missing "@ + paths.key@ + " (expected in --letsencrypt dir)"@)
        }),
{
    if !paths.in_directory || (cert_is_file && key_is_file) {
        return None;
    }
    let path = if !cert_is_file {
        paths.cert.as_str()
    } else {
        paths.key.as_str()
    };
    let mut r = joined("missing ", path);
    r.append(" (expected in --letsencrypt dir)");
    Some(r)
}

// -- The certificates beside it.

/// A directory entry beside the site's own directory.
#[derive(Debug)]
pub struct Sibling {
    pub name: String,
    pub is_dir: bool,
    pub has_cert: bool,
    pub has_key: bool,
}

/// Whether an entry holds a certificate of another name.
pub open spec fn holds_other_cert(entry: Sibling, own: Option<Seq<char>>) -> bool {
    &&& entry.is_dir
    &&& entry.has_cert
    &&& entry.has_key
    &&& match own {
        Some(name) => entry.name@ != name,
        None => entry.name@.len() > 0,
    }
}

/// The names of the entries that hold certificates of other names.
pub open spec fn other_names(entries: Seq<Sibling>, own: Option<Seq<char>>) -> Seq<Seq<char>>
    decreases entries.len(),
{
    if entries.len() == 0 {
        Seq::empty()
    } else {
        let before = other_names(entries.drop_last(), own);
        if holds_other_cert(entries.last(), own) {
            before.push(entries.last().name@)
        } else {
            before
        }
    }
}

/// Whether a text comes before another or is the same: by the first character in which they differ,
/// or by length where one begins the other.
pub open spec fn comes_first(a: Seq<char>, b: Seq<char>) -> bool
    decreases a.len(),
{
    if a.len() == 0 {
        true
    } else if b.len() == 0 {
        false
    } else if a[0] != b[0] {
        a[0] < b[0]
    } else {
        comes_first(a.drop_first(), b.drop_first())
    }
}

/// Of two texts one comes first.
proof fn lemma_order_total(a: Seq<char>, b: Seq<char>)
    ensures
        comes_first(a, b) || comes_first(b, a),
    decreases a.len(),
{
    if a.len() > 0 && b.len() > 0 && a[0] == b[0] {
        lemma_order_total(a.drop_first(), b.drop_first());
    }
}

/// What comes first before what comes first comes first.
proof fn lemma_order_transitive(a: Seq<char>, b: Seq<char>, c: Seq<char>)
    requires
        comes_first(a, b),
        comes_first(b, c),
    ensures
        comes_first(a, c),
    decreases a.len(),
{
    if a.len() > 0 && b.len() > 0 && c.len() > 0 && a[0] == b[0] && b[0] == c[0] {
        lemma_order_transitive(a.drop_first(), b.drop_first(), c.drop_first());
    }
}

/// Whether a text comes before another or is the same.
pub fn precedes(a: &str, b: &str) -> (r: bool)
    ensures
        r == comes_first(a@, b@),
{
    let v = chars_of(a);
    let w = chars_of(b);
    let mut i: usize = 0;
    assert(v@.skip(0) =~= v@);
    assert(w@.skip(0) =~= w@);
    loop
        invariant
            i <= v@.len(),
            i <= w@.len(),
            v@ == a@,
            w@ == b@,
            comes_first(a@, b@) == comes_first(v@.skip(i as int), w@.skip(i as int)),
        decreases v@.len() - i,
    {
        if i == v.len() {
            return true;
        }
        if i == w.len() {
            return false;
        }
        assert(v@.skip(i as int)[0] == v@[i as int]);
        assert(w@.skip(i as int)[0] == w@[i as int]);
        if v[i] != w[i] {
            return v[i] < w[i];
        }
        assert(v@.skip(i as int).drop_first() =~= v@.skip(i + 1));
        assert(w@.skip(i as int).drop_first() =~= w@.skip(i + 1));
        i = i + 1;
    }
}

/// Whether texts stand in their order.
pub open spec fn in_order(names: Seq<Seq<char>>) -> bool {
    forall|i: int, j: int| 0 <= i < j < names.len() ==> comes_first(#[trigger] names[i], #[trigger] names[j])
}

/// Puts a text into its place among texts in their order.
fn insert_in_order(names: &mut Vec<String>, name: String)
    requires
        in_order(texts(old(names)@)),
    ensures
        in_order(texts(final(names)@)),
        texts(final(names)@).to_multiset() == texts(old(names)@).to_multiset().insert(name@),
{
    let ghost before = texts(names@);
    let ghost new = name@;
    let mut i: usize = 0;
    while i < names.len() && precedes(names[i].as_str(), name.as_str())
        invariant
            i <= names@.len(),
            before == texts(names@),
            in_order(before),
            new == name@,
            forall|j: int| 0 <= j < i ==> comes_first(#[trigger] before[j], new),
        decreases names@.len() - i,
    {
        assert(before[i as int] == names@[i as int]@);
        i = i + 1;
    }
    proof {
        if i < names@.len() {
            assert(before[i as int] == names@[i as int]@);
            lemma_order_total(before[i as int], new);
            assert forall|j: int| i <= j < before.len() implies comes_first(new, #[trigger] before[j]) by {
                if j > i {
                    lemma_order_transitive(new, before[i as int], before[j]);
                }
            }
        }
        before.insert_ensures(i as int, new);
    }
    names.insert(i, name);
    proof {
        let after = texts(names@);
        assert(after =~= before.insert(i as int, new));
        assert forall|a: int, b: int| 0 <= a < b < after.len() implies comes_first(
            #[trigger] after[a],
            #[trigger] after[b],
        ) by {
            if a < i && b > i {
                assert(after[a] == before[a] && after[b] == before[b - 1]);
            } else if a < i && b < i {
                assert(after[a] == before[a] && after[b] == before[b]);
            } else if a < i && b == i {
                assert(after[a] == before[a]);
            } else if a == i {
                assert(after[b] == before[b - 1]);
            } else {
                assert(after[a] == before[a - 1] && after[b] == before[b - 1]);
            }
        }
        to_multiset_insert(before, new, i as int);
    }
}

/// What is inserted into a sequence is inserted into its multiset.
proof fn to_multiset_insert(s: Seq<Seq<char>>, x: Seq<char>, at: int)
    requires
        0 <= at <= s.len(),
    ensures
        s.insert(at, x).to_multiset() == s.to_multiset().insert(x),
{
    broadcast use group_to_multiset_ensures;

    let front = s.take(at);
    let back = s.skip(at);
    assert(s =~= front + back);
    assert(s.insert(at, x) =~= front.push(x) + back);
    lemma_multiset_commutative(front.push(x), back);
    lemma_multiset_commutative(front, back);
    assert(front.push(x).to_multiset() =~= front.to_multiset().insert(x));
    assert(s.insert(at, x).to_multiset() =~= s.to_multiset().insert(x));
}

/// The names under which the certificates beside the site's own are served: those of the directories
/// that hold a certificate and a key, in order.
fn sibling_names(entries: &Vec<Sibling>, own: &Option<String>) -> (r: Vec<String>)
    ensures
        in_order(texts(r@)),
        texts(r@).to_multiset() == other_names(entries@, opt_text(*own)).to_multiset(),
{
    let mut r: Vec<String> = Vec::new();
    let mut i: usize = 0;
    proof {
        assert(entries@.take(0) =~= Seq::empty());
        assert(texts(r@) =~= Seq::empty());
    }
    while i < entries.len()
        invariant
            i <= entries@.len(),
            in_order(texts(r@)),
            texts(r@).to_multiset() == other_names(entries@.take(i as int), opt_text(*own)).to_multiset(),
        decreases entries@.len() - i,
    {
        let entry = &entries[i];
        let ghost before = other_names(entries@.take(i as int), opt_text(*own));
        proof {
            assert(entries@.take(i + 1).drop_last() =~= entries@.take(i as int));
            assert(entries@.take(i + 1).last() == *entry);
        }
        let other = match own {
            Some(name) => !same_text(entry.name.as_str(), name.as_str()),
            None => {
                let named = entry.name.as_str().unicode_len() > 0;
                named
            },
        };
        if other && entry.is_dir && entry.has_cert && entry.has_key {
            insert_in_order(&mut r, entry.name.clone());
            proof {
                broadcast use group_to_multiset_ensures;

                assert(before.push(entry.name@).to_multiset() =~= before.to_multiset().insert(entry.name@));
            }
        }
        i = i + 1;
    }
    assert(entries@.take(i as int) =~= entries@);
    r
}

/// How many pieces of a path there are up to the last one that says something.
pub open spec fn said_upto(pieces: Seq<Seq<char>>) -> nat
    decreases pieces.len(),
{
    if pieces.len() == 0 {
        0
    } else if says_nothing(pieces.last(), pieces.len() == 1) {
        said_upto(pieces.drop_last())
    } else {
        pieces.len()
    }
}

/// Pieces with slashes between them.
pub open spec fn with_slashes(pieces: Seq<Seq<char>>) -> Seq<char>
    decreases pieces.len(),
{
    if pieces.len() == 0 {
        Seq::empty()
    } else if pieces.len() == 1 {
        pieces[0]
    } else {
        with_slashes(pieces.drop_last()) + "/"@ + pieces.last()
    }
}

/// The directory that holds what a path leads to: the path without its last piece that says something,
/// and without what says nothing before that. It is none where that leaves nothing.
pub open spec fn parent_dir(path: Seq<char>) -> Option<Seq<char>> {
    let pieces = split_on(path, '/');
    let count = said_upto(pieces);
    if count == 0 {
        None
    } else {
        let left = pieces.take(said_upto(pieces.take(count - 1)) as int);
        if left.len() > 0 {
            Some(with_slashes(left))
        } else if "/"@.is_prefix_of(path) {
            Some("/"@)
        } else {
            None
        }
    }
}

fn count_said(pieces: &Vec<String>, upto: usize) -> (n: usize)
    requires
        upto <= pieces@.len(),
    ensures
        n == said_upto(texts(pieces@).take(upto as int)),
        n <= upto,
{
    let ghost all = texts(pieces@);
    let mut n: usize = upto;
    while n > 0
        invariant
            n <= upto <= pieces@.len(),
            all == texts(pieces@),
            said_upto(all.take(upto as int)) == said_upto(all.take(n as int)),
        decreases n,
    {
        let piece = pieces[n - 1].as_str();
        proof {
            assert(all.take(n as int).last() == piece@);
            assert(all.take(n as int).drop_last() =~= all.take(n - 1));
        }
        let dot = same_text(piece, ".");
        let empty = piece.unicode_len() == 0;
        if !(empty || (dot && n != 1)) {
            return n;
        }
        n = n - 1;
    }
    n
}

/// The directory that holds what a path leads to.
pub fn parent_path(path: &str) -> (r: Option<String>)
    ensures
        opt_text(r) == parent_dir(path@),
{
    let pieces = split_char(path, '/');
    let ghost all = texts(pieces@);
    assert(all.take(pieces@.len() as int) =~= all);
    let count = count_said(&pieces, pieces.len());
    if count == 0 {
        return None;
    }
    let left = count_said(&pieces, count - 1);
    if left == 0 {
        if has_prefix(path, "/") {
            return Some("/".to_owned());
        }
        return None;
    }
    let mut r = pieces[0].clone();
    let mut i: usize = 1;
    assert(all.take(1)[0] == pieces@[0]@);
    while i < left
        invariant
            1 <= i <= left <= pieces@.len(),
            all == texts(pieces@),
            r@ == with_slashes(all.take(i as int)),
        decreases left - i,
    {
        proof {
            assert(all.take(i + 1).drop_last() =~= all.take(i as int));
            assert(all.take(i + 1).last() == pieces@[i as int]@);
        }
        r.append("/");
        r.append(pieces[i].as_str());
        i = i + 1;
    }
    Some(r)
}

/// The directory in which the certificates of other names are looked for.
pub open spec fn siblings_dir(args: CertArgs, home: Option<Seq<char>>) -> Option<Seq<char>> {
    match args.letsencrypt {
        Some(path) => parent_dir(tilde_expanded(path@, home)),
        None => None,
    }
}

/// The name of the site's own directory among them.
pub open spec fn own_name(args: CertArgs, home: Option<Seq<char>>) -> Option<Seq<char>> {
    match args.letsencrypt {
        Some(path) => name_at_end(tilde_expanded(path@, home)),
        None => None,
    }
}

/// The directory that is to be listed for the certificates of other names, if there is one.
pub fn sibling_parent(args: &CertArgs, home: &Option<String>) -> (r: Option<String>)
    ensures
        opt_text(r) == siblings_dir(*args, opt_text(*home)),
{
    match &args.letsencrypt {
        Some(path) => parent_path(expand_tilde(path.as_str(), home).as_str()),
        None => None,
    }
}

/// A name with its certificate and its key below a directory.
pub open spec fn certificate_at(parent: Seq<char>, name: Seq<char>) -> (Seq<char>, Seq<char>, Seq<char>) {
    (
        name,
        path_join(path_join(parent, name), "fullchain.pem"@),
        path_join(path_join(parent, name), "privkey.pem"@),
    )
}

/// Names with their certificates and their keys below a directory.
pub open spec fn certificates_at(parent: Seq<char>, names: Seq<Seq<char>>) -> Seq<
    (Seq<char>, Seq<char>, Seq<char>),
> {
    Seq::new(names.len(), |i: int| certificate_at(parent, names[i]))
}

/// The names alone.
pub open spec fn first_texts(list: Seq<(Seq<char>, Seq<char>, Seq<char>)>) -> Seq<Seq<char>> {
    Seq::new(list.len(), |i: int| list[i].0)
}

/// What names with their certificates and keys say.
pub open spec fn triple_texts(list: Seq<(String, String, String)>) -> Seq<(Seq<char>, Seq<char>, Seq<char>)> {
    Seq::new(list.len(), |i: int| (list[i].0@, list[i].1@, list[i].2@))
}

/// The certificates and the keys of names below a directory.
pub fn sibling_certificates(parent: &str, names: Vec<String>) -> (r: Vec<(String, String, String)>)
    ensures
        triple_texts(r@) == certificates_at(parent@, texts(names@)),
{
    let mut r: Vec<(String, String, String)> = Vec::new();
    let ghost wanted = certificates_at(parent@, texts(names@));
    let mut i: usize = 0;
    assert(triple_texts(r@) =~= wanted.take(0));
    while i < names.len()
        invariant
            i <= names@.len(),
            wanted == certificates_at(parent@, texts(names@)),
            triple_texts(r@) == wanted.take(i as int),
        decreases names@.len() - i,
    {
        let ghost before = triple_texts(r@);
        let dir = join_path(parent, names[i].as_str());
        let cert = join_path(dir.as_str(), "fullchain.pem");
        let key = join_path(dir.as_str(), "privkey.pem");
        r.push((names[i].clone(), cert, key));
        proof {
            let new = certificate_at(parent@, names@[i as int]@);
            assert(wanted[i as int] == new);
            assert(triple_texts(r@) =~= before.push(new));
            assert(wanted.take(i + 1) =~= wanted.take(i as int).push(new));
        }
        i = i + 1;
    }
    assert(wanted.take(i as int) =~= wanted);
    r
}

/// Whether these are the certificates beside the site's own, with their keys, in the order of their
/// names.
pub open spec fn are_siblings(
    found: Seq<(Seq<char>, Seq<char>, Seq<char>)>,
    parent: Seq<char>,
    entries: Seq<Sibling>,
    own: Option<Seq<char>>,
) -> bool {
    &&& in_order(first_texts(found))
    &&& first_texts(found).to_multiset() == other_names(entries, own).to_multiset()
    &&& found == certificates_at(parent, first_texts(found))
}

/// The certificates beside the site's own, with their keys: those of the directories in the same place
/// that hold both, in the order of their names. `entries` is what was found there; without a place there
/// are none.
pub fn sibling_letsencrypt_dirs(args: &CertArgs, home: &Option<String>, entries: &Vec<Sibling>) -> (r: Vec<
    (String, String, String),
>)
    ensures
        match siblings_dir(*args, opt_text(*home)) {
            Some(parent) => are_siblings(triple_texts(r@), parent, entries@, own_name(*args, opt_text(*home))),
            None => r@ == Seq::<(String, String, String)>::empty(),
        },
{
    let own = match &args.letsencrypt {
        Some(path) => file_name(expand_tilde(path.as_str(), home).as_str()),
        None => None,
    };
    match sibling_parent(args, home) {
        Some(parent) => {
            let names = sibling_names(entries, &own);
            let ghost texted = texts(names@);
            let r = sibling_certificates(parent.as_str(), names);
            assert(first_texts(triple_texts(r@)) =~= texted);
            r
        },
        None => Vec::new(),
    }
}

/// Whether no two entries have one name, as it is in a directory.
pub open spec fn names_differ(entries: Seq<Sibling>) -> bool {
    forall|i: int, j: int|
        0 <= i < j < entries.len() ==> (#[trigger] entries[i]).name@ != (#[trigger] entries[j]).name@
}

/// A name is among the other names exactly where an entry of that name holds a certificate.
proof fn lemma_other_names(entries: Seq<Sibling>, own: Option<Seq<char>>)
    ensures
        forall|name: Seq<char>| #[trigger]
            other_names(entries, own).contains(name) <==> exists|i: int|
                0 <= i < entries.len() && holds_other_cert(#[trigger] entries[i], own) && entries[i].name@ == name,
        names_differ(entries) ==> other_names(entries, own).no_duplicates(),
    decreases entries.len(),
{
    if entries.len() > 0 {
        let fewer = entries.drop_last();
        let last = entries.last();
        let before = other_names(fewer, own);
        let all = other_names(entries, own);
        lemma_other_names(fewer, own);
        assert forall|name: Seq<char>| #[trigger] all.contains(name) <==> exists|i: int|
            0 <= i < entries.len() && holds_other_cert(#[trigger] entries[i], own) && entries[i].name@ == name by {
            if all.contains(name) {
                if before.contains(name) {
                    let i = choose|i: int|
                        0 <= i < fewer.len() && holds_other_cert(#[trigger] fewer[i], own) && fewer[i].name@ == name;
                    assert(entries[i] == fewer[i]);
                } else {
                    assert(entries[entries.len() - 1] == last);
                    assert(name == last.name@);
                }
            }
            if exists|i: int|
                0 <= i < entries.len() && holds_other_cert(#[trigger] entries[i], own) && entries[i].name@ == name {
                let i = choose|i: int|
                    0 <= i < entries.len() && holds_other_cert(#[trigger] entries[i], own) && entries[i].name@ == name;
                if i < fewer.len() {
                    assert(fewer[i] == entries[i]);
                    assert(before.contains(name));
                    let k = choose|k: int| 0 <= k < before.len() && before[k] == name;
                    assert(all[k] == name);
                } else {
                    assert(all[all.len() - 1] == name);
                }
            }
        }
        if names_differ(entries) {
            assert(names_differ(fewer)) by {
                assert forall|i: int, j: int| 0 <= i < j < fewer.len() implies (#[trigger] fewer[i]).name@
                    != (#[trigger] fewer[j]).name@ by {
                    assert(fewer[i] == entries[i] && fewer[j] == entries[j]);
                }
            }
            if holds_other_cert(last, own) {
                assert(!before.contains(last.name@)) by {
                    if before.contains(last.name@) {
                        let i = choose|i: int|
                            0 <= i < fewer.len() && holds_other_cert(#[trigger] fewer[i], own) && fewer[i].name@
                                == last.name@;
                        assert(entries[i] == fewer[i]);
                        assert(entries[entries.len() - 1] == last);
                    }
                }
            }
        }
    }
}

/// The certificates beside the site's own come strictly in the order of their names. There is one for
/// each entry that is a directory of another name with both files, with the paths of those files, and
/// there are no others.
pub proof fn siblings_are_the_directories_with_both_files(
    found: Seq<(Seq<char>, Seq<char>, Seq<char>)>,
    parent: Seq<char>,
    entries: Seq<Sibling>,
    own: Option<Seq<char>>,
)
    requires
        are_siblings(found, parent, entries, own),
        names_differ(entries),
    ensures
        forall|i: int, j: int|
            0 <= i < j < found.len() ==> comes_first((#[trigger] found[i]).0, (#[trigger] found[j]).0) && found[i].0
                != found[j].0,
        forall|entry: (Seq<char>, Seq<char>, Seq<char>)| #[trigger]
            found.contains(entry) <==> entry == certificate_at(parent, entry.0) && exists|i: int|
                0 <= i < entries.len() && holds_other_cert(#[trigger] entries[i], own) && entries[i].name@ == entry.0,
{
    broadcast use group_to_multiset_ensures;

    let names = first_texts(found);
    let others = other_names(entries, own);
    lemma_other_names(entries, own);
    others.lemma_multiset_has_no_duplicates();
    names.lemma_multiset_has_no_duplicates_conv();
    assert forall|name: Seq<char>| #[trigger] names.contains(name) <==> others.contains(name) by {
        assert(names.contains(name) <==> names.to_multiset().count(name) > 0);
        assert(others.contains(name) <==> others.to_multiset().count(name) > 0);
    }
    assert forall|i: int, j: int| 0 <= i < j < found.len() implies comes_first(
        (#[trigger] found[i]).0,
        (#[trigger] found[j]).0,
    ) && found[i].0 != found[j].0 by {
        assert(found[i].0 == names[i] && found[j].0 == names[j]);
    }
    assert forall|entry: (Seq<char>, Seq<char>, Seq<char>)| #[trigger] found.contains(entry) <==> entry
        == certificate_at(parent, entry.0) && others.contains(entry.0) by {
        if found.contains(entry) {
            let i = choose|i: int| 0 <= i < found.len() && found[i] == entry;
            assert(names[i] == entry.0);
            assert(names.contains(entry.0));
        }
        if entry == certificate_at(parent, entry.0) && others.contains(entry.0) {
            assert(names.contains(entry.0));
            let i = choose|i: int| 0 <= i < names.len() && names[i] == entry.0;
            assert(found[i] == entry);
        }
    }
}

// -- What holds of paths.

/// A path below a directory is the directory, one slash and the path; a path that starts at the root is a
/// path of its own.
pub proof fn paths_are_joined_by_one_slash(base: Seq<char>, path: Seq<char>)
    requires
        base.len() > 0,
    ensures
        path.len() > 0 && path[0] == '/' ==> path_join(base, path) == path,
        !(path.len() > 0 && path[0] == '/') && base.last() == '/' ==> path_join(base, path) == base + path,
        !(path.len() > 0 && path[0] == '/') && base.last() != '/' ==> path_join(base, path) == base + seq!['/'] + path,
{
    reveal_strlit("/");
    lemma_slash_at_ends(base, path);
    assert("/"@ =~= seq!['/']);
}

proof fn lemma_slash_at_ends(base: Seq<char>, path: Seq<char>)
    ensures
        "/"@.is_prefix_of(path) <==> path.len() > 0 && path[0] == '/',
        "/"@.is_suffix_of(base) <==> base.len() > 0 && base.last() == '/',
{
    reveal_strlit("/");
    if "/"@.is_prefix_of(path) {
        assert(path.subrange(0, 1)[0] == '/');
    }
    if path.len() > 0 && path[0] == '/' {
        assert(path.subrange(0, 1) =~= "/"@);
    }
    if "/"@.is_suffix_of(base) {
        assert(base.subrange(base.len() - 1, base.len() as int)[0] == '/');
    }
    if base.len() > 0 && base.last() == '/' {
        assert(base.subrange(base.len() - 1, base.len() as int) =~= "/"@);
    }
}

/// The tilde stands for the home directory where it is alone or before a slash, and nowhere else; without a
/// home directory it stands for itself.
pub proof fn the_tilde_is_the_home_directory(home: Seq<char>, rest: Seq<char>, path: Seq<char>)
    requires
        home.len() > 0,
        home.last() != '/',
        !(rest.len() > 0 && rest[0] == '/'),
        path.len() == 0 || path[0] != '~',
    ensures
        tilde_expanded("~/"@ + rest, Some(home)) == home + seq!['/'] + rest,
        tilde_expanded("~"@, Some(home)) == home,
        tilde_expanded(path, Some(home)) == path,
        tilde_expanded("~/"@ + rest, None) == "~/"@ + rest,
{
    reveal_strlit("~/");
    reveal_strlit("~");
    let typed = "~/"@ + rest;
    assert(typed.subrange(0, 2) =~= "~/"@);
    assert(typed.skip(2) =~= rest);
    paths_are_joined_by_one_slash(home, rest);
    if "~/"@.is_prefix_of(path) {
        assert(path.subrange(0, 2)[0] == '~');
    }
    assert("~"@.len() == 1 && "~"@[0] == '~');
}

proof fn lemma_split_snoc(text: Seq<char>, name: Seq<char>, c: char)
    requires
        !name.contains(c),
    ensures
        split_on(text + seq![c] + name, c) == split_on(text, c).push(name),
    decreases text.len(),
{
    let whole = text + seq![c] + name;
    let at = first_index(text, c, 0);
    lemma_first(text, c, 0);
    if at < text.len() {
        let head = text.take(at);
        let rest = text.skip(at + 1);
        assert(!head.contains(c));
        lemma_split_snoc(rest, name, c);
        a_separator_ends_a_piece(head, c, rest + seq![c] + name);
        assert(whole =~= head + seq![c] + (rest + seq![c] + name));
        a_separator_ends_a_piece(head, c, rest);
        assert(text =~= head + seq![c] + rest);
        assert(seq![head] + split_on(rest, c).push(name) =~= (seq![head] + split_on(rest, c)).push(name));
    } else {
        assert(!text.contains(c));
        a_separator_ends_a_piece(text, c, name);
        a_separator_ends_a_piece(name, c, name);
        a_separator_ends_a_piece(text, c, text);
        assert(seq![text] + seq![name] =~= seq![text].push(name));
    }
}

proof fn lemma_first(text: Seq<char>, c: char, from: int)
    requires
        0 <= from <= text.len(),
    ensures
        from <= first_index(text, c, from) <= text.len(),
        first_index(text, c, from) < text.len() ==> text[first_index(text, c, from)] == c,
        forall|j: int| from <= j < first_index(text, c, from) ==> text[j] != c,
    decreases text.len() - from,
{
    if from < text.len() && text[from] != c {
        lemma_first(text, c, from + 1);
    }
}

proof fn lemma_split_is_not_empty(text: Seq<char>, c: char)
    ensures
        split_on(text, c).len() > 0,
{
}

proof fn lemma_with_slashes_joins(text: Seq<char>)
    ensures
        with_slashes(split_on(text, '/')) == text,
    decreases text.len(),
{
    let at = last_slash(text);
    lemma_last_slash(text);
    if at < 0 {
        a_separator_ends_a_piece(text, '/', text);
    } else {
        reveal_strlit("/");
        let head = text.take(at);
        let name = text.skip(at + 1);
        assert(text =~= head + seq!['/'] + name);
        lemma_split_snoc(head, name, '/');
        lemma_with_slashes_joins(head);
        lemma_split_is_not_empty(head, '/');
        let pieces = split_on(head, '/');
        assert(pieces.push(name).drop_last() =~= pieces);
        assert("/"@ =~= seq!['/']);
    }
}

/// The position of the last slash, or one before the front where there is none.
spec fn last_slash(text: Seq<char>) -> int
    decreases text.len(),
{
    if text.len() == 0 {
        -1
    } else if text.last() == '/' {
        text.len() - 1
    } else {
        last_slash(text.drop_last())
    }
}

proof fn lemma_last_slash(text: Seq<char>)
    ensures
        -1 <= last_slash(text) < text.len(),
        last_slash(text) >= 0 ==> text[last_slash(text)] == '/' && !text.skip(last_slash(text) + 1).contains('/'),
        last_slash(text) < 0 ==> !text.contains('/'),
    decreases text.len(),
{
    if text.len() > 0 && text.last() != '/' {
        let head = text.drop_last();
        lemma_last_slash(head);
        let at = last_slash(head);
        if at >= 0 {
            let tail = text.skip(at + 1);
            let before = head.skip(at + 1);
            assert forall|i: int| 0 <= i < tail.len() implies tail[i] != '/' by {
                if i < before.len() {
                    assert(before[i] == tail[i]);
                    assert(before.contains(before[i]));
                }
            }
        } else {
            assert forall|i: int| 0 <= i < text.len() implies text[i] != '/' by {
                if i < head.len() {
                    assert(head[i] == text[i]);
                    assert(head.contains(head[i]));
                }
            }
        }
    }
}

/// The name at the end of a path is what follows its last slash, unless that is empty or made of dots alone;
/// and the directory that holds it is what stands before, where that ends in a name too. A slash at the end
/// makes no difference to either.
pub proof fn a_path_is_its_directory_and_its_name(dir: Seq<char>, above: Seq<char>, last: Seq<char>, name: Seq<char>)
    requires
        name.len() > 0,
        name != "."@ && name != ".."@,
        !name.contains('/'),
        last.len() > 0 && last != "."@ && !last.contains('/'),
        dir == above + seq!['/'] + last,
    ensures
        name_at_end(dir + seq!['/'] + name) == Some(name),
        name_at_end(dir + seq!['/'] + name + seq!['/']) == Some(name),
        parent_dir(dir + seq!['/'] + name) == Some(dir),
        parent_dir(dir + seq!['/'] + name + seq!['/']) == Some(dir),
{
    reveal_strlit(".");
    reveal_strlit("/");
    let path = dir + seq!['/'] + name;
    let pieces = split_on(dir, '/');
    lemma_split_snoc(above, last, '/');
    lemma_split_snoc(dir, name, '/');
    lemma_split_is_not_empty(above, '/');
    lemma_with_slashes_joins(dir);
    let all = pieces.push(name);
    assert(split_on(path, '/') == all);
    assert(all.last() == name);
    assert(all.drop_last() =~= pieces);
    assert(pieces.last() == last);
    assert(said_upto(all) == all.len());
    assert(all.take(all.len() - 1) =~= pieces);
    assert(said_upto(pieces) == pieces.len());
    assert(all.take(pieces.len() as int) =~= pieces);
    let empty = Seq::<char>::empty();
    lemma_split_snoc(path, empty, '/');
    let longer = path + seq!['/'];
    assert(longer =~= path + seq!['/'] + empty);
    let more = all.push(empty);
    assert(split_on(longer, '/') == more);
    assert(more.drop_last() =~= all);
    assert(said_upto(more) == all.len());
    assert(more.take(all.len() - 1) =~= pieces);
    assert(more.take(pieces.len() as int) =~= pieces);
}

/// The certificates beside the site's own are those of the directories of another name that hold both
/// files, each with the paths of its files below the common directory.
pub proof fn a_directory_with_both_files_is_a_sibling(
    found: Seq<(Seq<char>, Seq<char>, Seq<char>)>,
    parent: Seq<char>,
    entries: Seq<Sibling>,
    own: Seq<char>,
    i: int,
)
    requires
        are_siblings(found, parent, entries, Some(own)),
        names_differ(entries),
        0 <= i < entries.len(),
        parent.len() > 0 && parent.last() != '/',
        entries[i].name@.len() > 0 && entries[i].name@[0] != '/' && entries[i].name@.last() != '/',
    ensures
        ({
            let name = entries[i].name@;
            let dir = parent + seq!['/'] + name;
            let wanted = entries[i].is_dir && entries[i].has_cert && entries[i].has_key && name != own;
            &&& wanted ==> found.contains((name, dir + "/fullchain.pem"@, dir + "/privkey.pem"@))
            &&& !wanted ==> forall|entry: (Seq<char>, Seq<char>, Seq<char>)| #[trigger]
                found.contains(entry) ==> entry.0 != name
        }),
{
    siblings_are_the_directories_with_both_files(found, parent, entries, Some(own));
    let name = entries[i].name@;
    let dir = parent + seq!['/'] + name;
    reveal_strlit("fullchain.pem");
    reveal_strlit("privkey.pem");
    reveal_strlit("/fullchain.pem");
    reveal_strlit("/privkey.pem");
    paths_are_joined_by_one_slash(parent, name);
    assert(dir.last() == name.last());
    paths_are_joined_by_one_slash(dir, "fullchain.pem"@);
    paths_are_joined_by_one_slash(dir, "privkey.pem"@);
    assert(dir + seq!['/'] + "fullchain.pem"@ =~= dir + "/fullchain.pem"@);
    assert(dir + seq!['/'] + "privkey.pem"@ =~= dir + "/privkey.pem"@);
    let mine = (name, dir + "/fullchain.pem"@, dir + "/privkey.pem"@);
    assert(mine == certificate_at(parent, name));
    let wanted = entries[i].is_dir && entries[i].has_cert && entries[i].has_key && name != own;
    if wanted {
        assert(holds_other_cert(entries[i], Some(own)));
        assert(found.contains(mine));
    } else {
        assert forall|entry: (Seq<char>, Seq<char>, Seq<char>)| #[trigger] found.contains(entry) implies entry.0
            != name by {
            if entry.0 == name {
                let j = choose|j: int|
                    0 <= j < entries.len() && holds_other_cert(#[trigger] entries[j], Some(own)) && entries[j].name@
                        == entry.0;
                if i < j {
                    assert(entries[i].name@ != entries[j].name@);
                } else if j < i {
                    assert(entries[j].name@ != entries[i].name@);
                }
            }
        }
    }
}

/// The first character in which two texts differ decides which one comes first; where one begins the other,
/// the shorter one does.
pub proof fn the_first_difference_decides(common: Seq<char>, a: Seq<char>, b: Seq<char>)
    requires
        a.len() > 0 && b.len() > 0 ==> a[0] != b[0],
    ensures
        a.len() == 0 ==> comes_first(common + a, common + b),
        a.len() > 0 && b.len() == 0 ==> !comes_first(common + a, common + b),
        a.len() > 0 && b.len() > 0 ==> (comes_first(common + a, common + b) <==> a[0] < b[0]),
    decreases common.len(),
{
    if common.len() == 0 {
        assert(common + a =~= a);
        assert(common + b =~= b);
    } else {
        let rest = common.drop_first();
        the_first_difference_decides(rest, a, b);
        assert((common + a).drop_first() =~= rest + a);
        assert((common + b).drop_first() =~= rest + b);
    }
}

/// A path that ends in two dots leads to no name.
pub proof fn going_up_leads_to_no_name(dir: Seq<char>)
    ensures
        name_at_end(dir + seq!['/'] + ".."@) is None,
{
    reveal_strlit("..");
    reveal_strlit(".");
    assert(!".."@.contains('/'));
    lemma_split_snoc(dir, ".."@, '/');
    lemma_split_is_not_empty(dir, '/');
    let all = split_on(dir, '/').push(".."@);
    assert(all.last() == ".."@);
}

/// A directory that is given with a tilde is looked for below the home directory: its own name is the name
/// at its end, and the certificates beside it are looked for where it lies.
pub proof fn siblings_are_looked_for_below_home(
    args: CertArgs,
    home: Seq<char>,
    above: Seq<char>,
    last: Seq<char>,
    name: Seq<char>,
)
    requires
        home.len() > 0 && home.last() != '/',
        above.len() > 0 && above[0] != '/',
        last.len() > 0 && last != "."@ && !last.contains('/'),
        name.len() > 0 && name != "."@ && name != ".."@ && !name.contains('/'),
        args.letsencrypt matches Some(path) && path@ == "~/"@ + above + seq!['/'] + last + seq!['/'] + name,
    ensures
        siblings_dir(args, Some(home)) == Some(home + seq!['/'] + above + seq!['/'] + last),
        own_name(args, Some(home)) == Some(name),
{
    let rest = above + seq!['/'] + last + seq!['/'] + name;
    assert(args.letsencrypt->0@ =~= "~/"@ + rest);
    assert(rest[0] == above[0]);
    the_tilde_is_the_home_directory(home, rest, Seq::empty());
    let over = home + seq!['/'] + above;
    let dir = over + seq!['/'] + last;
    assert(home + seq!['/'] + rest =~= dir + seq!['/'] + name);
    a_path_is_its_directory_and_its_name(dir, over, last, name);
}

/// A directory below the home directory gives the site its name and its two files, whatever is said one by
/// one; without a directory all three have to be said, and are taken as they are.
pub proof fn the_directory_names_the_site(
    args: CertArgs,
    home: Seq<char>,
    above: Seq<char>,
    name: Seq<char>,
    r: Result<CertPaths, String>,
)
    requires
        finds_files(args, Some(home), r),
        home.len() > 0 && home.last() != '/',
        above.len() > 0 && above[0] != '/' && above != "."@ && !above.contains('/'),
        name.len() > 0 && name != "."@ && name != ".."@ && !name.contains('/'),
    ensures
        args.letsencrypt matches Some(path) ==> (path@ == "~/"@ + above + seq!['/'] + name ==> {
            let dir = home + seq!['/'] + above + seq!['/'] + name;
            &&& r is Ok
            &&& r->Ok_0.fqdn@ == name
            &&& r->Ok_0.cert@ == dir + "/fullchain.pem"@
            &&& r->Ok_0.key@ == dir + "/privkey.pem"@
        }),
        args.letsencrypt is None ==> (r is Ok <==> args.fqdn is Some && args.cert is Some && args.key is Some),
        args.letsencrypt is None && r is Ok ==> r->Ok_0.fqdn@ == args.fqdn->0@ && r->Ok_0.cert@ == args.cert->0@
            && r->Ok_0.key@ == args.key->0@,
{
    if args.letsencrypt is Some && args.letsencrypt->0@ == "~/"@ + above + seq!['/'] + name {
        let rest = above + seq!['/'] + name;
        let over = home + seq!['/'] + above;
        let dir = over + seq!['/'] + name;
        assert(args.letsencrypt->0@ =~= "~/"@ + rest);
        assert(rest[0] == above[0]);
        the_tilde_is_the_home_directory(home, rest, Seq::empty());
        assert(home + seq!['/'] + rest =~= dir);
        a_path_is_its_directory_and_its_name(over, home, above, name);
        assert(name.contains(name.last()));
        assert(dir.last() == name.last());
        reveal_strlit("fullchain.pem");
        reveal_strlit("privkey.pem");
        reveal_strlit("/fullchain.pem");
        reveal_strlit("/privkey.pem");
        paths_are_joined_by_one_slash(dir, "fullchain.pem"@);
        paths_are_joined_by_one_slash(dir, "privkey.pem"@);
        assert(dir + seq!['/'] + "fullchain.pem"@ =~= dir + "/fullchain.pem"@);
        assert(dir + seq!['/'] + "privkey.pem"@ =~= dir + "/privkey.pem"@);
    }
}

/// A name alone lies in no directory that could be listed, and one right below the root lies in the root.
pub proof fn a_name_alone_lies_in_no_directory(name: Seq<char>)
    requires
        name.len() > 0,
        name != "."@,
        !name.contains('/'),
    ensures
        parent_dir(name) is None,
        parent_dir(seq!['/'] + name) == Some(seq!['/']),
{
    reveal_strlit("/");
    reveal_strlit(".");
    let empty = Seq::<char>::empty();
    let path = seq!['/'] + name;
    a_separator_ends_a_piece(name, '/', empty);
    a_separator_ends_a_piece(empty, '/', name);
    assert(empty + seq!['/'] + name =~= path);
    assert(name[0] != '/') by {
        assert(name.contains(name[0]));
    }
    let one = seq![name];
    assert(one.last() == name);
    assert(said_upto(one) == 1);
    assert(one.take(0) =~= Seq::empty());
    let two = seq![empty] + seq![name];
    assert(split_on(path, '/') =~= two);
    assert(two.last() == name);
    assert(said_upto(two) == 2);
    assert(two.take(1) =~= seq![empty]);
    assert(seq![empty].drop_last() =~= Seq::empty());
    assert(said_upto(two.take(1)) == 0);
    assert(two.take(0) =~= Seq::empty());
    assert("/"@ =~= seq!['/']);
}

} // verus!
