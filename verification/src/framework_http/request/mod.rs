//! HTTP/1 request heads: the request line, the header map, the path query,
//! and where a head ends in the bytes read.

pub mod x_www_form_urlencoded;
pub mod multipart_form;
pub mod saving;

use vstd::prelude::*;
use crate::chars::{split_text, split_chars, find_text, find_chars};
use crate::assoc::{assoc_insert, keyed, insert_by_key, lemma_assoc_insert_map_values};
use crate::text::{chars_of, string_from_chars};

verus! {

broadcast use vstd::string::group_string_axioms;

/// Header names with their values: for each `;`-separated part of a
/// header line's value, its `,`-separated items.
pub type HttpHeadersMap = Vec<(String, Vec<Vec<String>>)>;

/// Strings as character sequences.
pub open spec fn strings_view(v: Seq<String>) -> Seq<Seq<char>> {
    v.map_values(|s: String| s@)
}

/// A header's parts and items as character sequences.
pub open spec fn values_view(v: Vec<Vec<String>>) -> Seq<Seq<Seq<char>>> {
    v@.map_values(|inner: Vec<String>| strings_view(inner@))
}

/// Character vectors as character sequences.
pub open spec fn char_vecs_view(v: Seq<Vec<char>>) -> Seq<Seq<char>> {
    v.map_values(|c: Vec<char>| c@)
}

/// A header value cut at each `;`, each part cut at each `,`.
pub open spec fn header_values_text(s: Seq<char>) -> Seq<Seq<Seq<char>>> {
    split_text(s, seq![';']).map_values(|p: Seq<char>| split_text(p, seq![',']))
}

fn strings_from(v: &Vec<Vec<char>>) -> (r: Vec<String>)
    ensures
        strings_view(r@) == char_vecs_view(v@),
{
    let mut r: Vec<String> = Vec::new();
    let mut i: usize = 0;
    while i < v.len()
        invariant
            i <= v@.len(),
            r@.len() == i,
            forall|j: int| 0 <= j < i ==> #[trigger] r@[j]@ == v@[j]@,
        decreases v@.len() - i,
    {
        let s = string_from_chars(v[i].as_slice());
        r.push(s);
        i = i + 1;
    }
    assert(strings_view(r@) =~= char_vecs_view(v@));
    r
}

/// Cuts a header value at each `;`, and each part at each `,`; nothing is
/// trimmed.
pub fn convert_string_value_to_vec_of_strings(slice: &str) -> (r: Vec<Vec<String>>)
    ensures
        values_view(r) == header_values_text(slice@),
{
    let cs = chars_of(slice);
    let semi: [char; 1] = [';'];
    let comma: [char; 1] = [','];
    let parts = split_chars(cs.as_slice(), semi.as_slice());
    assert(semi@ =~= seq![';']);
    assert(comma@ =~= seq![',']);
    let ghost pv = char_vecs_view(parts@);
    let mut values: Vec<Vec<String>> = Vec::new();
    let mut i: usize = 0;
    while i < parts.len()
        invariant
            i <= parts@.len(),
            pv == char_vecs_view(parts@),
            pv == split_text(slice@, seq![';']),
            comma@ == seq![','],
            values@.len() == i,
            forall|j: int| 0 <= j < i ==> strings_view(#[trigger] values@[j]@) == split_text(pv[j], seq![',']),
        decreases parts@.len() - i,
    {
        let items = split_chars(parts[i].as_slice(), comma.as_slice());
        let inner = strings_from(&items);
        assert(char_vecs_view(items@) == items@.map_values(|v: Vec<char>| v@));
        values.push(inner);
        i = i + 1;
    }
    assert(values_view(values) =~= header_values_text(slice@));
    values
}

/// The pairs of a path query, in the order their keys first appear: each
/// `&`-separated piece with a `=` gives the key before its first `=` and
/// the value after it; a later piece with the same key replaces the value.
pub open spec fn query_pairs(pieces: Seq<Seq<char>>) -> Seq<(Seq<char>, Seq<char>)>
    decreases pieces.len(),
{
    if pieces.len() == 0 {
        Seq::empty()
    } else {
        let m = query_pairs(pieces.drop_last());
        let q = pieces.last();
        match find_text(q, seq!['=']) {
            Some(i) => assoc_insert(m, q.take(i), q.skip(i + 1)),
            None => m,
        }
    }
}

/// The key-value pairs of a path query.
pub open spec fn query_map(s: Seq<char>) -> Seq<(Seq<char>, Seq<char>)> {
    query_pairs(split_text(s, seq!['&']))
}

/// The pairs with keys and values as character sequences.
pub open spec fn string_pairs_view(m: Seq<(String, String)>) -> Seq<(Seq<char>, Seq<char>)> {
    m.map_values(|p: (String, String)| (p.0@, p.1@))
}

/// Reads the key-value pairs of a path query such as `id=1&age=23`.
pub fn parse_to_query_map(i: &str) -> (r: Vec<(String, String)>)
    ensures
        string_pairs_view(r@) == query_map(i@),
{
    let cs = chars_of(i);
    let amp: [char; 1] = ['&'];
    let eq: [char; 1] = ['='];
    assert(amp@ =~= seq!['&']);
    assert(eq@ =~= seq!['=']);
    let pieces = split_chars(cs.as_slice(), amp.as_slice());
    let ghost pv = char_vecs_view(pieces@);
    let mut result: Vec<(String, String)> = Vec::new();
    let mut n: usize = 0;
    while n < pieces.len()
        invariant
            n <= pieces@.len(),
            pv == char_vecs_view(pieces@),
            pv == split_text(i@, seq!['&']),
            eq@ == seq!['='],
            string_pairs_view(result@) == query_pairs(pv.take(n as int)),
        decreases pieces@.len() - n,
    {
        let q = &pieces[n];
        let qlen = q.len();
        assert(pv.take(n + 1).drop_last() =~= pv.take(n as int));
        assert(pv.take(n + 1).last() == q@);
        match find_chars(q.as_slice(), eq.as_slice()) {
            Some(index) => {
                proof { lemma_first_bound(q@, seq!['='], index as int); }
                let key = string_from_chars(vstd::slice::slice_subrange(q.as_slice(), 0, index));
                let value = string_from_chars(vstd::slice::slice_subrange(q.as_slice(), index + 1, qlen));
                assert(key@ =~= q@.take(index as int));
                assert(value@ =~= q@.skip(index + 1));
                let ghost before = result@;
                insert_by_key(&mut result, key, value);
                proof {
                    let g = |s: String| s@;
                    lemma_assoc_insert_map_values(keyed(before), key@, value, g);
                    assert(string_pairs_view(before) =~= keyed(before).map_values(|p: (Seq<char>, String)| (p.0, g(p.1))));
                    assert(string_pairs_view(result@) =~= keyed(result@).map_values(|p: (Seq<char>, String)| (p.0, g(p.1))));
                }
            },
            None => {},
        }
        n = n + 1;
    }
    assert(pv.take(n as int) =~= pv);
    result
}

/// A found first occurrence lies within the text.
proof fn lemma_first_bound(s: Seq<char>, p: Seq<char>, i: int)
    requires
        find_text(s, p) == Some(i),
    ensures
        0 <= i && i + p.len() <= s.len(),
{
    assert(crate::chars::first_at(s, p, i));
}

/// The line without one CR at its end.
pub open spec fn strip_cr(l: Seq<char>) -> Seq<char> {
    if l.len() > 0 && l.last() == '\r' {
        l.drop_last()
    } else {
        l
    }
}

/// The lines of a text the way `str::lines` gives them: cut after each LF,
/// the LF and a CR before it dropped; a last line without LF kept as it
/// is; no line after a final LF.
pub open spec fn lines_text(s: Seq<char>) -> Seq<Seq<char>>
    decreases s.len(),
{
    if s.len() == 0 {
        Seq::empty()
    } else {
        match find_text(s, seq!['\n']) {
            Some(i) => if 0 <= i < s.len() {
                seq![strip_cr(s.take(i))] + lines_text(s.skip(i + 1))
            } else {
                seq![s]
            },
            None => seq![s],
        }
    }
}

/// The lines of a text.
pub fn lines_chars(s: &[char]) -> (r: Vec<Vec<char>>)
    ensures
        char_vecs_view(r@) == lines_text(s@),
{
    let lf: [char; 1] = ['\n'];
    assert(lf@ =~= seq!['\n']);
    let mut out: Vec<Vec<char>> = Vec::new();
    let mut pos: usize = 0;
    assert(s@.skip(0) =~= s@);
    loop
        invariant
            pos <= s@.len(),
            lf@ == seq!['\n'],
            char_vecs_view(out@) + lines_text(s@.skip(pos as int)) == lines_text(s@),
        decreases s@.len() - pos,
    {
        let rest = vstd::slice::slice_subrange(s, pos, s.len());
        assert(rest@ =~= s@.skip(pos as int));
        let ghost before = char_vecs_view(out@);
        if rest.len() == 0 {
            assert(before + lines_text(rest@) =~= before);
            return out;
        }
        match find_chars(rest, lf.as_slice()) {
            Some(i) => {
                proof { lemma_first_bound(rest@, seq!['\n'], i as int); }
                let mut line = vstd::slice::slice_to_vec(vstd::slice::slice_subrange(rest, 0, i));
                assert(line@ =~= rest@.take(i as int));
                if line.len() > 0 && line[line.len() - 1] == '\r' {
                    line.pop();
                    assert(line@ =~= rest@.take(i as int).drop_last());
                }
                out.push(line);
                assert(char_vecs_view(out@) =~= before.push(strip_cr(rest@.take(i as int))));
                assert(rest@.skip(i + 1) =~= s@.skip(pos + i + 1));
                assert(before.push(strip_cr(rest@.take(i as int))) + lines_text(rest@.skip(i + 1)) =~= before
                    + lines_text(rest@));
                pos = pos + i + 1;
            },
            None => {
                out.push(vstd::slice::slice_to_vec(rest));
                assert(char_vecs_view(out@) =~= before.push(rest@));
                assert(before.push(rest@) =~= before + lines_text(rest@));
                return out;
            },
        }
    }
}

/// Whether `char::is_whitespace` holds: the Unicode White_Space characters.
pub open spec fn is_white(c: char) -> bool {
    let v = c as int;
    (9 <= v <= 13) || v == 32 || v == 0x85 || v == 0xa0 || v == 0x1680 || (0x2000 <= v <= 0x200a) || v == 0x2028
        || v == 0x2029 || v == 0x202f || v == 0x205f || v == 0x3000
}

fn char_is_white(c: char) -> (r: bool)
    ensures
        r == is_white(c),
{
    let v = c as u32;
    (9 <= v && v <= 13) || v == 32 || v == 0x85 || v == 0xa0 || v == 0x1680 || (0x2000 <= v && v <= 0x200a) || v
        == 0x2028 || v == 0x2029 || v == 0x202f || v == 0x205f || v == 0x3000
}

/// The text without white space at its start.
pub open spec fn trim_start_text(s: Seq<char>) -> Seq<char>
    decreases s.len(),
{
    if s.len() > 0 && is_white(s[0]) {
        trim_start_text(s.drop_first())
    } else {
        s
    }
}

/// The text without white space at its end.
pub open spec fn trim_end_text(s: Seq<char>) -> Seq<char>
    decreases s.len(),
{
    if s.len() > 0 && is_white(s.last()) {
        trim_end_text(s.drop_last())
    } else {
        s
    }
}

/// The text without white space at either end, as `str::trim` gives it.
pub open spec fn trim_text(s: Seq<char>) -> Seq<char> {
    trim_end_text(trim_start_text(s))
}

/// The text without white space at either end.
pub fn trim_chars(s: &[char]) -> (r: Vec<char>)
    ensures
        r@ == trim_text(s@),
{
    let mut a: usize = 0;
    assert(s@.skip(0) =~= s@);
    while a < s.len() && char_is_white(s[a as usize])
        invariant
            a <= s@.len(),
            trim_start_text(s@.skip(a as int)) == trim_start_text(s@),
        decreases s@.len() - a,
    {
        assert(s@.skip(a as int).drop_first() =~= s@.skip(a + 1));
        a = a + 1;
    }
    let mut b: usize = s.len();
    assert(s@.subrange(a as int, b as int) =~= s@.skip(a as int));
    while b > a && char_is_white(s[b - 1])
        invariant
            a <= b <= s@.len(),
            trim_start_text(s@) == s@.skip(a as int),
            trim_end_text(s@.subrange(a as int, b as int)) == trim_text(s@),
        decreases b - a,
    {
        assert(s@.subrange(a as int, b as int).drop_last() =~= s@.subrange(a as int, b - 1));
        b = b - 1;
    }
    let r = vstd::slice::slice_to_vec(vstd::slice::slice_subrange(s, a, b));
    r
}

/// The parts of a request line: the method before the first space, then,
/// in the rest without surrounding white space, the path before the first
/// `?` (or before the first space), the query between that `?` and the
/// first space, and the version after that space. `None` when either space
/// is missing.
pub open spec fn request_line(line: Seq<char>) -> Option<(Seq<char>, Seq<char>, Option<Seq<char>>, Seq<char>)> {
    match find_text(line, seq![' ']) {
        None => None,
        Some(m) => {
            let rest = trim_text(line.skip(m));
            match find_text(rest, seq![' ']) {
                None => None,
                Some(p) => match find_text(rest, seq!['?']) {
                    Some(q) => Some((line.take(m), rest.take(q), Some(rest.subrange(q + 1, p)), rest.skip(p + 1))),
                    None => Some((line.take(m), rest.take(p), None, rest.skip(p + 1))),
                },
            }
        },
    }
}

/// Whether a request line has its `?` after the space that ends the path,
/// where the query would be cut backwards.
pub open spec fn request_line_is_malformed(line: Seq<char>) -> bool {
    match find_text(line, seq![' ']) {
        None => false,
        Some(m) => {
            let rest = trim_text(line.skip(m));
            match (find_text(rest, seq![' ']), find_text(rest, seq!['?'])) {
                (Some(p), Some(q)) => q + 1 > p,
                _ => false,
            }
        },
    }
}

/// Whether a request head's first line has its `?` after the space that
/// ends the path (a head `build_request` does not take).
pub fn head_is_malformed(string_header: &str) -> (r: bool)
    ensures
        r == (lines_text(string_header@).len() > 0 && request_line_is_malformed(lines_text(string_header@)[0])),
{
    let cs = chars_of(string_header);
    let lines = lines_chars(cs.as_slice());
    if lines.len() == 0 {
        return false;
    }
    assert(char_vecs_view(lines@)[0] == lines@[0]@);
    let line = lines[0].as_slice();
    let space: [char; 1] = [' '];
    let question: [char; 1] = ['?'];
    assert(space@ =~= seq![' ']);
    assert(question@ =~= seq!['?']);
    let m = match find_chars(line, space.as_slice()) {
        None => return false,
        Some(m) => m,
    };
    proof { lemma_first_bound(line@, seq![' '], m as int); }
    let after = vstd::slice::slice_subrange(line, m, line.len());
    assert(after@ =~= line@.skip(m as int));
    let rest = trim_chars(after);
    match (find_chars(rest.as_slice(), space.as_slice()), find_chars(rest.as_slice(), question.as_slice())) {
        (Some(p), Some(q)) => q + 1 > p,
        _ => false,
    }
}

fn parse_request_line(line: &[char]) -> (r: Option<(Vec<char>, Vec<char>, Option<Vec<char>>, Vec<char>)>)
    requires
        !request_line_is_malformed(line@),
    ensures
        match r {
            Some((m, p, q, v)) => request_line(line@) == Some(
                (
                    m@,
                    p@,
                    match q {
                        Some(t) => Some(t@),
                        None => None,
                    },
                    v@,
                ),
            ),
            None => request_line(line@) is None,
        },
{
    let space: [char; 1] = [' '];
    let question: [char; 1] = ['?'];
    assert(space@ =~= seq![' ']);
    assert(question@ =~= seq!['?']);
    let m = match find_chars(line, space.as_slice()) {
        None => return None,
        Some(m) => m,
    };
    proof { lemma_first_bound(line@, seq![' '], m as int); }
    let method = vstd::slice::slice_to_vec(vstd::slice::slice_subrange(line, 0, m));
    let after = vstd::slice::slice_subrange(line, m, line.len());
    assert(after@ =~= line@.skip(m as int));
    assert(method@ =~= line@.take(m as int));
    let rest = trim_chars(after);
    let rlen = rest.len();
    let p = match find_chars(rest.as_slice(), space.as_slice()) {
        None => return None,
        Some(p) => p,
    };
    proof { lemma_first_bound(rest@, seq![' '], p as int); }
    let version = vstd::slice::slice_to_vec(vstd::slice::slice_subrange(rest.as_slice(), p + 1, rlen));
    assert(version@ =~= rest@.skip(p + 1));
    match find_chars(rest.as_slice(), question.as_slice()) {
        Some(q) => {
            proof { lemma_first_bound(rest@, seq!['?'], q as int); }
            let path = vstd::slice::slice_to_vec(vstd::slice::slice_subrange(rest.as_slice(), 0, q));
            let query = vstd::slice::slice_to_vec(vstd::slice::slice_subrange(rest.as_slice(), q + 1, p));
            assert(path@ =~= rest@.take(q as int));
            assert(query@ =~= rest@.subrange(q + 1, p as int));
            Some((method, path, Some(query), version))
        },
        None => {
            let path = vstd::slice::slice_to_vec(vstd::slice::slice_subrange(rest.as_slice(), 0, p));
            assert(path@ =~= rest@.take(p as int));
            Some((method, path, None, version))
        },
    }
}

/// The headers kept when an empty list of headers to read is given.
pub open spec fn important_headers() -> Seq<Seq<char>> {
    seq![
        "Cookie"@,
        "Accept-Encoding"@,
        "Accept"@,
        "Connection"@,
        "Content-Length"@,
        "Content-Type"@,
        "Range"@,
        "Host"@,
        "Date"@,
    ]
}

fn important_headers_list() -> (r: Vec<&'static str>)
    ensures
        r@.map_values(|s: &str| s@) == important_headers(),
{
    let v: Vec<&'static str> = vec![
        "Cookie",
        "Accept-Encoding",
        "Accept",
        "Connection",
        "Content-Length",
        "Content-Type",
        "Range",
        "Host",
        "Date",
    ];
    assert(v@.map_values(|s: &str| s@) =~= important_headers());
    v
}

/// The name and value of a header line: the text before the first `: `
/// and the text between it and the next `: ` (or the end). `None` for a
/// line without `: `.
pub open spec fn header_line(line: Seq<char>) -> Option<(Seq<char>, Seq<char>)> {
    let pieces = split_text(line, seq![':', ' ']);
    if pieces.len() < 2 {
        None
    } else {
        Some((pieces[0], pieces[1]))
    }
}

/// Whether a header is kept: every header without a list, the common ones
/// with an empty list, the listed ones otherwise.
pub open spec fn keeps_header(filter: Option<Seq<Seq<char>>>, key: Seq<char>) -> bool {
    match filter {
        None => true,
        Some(list) => if list.len() == 0 {
            important_headers().contains(key)
        } else {
            list.contains(key)
        },
    }
}

/// The header map that header lines make, line after line; a later line
/// with the same name replaces the values.
pub open spec fn header_fold(lines: Seq<Seq<char>>, filter: Option<Seq<Seq<char>>>) -> Seq<(Seq<char>, Seq<Seq<Seq<char>>>)>
    decreases lines.len(),
{
    if lines.len() == 0 {
        Seq::empty()
    } else {
        let m = header_fold(lines.drop_last(), filter);
        match header_line(lines.last()) {
            Some((k, v)) => if keeps_header(filter, k) {
                assoc_insert(m, k, header_values_text(v))
            } else {
                m
            },
            None => m,
        }
    }
}

/// A header map with names and values as character sequences.
pub open spec fn headers_view(m: Seq<(String, Vec<Vec<String>>)>) -> Seq<(Seq<char>, Seq<Seq<Seq<char>>>)> {
    m.map_values(|p: (String, Vec<Vec<String>>)| (p.0@, values_view(p.1)))
}

/// A parsed HTTP/1 request head.
pub struct Request {
    /// The method, such as `GET`.
    pub method: String,
    /// The path, without its query.
    pub path: String,
    /// The version, such as `HTTP/1.1`.
    pub http_version: String,
    /// The header names and their values.
    pub headers_map: HttpHeadersMap,
    /// The key-value pairs of the path query.
    pub headers_query: Vec<(String, String)>,
}

fn list_contains(list: &Vec<String>, key: &[char]) -> (r: bool)
    ensures
        r == strings_view(list@).contains(key@),
{
    let ghost v = strings_view(list@);
    let mut i: usize = 0;
    while i < list.len()
        invariant
            i <= list@.len(),
            v == strings_view(list@),
            v.len() == list@.len(),
            forall|j: int| 0 <= j < i ==> v[j] != key@,
        decreases list@.len() - i,
    {
        let cs = chars_of(list[i].as_str());
        if crate::text::chars_eq(cs.as_slice(), key) {
            assert(v[i as int] == key@);
            return true;
        }
        i = i + 1;
    }
    false
}

fn static_list_contains(list: &Vec<&'static str>, key: &[char]) -> (r: bool)
    ensures
        r == list@.map_values(|s: &str| s@).contains(key@),
{
    let ghost v = list@.map_values(|s: &str| s@);
    let mut i: usize = 0;
    while i < list.len()
        invariant
            i <= list@.len(),
            v == list@.map_values(|s: &str| s@),
            v.len() == list@.len(),
            forall|j: int| 0 <= j < i ==> v[j] != key@,
        decreases list@.len() - i,
    {
        let cs = chars_of(list[i]);
        if crate::text::chars_eq(cs.as_slice(), key) {
            assert(v[i as int] == key@);
            return true;
        }
        i = i + 1;
    }
    false
}

fn keeps_header_exec(filter: Option<&Vec<String>>, key: &[char]) -> (r: bool)
    ensures
        r == keeps_header(
            match filter {
                Some(v) => Some(strings_view(v@)),
                None => None,
            },
            key@,
        ),
{
    match filter {
        None => true,
        Some(list) => {
            if list.len() == 0 {
                let common = important_headers_list();
                static_list_contains(&common, key)
            } else {
                list_contains(list, key)
            }
        },
    }
}

/// The header lines of a head: every line after the first.
pub open spec fn header_lines(ls: Seq<Seq<char>>) -> Seq<Seq<char>> {
    if ls.len() == 0 {
        Seq::empty()
    } else {
        ls.drop_first()
    }
}

impl Request {
    /// The values of the header named `key`.
    pub fn get_from_headers(&self, key: &str) -> (r: Option<&Vec<Vec<String>>>)
        ensures
            match r {
                Some(v) => crate::assoc::assoc_get(headers_view(self.headers_map@), key@) == Some(values_view(*v)),
                None => crate::assoc::assoc_get(headers_view(self.headers_map@), key@) is None,
            },
    {
        let ghost m = headers_view(self.headers_map@);
        let mut i: usize = 0;
        assert(m.skip(0) =~= m);
        while i < self.headers_map.len()
            invariant
                i <= self.headers_map@.len(),
                m == headers_view(self.headers_map@),
                m.len() == self.headers_map@.len(),
                crate::assoc::assoc_get(m, key@) == crate::assoc::assoc_get(m.skip(i as int), key@),
            decreases self.headers_map@.len() - i,
        {
            assert(m.skip(i as int)[0] == m[i as int]);
            if crate::text::str_eq(self.headers_map[i].0.as_str(), key) {
                return Some(&self.headers_map[i].1);
            }
            assert(m.skip(i as int).drop_first() =~= m.skip(i + 1));
            i = i + 1;
        }
        None
    }

    /// The bytes of the path query value under `key`.
    pub fn get_from_path_query(&self, key: &str) -> (r: Option<&[u8]>)
        ensures
            match r {
                Some(v) => crate::assoc::assoc_get(string_pairs_view(self.headers_query@), key@) matches Some(t)
                    && v@ == crate::text::utf8(t),
                None => crate::assoc::assoc_get(string_pairs_view(self.headers_query@), key@) is None,
            },
    {
        let ghost m = string_pairs_view(self.headers_query@);
        let mut i: usize = 0;
        assert(m.skip(0) =~= m);
        while i < self.headers_query.len()
            invariant
                i <= self.headers_query@.len(),
                m == string_pairs_view(self.headers_query@),
                m.len() == self.headers_query@.len(),
                crate::assoc::assoc_get(m, key@) == crate::assoc::assoc_get(m.skip(i as int), key@),
            decreases self.headers_query@.len() - i,
        {
            assert(m.skip(i as int)[0] == m[i as int]);
            if crate::text::str_eq(self.headers_query[i].0.as_str(), key) {
                return Some(self.headers_query[i].1.as_str().as_bytes());
            }
            assert(m.skip(i as int).drop_first() =~= m.skip(i + 1));
            i = i + 1;
        }
        None
    }

    /// Reads the key-value pairs of a path query.
    pub fn parse_to_query_map(i: &str) -> (r: Vec<(String, String)>)
        ensures
            string_pairs_view(r@) == query_map(i@),
    {
        parse_to_query_map(i)
    }

    /// Parses a request head: the request line, then one header per line.
    /// With `None` every header is kept; with an empty list the common
    /// ones (`Cookie`, `Accept-Encoding`, `Accept`, `Connection`,
    /// `Content-Length`, `Content-Type`, `Range`, `Host`, `Date`); otherwise
    /// the listed ones. A request line without its two spaces is refused.
    pub fn build_request(string_header: String, important_headers: Option<&Vec<String>>) -> (r: Result<Request, String>)
        requires
            lines_text(string_header@).len() > 0 ==> !request_line_is_malformed(lines_text(string_header@)[0]),
        ensures
            ({
                let ls = lines_text(string_header@);
                let filter = match important_headers {
                    Some(v) => Some(strings_view(v@)),
                    None => None,
                };
                match r {
                    Ok(req) => {
                        &&& ls.len() == 0 ==> req.method@.len() == 0 && req.path@.len() == 0
                            && req.http_version@.len() == 0 && req.headers_query@.len() == 0
                        &&& ls.len() > 0 ==> (request_line(ls[0]) matches Some((m, p, q, v)) && req.method@ == m
                            && req.path@ == p && req.http_version@ == v && string_pairs_view(req.headers_query@)
                            == match q {
                            Some(t) => query_map(t),
                            None => Seq::empty(),
                        })
                        &&& headers_view(req.headers_map@) == header_fold(header_lines(ls), filter)
                    },
                    Err(e) => ls.len() > 0 && request_line(ls[0]) is None && e@ == "Request Error"@,
                }
            }),
    {
        let cs = chars_of(string_header.as_str());
        let lines = lines_chars(cs.as_slice());
        let ghost ls = char_vecs_view(lines@);
        let mut request = Request {
            method: String::new(),
            path: String::new(),
            http_version: String::new(),
            headers_map: Vec::new(),
            headers_query: Vec::new(),
        };
        if lines.len() > 0 {
            match parse_request_line(lines[0].as_slice()) {
                None => return Err("Request Error".to_string()),
                Some((m, p, q, v)) => {
                    request.method = string_from_chars(m.as_slice());
                    request.path = string_from_chars(p.as_slice());
                    request.http_version = string_from_chars(v.as_slice());
                    match q {
                        Some(t) => {
                            let text = string_from_chars(t.as_slice());
                            request.headers_query = parse_to_query_map(text.as_str());
                        },
                        None => {
                            assert(string_pairs_view(request.headers_query@) =~= Seq::<(Seq<char>, Seq<char>)>::empty());
                        },
                    }
                },
            }
        } else {
            assert(string_pairs_view(request.headers_query@) =~= Seq::<(Seq<char>, Seq<char>)>::empty());
        }
        let ghost hl = header_lines(ls);
        let ghost filter = match important_headers {
            Some(v) => Some(strings_view(v@)),
            None => None,
        };
        let sep: [char; 2] = [':', ' '];
        assert(sep@ =~= seq![':', ' ']);
        let ghost method0 = request.method@;
        let ghost path0 = request.path@;
        let ghost version0 = request.http_version@;
        let ghost query0 = request.headers_query@;
        let mut n: usize = 1;
        assert(hl.take(0) =~= Seq::<Seq<char>>::empty());
        assert(headers_view(request.headers_map@) =~= header_fold(hl.take(0), filter));
        while n < lines.len()
            invariant
                1 <= n,
                lines@.len() > 0 ==> n <= lines@.len(),
                lines@.len() == 0 ==> n == 1,
                ls == char_vecs_view(lines@),
                hl == header_lines(ls),
                sep@ == seq![':', ' '],
                filter == match important_headers {
                    Some(v) => Some(strings_view(v@)),
                    None => None,
                },
                headers_view(request.headers_map@) == header_fold(hl.take(n - 1), filter),
                request.method@ == method0,
                request.path@ == path0,
                request.http_version@ == version0,
                request.headers_query@ == query0,
            decreases lines@.len() - n,
        {
            let line = &lines[n];
            assert(hl[n - 1] == line@);
            assert(hl.take(n as int).drop_last() =~= hl.take(n - 1));
            assert(hl.take(n as int).last() == line@);
            let pieces = split_chars(line.as_slice(), sep.as_slice());
            if pieces.len() >= 2 {
                let key = &pieces[0];
                if keeps_header_exec(important_headers, key.as_slice()) {
                    let value = string_from_chars(pieces[1].as_slice());
                    let values = convert_string_value_to_vec_of_strings(value.as_str());
                    let name = string_from_chars(key.as_slice());
                    let ghost before = request.headers_map@;
                    insert_by_key(&mut request.headers_map, name, values);
                    proof {
                        let g = |v: Vec<Vec<String>>| values_view(v);
                        lemma_assoc_insert_map_values(keyed(before), name@, values, g);
                        assert(headers_view(before) =~= keyed(before).map_values(
                            |p: (Seq<char>, Vec<Vec<String>>)| (p.0, g(p.1)),
                        ));
                        assert(headers_view(request.headers_map@) =~= keyed(request.headers_map@).map_values(
                            |p: (Seq<char>, Vec<Vec<String>>)| (p.0, g(p.1)),
                        ));
                    }
                }
            }
            n = n + 1;
        }
        assert(hl.take(n - 1) =~= hl);
        Ok(request)
    }
}

/// The progress of the search for the blank line that ends a request
/// head, after `n` bytes: 0 to 3 bytes of CR LF CR LF matched in a row (a
/// byte that does not go on the match starts it over, without counting
/// itself), or 4 once found.
pub open spec fn head_end_counter(data: Seq<u8>, n: nat) -> int
    decreases n,
{
    if n == 0 {
        0
    } else {
        let c = head_end_counter(data, (n - 1) as nat);
        let b = data[n - 1];
        if c == 4 {
            4
        } else if (c == 0 || c == 2) && b == 13 {
            c + 1
        } else if (c == 1 || c == 3) && b == 10 {
            c + 1
        } else {
            0
        }
    }
}

/// Finds the end of a request head: the index just past the first point
/// where the search reaches CR LF CR LF.
pub fn find_head_end(buf: &[u8]) -> (r: Option<usize>)
    ensures
        match r {
            Some(i) => 4 <= i <= buf@.len() && head_end_counter(buf@, i as nat) == 4 && head_end_counter(
                buf@,
                (i - 1) as nat,
            ) != 4,
            None => head_end_counter(buf@, buf@.len()) != 4,
        },
{
    let mut counter: u8 = 0;
    let mut index: usize = 0;
    while index < buf.len()
        invariant
            index <= buf@.len(),
            counter < 4,
            head_end_counter(buf@, index as nat) == counter,
            counter as int <= index,
        decreases buf@.len() - index,
    {
        let byte = buf[index];
        if (counter == 0 || counter == 2) && byte == 13 {
            counter = counter + 1;
        } else if (counter == 1 || counter == 3) && byte == 10 {
            counter = counter + 1;
            if counter == 4 {
                return Some(index + 1);
            }
        } else {
            counter = 0;
        }
        index = index + 1;
    }
    None
}

/// Whether the header map holds the name `key`.
fn has_header(m: &HttpHeadersMap, key: &str) -> (r: bool)
    ensures
        r == (crate::assoc::assoc_get(headers_view(m@), key@) is Some),
{
    let ghost hv = headers_view(m@);
    let mut i: usize = 0;
    assert(hv.skip(0) =~= hv);
    while i < m.len()
        invariant
            i <= m@.len(),
            hv == headers_view(m@),
            hv.len() == m@.len(),
            crate::assoc::assoc_get(hv, key@) == crate::assoc::assoc_get(hv.skip(i as int), key@),
        decreases m@.len() - i,
    {
        assert(hv.skip(i as int)[0] == hv[i as int]);
        if crate::text::str_eq(m[i].0.as_str(), key) {
            return true;
        }
        assert(hv.skip(i as int).drop_first() =~= hv.skip(i + 1));
        i = i + 1;
    }
    false
}

/// Header names with their raw value bytes, as characters and bytes.
pub open spec fn raw_headers_view(v: Seq<(String, Vec<u8>)>) -> Seq<(Seq<char>, Seq<u8>)> {
    v.map_values(|p: (String, Vec<u8>)| (p.0@, p.1@))
}

/// The header map after caching headers that come as name and value bytes,
/// in order: a name not held yet is added with its value read as UTF-8
/// (invalid sequences replaced) and cut at `;` and `,`; a name already held
/// keeps its values.
pub open spec fn cached_headers(
    m: Seq<(Seq<char>, Seq<Seq<Seq<char>>>)>,
    incoming: Seq<(Seq<char>, Seq<u8>)>,
) -> Seq<(Seq<char>, Seq<Seq<Seq<char>>>)>
    decreases incoming.len(),
{
    if incoming.len() == 0 {
        m
    } else {
        let k = incoming[0].0;
        let next = if crate::assoc::assoc_get(m, k) is Some {
            m
        } else {
            assoc_insert(m, k, header_values_text(crate::text::utf8_lossy_text(incoming[0].1)))
        };
        cached_headers(next, incoming.drop_first())
    }
}

/// Adds to the header map the headers of a request that carries them as
/// name and value bytes (an HTTP/2 request): each name not held yet, with
/// its values; names already held are left as they are.
pub fn cache_headers(cached: &mut HttpHeadersMap, incoming: &Vec<(String, Vec<u8>)>)
    ensures
        headers_view(final(cached)@) == cached_headers(headers_view(old(cached)@), raw_headers_view(incoming@)),
{
    let ghost iv = raw_headers_view(incoming@);
    let ghost target = cached_headers(headers_view(cached@), iv);
    let mut i: usize = 0;
    assert(iv.skip(0) =~= iv);
    while i < incoming.len()
        invariant
            i <= incoming@.len(),
            iv == raw_headers_view(incoming@),
            iv.len() == incoming@.len(),
            cached_headers(headers_view(cached@), iv.skip(i as int)) == target,
        decreases incoming@.len() - i,
    {
        assert(iv.skip(i as int)[0] == iv[i as int]);
        assert(iv.skip(i as int).drop_first() =~= iv.skip(i + 1));
        if !has_header(cached, incoming[i].0.as_str()) {
            let text = crate::text::utf8_lossy(incoming[i].1.as_slice());
            let values = convert_string_value_to_vec_of_strings(text.as_str());
            let name = string_from_chars(chars_of(incoming[i].0.as_str()).as_slice());
            let ghost before = cached@;
            insert_by_key(cached, name, values);
            proof {
                let g = |v: Vec<Vec<String>>| values_view(v);
                lemma_assoc_insert_map_values(keyed(before), name@, values, g);
                assert(headers_view(before) =~= keyed(before).map_values(
                    |p: (Seq<char>, Vec<Vec<String>>)| (p.0, g(p.1)),
                ));
                assert(headers_view(cached@) =~= keyed(cached@).map_values(
                    |p: (Seq<char>, Vec<Vec<String>>)| (p.0, g(p.1)),
                ));
            }
        }
        i = i + 1;
    }
}

/// A path query's map holds each key once: a repeated key keeps the
/// value of its last piece.
pub proof fn law_query_keys_unique(pieces: Seq<Seq<char>>)
    ensures
        crate::assoc::keys_unique(query_pairs(pieces)),
    decreases pieces.len(),
{
    if pieces.len() > 0 {
        law_query_keys_unique(pieces.drop_last());
        let q = pieces.last();
        if let Some(i) = find_text(q, seq!['=']) {
            crate::assoc::law_assoc_insert_keeps_keys_unique(query_pairs(pieces.drop_last()), q.take(i), q.skip(i + 1));
        }
    }
}

/// A request's header map holds each header name once: a repeated header
/// keeps the values of its last line.
pub proof fn law_header_keys_unique(lines: Seq<Seq<char>>, filter: Option<Seq<Seq<char>>>)
    ensures
        crate::assoc::keys_unique(header_fold(lines, filter)),
    decreases lines.len(),
{
    if lines.len() > 0 {
        law_header_keys_unique(lines.drop_last(), filter);
        if let Some((k, v)) = header_line(lines.last()) {
            if keeps_header(filter, k) {
                crate::assoc::law_assoc_insert_keeps_keys_unique(
                    header_fold(lines.drop_last(), filter),
                    k,
                    header_values_text(v),
                );
            }
        }
    }
}

/// Caching headers never changes the values of a name already held, and
/// keeps each name held once.
pub proof fn law_cached_headers_keep_held(
    m: Seq<(Seq<char>, Seq<Seq<Seq<char>>>)>,
    incoming: Seq<(Seq<char>, Seq<u8>)>,
    key: Seq<char>,
)
    ensures
        crate::assoc::assoc_get(m, key) is Some ==> crate::assoc::assoc_get(cached_headers(m, incoming), key)
            == crate::assoc::assoc_get(m, key),
        crate::assoc::keys_unique(m) ==> crate::assoc::keys_unique(cached_headers(m, incoming)),
    decreases incoming.len(),
{
    if incoming.len() > 0 {
        let k = incoming[0].0;
        if crate::assoc::assoc_get(m, k) is None {
            let v = header_values_text(crate::text::utf8_lossy_text(incoming[0].1));
            crate::assoc::law_assoc_read_after_insert(m, k, v, key);
            if crate::assoc::keys_unique(m) {
                crate::assoc::law_assoc_insert_keeps_keys_unique(m, k, v);
            }
            law_cached_headers_keep_held(assoc_insert(m, k, v), incoming.drop_first(), key);
        } else {
            law_cached_headers_keep_held(m, incoming.drop_first(), key);
        }
    }
}

} // verus!
