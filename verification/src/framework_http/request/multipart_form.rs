//! Multipart form fields: their names, file names and content types, and
//! the splitting of a multipart body that arrives in chunks.

use vstd::prelude::*;
use crate::chars::{
    split_text, split_chars, contains_text, contains_chars, starts_with_text, starts_with_chars, replace_text,
    replace_chars,
};
use crate::framework_http::request::{lines_text, lines_chars, char_vecs_view};
use crate::text::{chars_of, string_from_chars, utf8_lossy, utf8_lossy_text, extend_bytes};
use crate::framework_http::util::{occurs_at, fast_finding_pattern_in_bytes};

verus! {

broadcast use vstd::string::group_string_axioms;

/// A multipart field's name, file name and content type.
pub type FieldText = (Seq<char>, Option<Seq<char>>, Option<Seq<char>>);

/// The headers of a multipart form field.
#[derive(Debug, Clone)]
pub struct HttpMultiPartFormDataField {
    file_name: Option<String>,
    name: String,
    content_type: Option<String>,
}

/// An optional string as an optional character sequence.
pub open spec fn opt_view(o: Option<String>) -> Option<Seq<char>> {
    match o {
        Some(s) => Some(s@),
        None => None,
    }
}

/// An optional character vector as an optional character sequence.
pub open spec fn opt_chars(o: Option<Vec<char>>) -> Option<Seq<char>> {
    match o {
        Some(v) => Some(v@),
        None => None,
    }
}

/// A disposition parameter's value: spaces, the `tag` and quotes removed,
/// in that order, everywhere in the part.
pub open spec fn clean_param(part: Seq<char>, tag: Seq<char>) -> Seq<char> {
    replace_text(replace_text(replace_text(part, seq![' '], Seq::empty()), tag, Seq::empty()), seq!['"'], Seq::empty())
}

/// The name and file name after the `;`-separated parts of a
/// `Content-Disposition` line: ` filename=` sets the file name, ` name=`
/// the name.
pub open spec fn disposition_fold(state: FieldText, parts: Seq<Seq<char>>) -> FieldText
    decreases parts.len(),
{
    if parts.len() == 0 {
        state
    } else {
        let s = disposition_fold(state, parts.drop_last());
        let part = parts.last();
        if starts_with_text(part, " filename="@) {
            (s.0, Some(clean_param(part, "filename="@)), s.2)
        } else if starts_with_text(part, " name="@) {
            (clean_param(part, "name="@), s.1, s.2)
        } else {
            s
        }
    }
}

/// Whether the name, a non-empty file name and the content type are all
/// known, after which later lines are not read.
pub open spec fn field_text_complete(s: FieldText) -> bool {
    s.0.len() > 0 && (s.1 matches Some(f) && f.len() > 0) && s.2 is Some
}

/// The field after one header line.
pub open spec fn field_line(s: FieldText, line: Seq<char>) -> FieldText {
    if contains_text(line, "Content-Disposition"@) {
        disposition_fold(s, split_text(line, seq![';']))
    } else if contains_text(line, "Content-Type"@) {
        (s.0, s.1, Some(split_text(line, "Content-Type: "@).last()))
    } else {
        s
    }
}

/// The field after its header lines, read until it is complete.
pub open spec fn field_lines(lines: Seq<Seq<char>>) -> FieldText
    decreases lines.len(),
{
    if lines.len() == 0 {
        (Seq::empty(), None, None)
    } else {
        let s = field_lines(lines.drop_last());
        if field_text_complete(s) {
            s
        } else {
            field_line(s, lines.last())
        }
    }
}

/// The field that header text describes, when it names one.
pub open spec fn field_from_text(t: Seq<char>) -> Option<FieldText> {
    let s = field_lines(lines_text(t));
    if s.0.len() > 0 {
        Some(s)
    } else {
        None
    }
}

fn clean_param_exec(part: &[char], tag: &str) -> (r: Vec<char>)
    requires
        tag@.len() > 0,
    ensures
        r@ == clean_param(part@, tag@),
{
    let space: [char; 1] = [' '];
    let quote: [char; 1] = ['"'];
    let nothing: [char; 0] = [];
    assert(space@ =~= seq![' ']);
    assert(quote@ =~= seq!['"']);
    assert(nothing@ =~= Seq::<char>::empty());
    let t = chars_of(tag);
    let a = replace_chars(part, space.as_slice(), nothing.as_slice());
    let b = replace_chars(a.as_slice(), t.as_slice(), nothing.as_slice());
    replace_chars(b.as_slice(), quote.as_slice(), nothing.as_slice())
}

impl HttpMultiPartFormDataField {
    /// The field as text.
    pub closed spec fn text(&self) -> FieldText {
        (self.name@, opt_view(self.file_name), opt_view(self.content_type))
    }

    /// Reads a field from its header lines: `name` and `filename` from the
    /// `Content-Disposition` line, the type from the `Content-Type` line.
    /// Refused when no name is found.
    pub fn from_string(st: &str) -> (r: Result<Self, String>)
        ensures
            match r {
                Ok(f) => field_from_text(st@) == Some(f.text()),
                Err(e) => field_from_text(st@) is None && e@ == "Fail to Build HttpRFile"@,
            },
    {
        let cs = chars_of(st);
        let lines = lines_chars(cs.as_slice());
        let ghost ls = char_vecs_view(lines@);
        let semi: [char; 1] = [';'];
        assert(semi@ =~= seq![';']);
        let mut name: Vec<char> = Vec::new();
        let mut file_name: Option<Vec<char>> = None;
        let mut content_type: Option<Vec<char>> = None;
        let mut i: usize = 0;
        assert(ls.take(0) =~= Seq::<Seq<char>>::empty());
        loop
            invariant
                i <= lines@.len(),
                ls == char_vecs_view(lines@),
                ls == lines_text(st@),
                semi@ == seq![';'],
                field_lines(ls.take(i as int)) == (name@, opt_chars(file_name), opt_chars(content_type)),
            ensures
                field_lines(ls) == (name@, opt_chars(file_name), opt_chars(content_type)),
            decreases lines@.len() - i,
        {
            if i == lines.len() {
                assert(ls.take(i as int) =~= ls);
                break;
            }
            assert(ls.take(i + 1).drop_last() =~= ls.take(i as int));
            assert(ls.take(i + 1).last() == lines@[i as int]@);
            let file_named = match &file_name {
                Some(f) => f.len() > 0,
                None => false,
            };
            if name.len() > 0 && file_named && content_type.is_some() {
                assert(ls.take(i + 1) =~= ls.take(i as int).push(ls[i as int]));
                proof { lemma_field_lines_stays(ls, i as int); }
                break;
            }
            let line = &lines[i];
            let cd = chars_of("Content-Disposition");
            let ct = chars_of("Content-Type");
            if contains_chars(line.as_slice(), cd.as_slice()) {
                let parts = split_chars(line.as_slice(), semi.as_slice());
                let ghost pv = char_vecs_view(parts@);
                let ghost start = (name@, opt_chars(file_name), opt_chars(content_type));
                let mut k: usize = 0;
                assert(pv.take(0) =~= Seq::<Seq<char>>::empty());
                while k < parts.len()
                    invariant
                        k <= parts@.len(),
                        pv == char_vecs_view(parts@),
                        pv == split_text(line@, seq![';']),
                        disposition_fold(start, pv.take(k as int)) == (name@, opt_chars(file_name), opt_chars(content_type)),
                    decreases parts@.len() - k,
                {
                    assert(pv.take(k + 1).drop_last() =~= pv.take(k as int));
                    assert(pv.take(k + 1).last() == parts@[k as int]@);
                    let part = &parts[k];
                    proof {
                        reveal_strlit("filename=");
                        reveal_strlit("name=");
                    }
                    let fname_tag = chars_of(" filename=");
                    let name_tag = chars_of(" name=");
                    if starts_with_chars(part.as_slice(), fname_tag.as_slice()) {
                        file_name = Some(clean_param_exec(part.as_slice(), "filename="));
                    } else if starts_with_chars(part.as_slice(), name_tag.as_slice()) {
                        name = clean_param_exec(part.as_slice(), "name=");
                    }
                    k = k + 1;
                }
                assert(pv.take(k as int) =~= pv);
            } else if contains_chars(line.as_slice(), ct.as_slice()) {
                proof { reveal_strlit("Content-Type: "); }
                let tag = chars_of("Content-Type: ");
                let pieces = split_chars(line.as_slice(), tag.as_slice());
                assert(char_vecs_view(pieces@) == pieces@.map_values(|v: Vec<char>| v@));
                proof { crate::chars::lemma_split_text_not_empty(line@, "Content-Type: "@); }
                let last = vstd::slice::slice_to_vec(pieces[pieces.len() - 1].as_slice());
                content_type = Some(last);
            }
            i = i + 1;
        }
        if name.len() > 0 {
            let f = HttpMultiPartFormDataField {
                file_name: match file_name {
                    Some(f) => Some(string_from_chars(f.as_slice())),
                    None => None,
                },
                name: string_from_chars(name.as_slice()),
                content_type: match content_type {
                    Some(c) => Some(string_from_chars(c.as_slice())),
                    None => None,
                },
            };
            Ok(f)
        } else {
            Err("Fail to Build HttpRFile".to_string())
        }
    }

    /// The file name, when the field carries a file.
    pub fn get_file_name(&self) -> (r: Option<&String>)
        ensures
            opt_view(match r {
                Some(s) => Some(*s),
                None => None,
            }) == self.text().1,
    {
        self.file_name.as_ref()
    }

    /// The field's name.
    pub fn get_name_key(&self) -> (r: &str)
        ensures
            r@ == self.text().0,
    {
        self.name.as_str()
    }
}

/// Whether a text holds neither a space nor a double quote.
pub open spec fn no_space_or_quote(n: Seq<char>) -> bool {
    forall|j: int| 0 <= j < n.len() ==> #[trigger] n[j] != ' ' && n[j] != '"'
}

/// Replacing keeps a character out that neither the text nor the
/// replacement holds.
proof fn lemma_replace_keeps_out(s: Seq<char>, p: Seq<char>, r: Seq<char>, c: char)
    requires
        forall|j: int| 0 <= j < s.len() ==> #[trigger] s[j] != c,
        forall|j: int| 0 <= j < r.len() ==> #[trigger] r[j] != c,
    ensures
        forall|j: int| 0 <= j < replace_text(s, p, r).len() ==> #[trigger] replace_text(s, p, r)[j] != c,
    decreases s.len(),
{
    match crate::chars::find_text(s, p) {
        Some(i) => if p.len() > 0 && 0 <= i && i + p.len() <= s.len() {
            let rest = s.skip(i + p.len());
            assert forall|j: int| 0 <= j < rest.len() implies #[trigger] rest[j] != c by {
                assert(rest[j] == s[j + i + p.len()]);
            }
            lemma_replace_keeps_out(rest, p, r, c);
            let out = s.take(i) + r + replace_text(rest, p, r);
            assert forall|j: int| 0 <= j < out.len() implies #[trigger] out[j] != c by {
                if j < i {
                    assert(out[j] == s[j]);
                } else if j < i + r.len() {
                    assert(out[j] == r[j - i]);
                } else {
                    assert(out[j] == replace_text(rest, p, r)[j - i - r.len()]);
                }
            }
        },
        None => {},
    }
}

/// Removing every occurrence of a character leaves none of it.
proof fn lemma_replace_removes(s: Seq<char>, c: char)
    ensures
        forall|j: int| 0 <= j < replace_text(s, seq![c], Seq::empty()).len() ==> #[trigger] replace_text(
            s,
            seq![c],
            Seq::empty(),
        )[j] != c,
    decreases s.len(),
{
    let p = seq![c];
    match crate::chars::find_text(s, p) {
        Some(i) => {
            assert(crate::chars::first_at(s, p, i));
            let rest = s.skip(i + 1);
            lemma_replace_removes(rest, c);
            assert forall|j: int| 0 <= j < i implies s[j] != c by {
                assert(!crate::chars::text_at(s, p, j));
                if s[j] == c {
                    assert(s.subrange(j, j + 1) =~= p);
                }
            }
            let out = s.take(i) + Seq::<char>::empty() + replace_text(rest, p, Seq::empty());
            assert forall|j: int| 0 <= j < out.len() implies #[trigger] out[j] != c by {
                if j < i {
                    assert(out[j] == s[j]);
                } else {
                    assert(out[j] == replace_text(rest, p, Seq::empty())[j - i]);
                }
            }
        },
        None => {
            assert forall|j: int| 0 <= j < s.len() implies #[trigger] s[j] != c by {
                if s[j] == c {
                    assert(s.subrange(j, j + 1) =~= p);
                    assert(crate::chars::text_at(s, p, j));
                    crate::chars::lemma_find_text_none(s, p);
                }
            }
        },
    }
}

/// A cleaned disposition parameter holds neither a space nor a quote.
proof fn lemma_clean_param(part: Seq<char>, tag: Seq<char>)
    ensures
        no_space_or_quote(clean_param(part, tag)),
{
    let a = replace_text(part, seq![' '], Seq::empty());
    let b = replace_text(a, tag, Seq::empty());
    lemma_replace_removes(part, ' ');
    lemma_replace_keeps_out(a, tag, Seq::empty(), ' ');
    lemma_replace_keeps_out(b, seq!['"'], Seq::empty(), ' ');
    lemma_replace_removes(b, '"');
}

proof fn lemma_disposition_fold_clean(state: FieldText, parts: Seq<Seq<char>>)
    requires
        no_space_or_quote(state.0),
    ensures
        no_space_or_quote(disposition_fold(state, parts).0),
    decreases parts.len(),
{
    if parts.len() > 0 {
        lemma_disposition_fold_clean(state, parts.drop_last());
        lemma_clean_param(parts.last(), "name="@);
    }
}

proof fn lemma_field_lines_clean(lines: Seq<Seq<char>>)
    ensures
        no_space_or_quote(field_lines(lines).0),
    decreases lines.len(),
{
    if lines.len() > 0 {
        lemma_field_lines_clean(lines.drop_last());
        let s = field_lines(lines.drop_last());
        lemma_disposition_fold_clean(s, split_text(lines.last(), seq![';']));
    }
}

/// A field read from header text has a name that is not empty and holds
/// neither a space nor a double quote.
pub proof fn law_field_name_clean(t: Seq<char>)
    ensures
        field_from_text(t) matches Some(f) ==> f.0.len() > 0 && no_space_or_quote(f.0),
{
    lemma_field_lines_clean(lines_text(t));
}

/// Once complete, a field reads no more lines.
proof fn lemma_field_lines_stays(ls: Seq<Seq<char>>, i: int)
    requires
        0 <= i < ls.len(),
        field_text_complete(field_lines(ls.take(i))),
    ensures
        field_lines(ls) == field_lines(ls.take(i)),
    decreases ls.len() - i,
{
    assert(ls.take(i + 1).drop_last() =~= ls.take(i));
    if i + 1 < ls.len() {
        lemma_field_lines_stays(ls, i + 1);
    } else {
        assert(ls.take(i + 1) =~= ls);
    }
}

/// The first index where `pattern` occurs in `data`.
pub open spec fn first_occurrence(data: Seq<u8>, pattern: Seq<u8>) -> Option<int> {
    if exists|i: int| occurs_at(data, pattern, i) && forall|j: int| 0 <= j < i ==> !occurs_at(data, pattern, j) {
        Some(choose|i: int| occurs_at(data, pattern, i) && forall|j: int| 0 <= j < i ==> !occurs_at(data, pattern, j))
    } else {
        None
    }
}

proof fn lemma_first_occurrence(data: Seq<u8>, pattern: Seq<u8>, i: int)
    requires
        occurs_at(data, pattern, i),
        forall|j: int| 0 <= j < i ==> !occurs_at(data, pattern, j),
    ensures
        first_occurrence(data, pattern) == Some(i),
{
    let c = choose|k: int| occurs_at(data, pattern, k) && forall|j: int| 0 <= j < k ==> !occurs_at(data, pattern, j);
    assert(occurs_at(data, pattern, c) && forall|j: int| 0 <= j < c ==> !occurs_at(data, pattern, j));
    if c < i {
    } else if c > i {
        assert(!occurs_at(data, pattern, i));
    }
}

/// Finds the first occurrence, as `fast_finding_pattern_in_bytes` does.
fn find_first(data: &[u8], pattern: &[u8]) -> (r: Option<usize>)
    requires
        pattern@.len() > 0,
    ensures
        match r {
            Some(i) => first_occurrence(data@, pattern@) == Some(i as int) && i + pattern@.len() <= data@.len(),
            None => first_occurrence(data@, pattern@) is None,
        },
{
    match fast_finding_pattern_in_bytes(data, pattern) {
        Some((i, _)) => {
            proof { lemma_first_occurrence(data@, pattern@, i as int); }
            Some(i)
        },
        None => None,
    }
}

/// Whether the bytes are the closing delimiter: the boundary, `--`, CR LF.
pub open spec fn closes_body(extra: Seq<u8>, boundary: Seq<u8>) -> bool {
    &&& extra.len() >= 4
    &&& extra.skip(extra.len() - 4) == seq![45u8, 45u8, 13u8, 10u8]
    &&& extra.take(extra.len() - 4) == boundary
}

/// What handling the held bytes of a multipart body gives: the data handed
/// on for each field, the field still open, and the bytes still held.
/// Inside a field, the bytes before the next boundary (less the CR LF
/// before it) go to the field, which then closes; with no boundary, bytes
/// that cannot begin one go to the field; between fields, a boundary and
/// the blank line after the field's headers open the next field.
pub open spec fn handle_extra(field: Option<FieldText>, extra: Seq<u8>, boundary: Seq<u8>) -> (Seq<(FieldText, Seq<u8>)>, Option<FieldText>, Seq<u8>)
    decreases extra.len(),
{
    if extra.len() == 0 {
        (Seq::empty(), field, extra)
    } else {
        match field {
            Some(f) => match first_occurrence(extra, boundary) {
                Some(s) => if 2 <= s <= extra.len() {
                    let rest = extra.skip(s);
                    if closes_body(rest, boundary) {
                        (seq![(f, extra.take(s - 2))], Some(f), Seq::empty())
                    } else {
                        let r = handle_extra(None, rest, boundary);
                        (seq![(f, extra.take(s - 2))] + r.0, r.1, r.2)
                    }
                } else {
                    (Seq::empty(), field, extra)
                },
                None => if extra.len() > boundary.len() && boundary.len() >= 2 {
                    match first_occurrence(extra.skip(extra.len() - boundary.len()), boundary.take(2)) {
                        Some(idx) => if 0 < idx < extra.len() {
                            let r = handle_extra(Some(f), extra.skip(idx), boundary);
                            (seq![(f, extra.take(idx))] + r.0, r.1, r.2)
                        } else {
                            (Seq::empty(), field, extra)
                        },
                        None => (Seq::empty(), field, extra),
                    }
                } else {
                    (seq![(f, extra)], field, Seq::empty())
                },
            },
            None => match first_occurrence(extra, boundary) {
                Some(s) => match first_occurrence(extra, seq![13u8, 10u8, 13u8, 10u8]) {
                    Some(h) => {
                        let start = s + boundary.len() + 1;
                        if start <= h + 4 <= extra.len() {
                            let headers = extra.subrange(start, h + 4);
                            let rest = extra.skip(h + 4);
                            match field_from_text(utf8_lossy_text(headers)) {
                                Some(nf) => handle_extra(Some(nf), rest, boundary),
                                None => (Seq::empty(), None, rest),
                            }
                        } else {
                            (Seq::empty(), field, extra)
                        }
                    },
                    None => (Seq::empty(), None, extra),
                },
                None => (Seq::empty(), None, extra),
            },
        }
    }
}

/// Whether handling the held bytes neither cuts a slice backwards nor
/// comes back to the same bytes forever: a boundary inside a field stands
/// at least two bytes in, a possible boundary start found in the tail is
/// not at index 0, and a field's header block ends after its boundary.
pub open spec fn handle_extra_ok(field: Option<FieldText>, extra: Seq<u8>, boundary: Seq<u8>) -> bool
    decreases extra.len(),
{
    if boundary.len() < 2 {
        false
    } else if extra.len() == 0 {
        true
    } else {
        match field {
            Some(f) => match first_occurrence(extra, boundary) {
                Some(s) => if 2 <= s <= extra.len() {
                    closes_body(extra.skip(s), boundary) || handle_extra_ok(None, extra.skip(s), boundary)
                } else {
                    false
                },
                None => if extra.len() > boundary.len() {
                    match first_occurrence(extra.skip(extra.len() - boundary.len()), boundary.take(2)) {
                        Some(idx) => if 0 < idx < extra.len() {
                            handle_extra_ok(Some(f), extra.skip(idx), boundary)
                        } else {
                            false
                        },
                        None => true,
                    }
                } else {
                    true
                },
            },
            None => match first_occurrence(extra, boundary) {
                Some(s) => match first_occurrence(extra, seq![13u8, 10u8, 13u8, 10u8]) {
                    Some(h) => {
                        let start = s + boundary.len() + 1;
                        if start <= h + 4 <= extra.len() {
                            let headers = extra.subrange(start, h + 4);
                            match field_from_text(utf8_lossy_text(headers)) {
                                Some(nf) => handle_extra_ok(Some(nf), extra.skip(h + 4), boundary),
                                None => true,
                            }
                        } else {
                            false
                        }
                    },
                    None => true,
                },
                None => true,
            },
        }
    }
}

/// The fields and data as text.
pub open spec fn deliveries_view(d: Seq<(HttpMultiPartFormDataField, Vec<u8>)>) -> Seq<(FieldText, Seq<u8>)> {
    d.map_values(|p: (HttpMultiPartFormDataField, Vec<u8>)| (p.0.text(), p.1@))
}

/// An optional field as text.
pub open spec fn field_opt_text(f: Option<HttpMultiPartFormDataField>) -> Option<FieldText> {
    match f {
        Some(x) => Some(x.text()),
        None => None,
    }
}

fn copy_opt_string(o: &Option<String>) -> (r: Option<String>)
    ensures
        opt_view(r) == opt_view(*o),
{
    match o {
        Some(s) => Some(s.clone()),
        None => None,
    }
}

impl HttpMultiPartFormDataField {
    /// A copy of the field's headers.
    pub fn duplicate(&self) -> (r: Self)
        ensures
            r.text() == self.text(),
    {
        HttpMultiPartFormDataField {
            file_name: copy_opt_string(&self.file_name),
            name: self.name.clone(),
            content_type: copy_opt_string(&self.content_type),
        }
    }
}

fn sub_vec(data: &[u8], a: usize, b: usize) -> (r: Vec<u8>)
    requires
        a <= b <= data@.len(),
    ensures
        r@ == data@.subrange(a as int, b as int),
{
    vstd::slice::slice_to_vec(vstd::slice::slice_subrange(data, a, b))
}

/// Handles a chunk of a multipart body: the chunk joins the held bytes,
/// and every piece of field data found is handed on, with its field, to
/// `out`, in order. `working_on_field` is the field whose data is being
/// read, if any; `extra_bytes` the bytes not handled yet.
pub fn handle_chunk(
    working_on_field: &mut Option<HttpMultiPartFormDataField>,
    chunk: Option<&[u8]>,
    boundary: &[u8],
    extra_bytes: &mut Vec<u8>,
    out: &mut Vec<(HttpMultiPartFormDataField, Vec<u8>)>,
)
    requires
        handle_extra_ok(
            field_opt_text(*old(working_on_field)),
            old(extra_bytes)@ + match chunk {
                Some(c) => c@,
                None => Seq::empty(),
            },
            boundary@,
        ),
    ensures
        ({
            let held = old(extra_bytes)@ + match chunk {
                Some(c) => c@,
                None => Seq::empty(),
            };
            let h = handle_extra(field_opt_text(*old(working_on_field)), held, boundary@);
            &&& deliveries_view(final(out)@) == deliveries_view(old(out)@) + h.0
            &&& field_opt_text(*final(working_on_field)) == h.1
            &&& final(extra_bytes)@ == h.2
        }),
{
    match chunk {
        Some(c) => extend_bytes(extra_bytes, c),
        None => {
            assert(old(extra_bytes)@ + Seq::<u8>::empty() =~= old(extra_bytes)@);
        },
    }
    let ghost h = handle_extra(field_opt_text(*working_on_field), extra_bytes@, boundary@);
    let ghost out0 = deliveries_view(out@);
    assert(h == handle_extra(
        field_opt_text(*old(working_on_field)),
        old(extra_bytes)@ + match chunk {
            Some(c) => c@,
            None => Seq::empty(),
        },
        boundary@,
    ));
    let closing: [u8; 4] = [45, 45, 13, 10];
    let blank: [u8; 4] = [13, 10, 13, 10];
    assert(closing@ =~= seq![45u8, 45u8, 13u8, 10u8]);
    assert(blank@ =~= seq![13u8, 10u8, 13u8, 10u8]);
    loop
        invariant
            boundary@.len() >= 2,
            closing@ == seq![45u8, 45u8, 13u8, 10u8],
            blank@ == seq![13u8, 10u8, 13u8, 10u8],
            handle_extra_ok(field_opt_text(*working_on_field), extra_bytes@, boundary@),
            deliveries_view(out@) + handle_extra(field_opt_text(*working_on_field), extra_bytes@, boundary@).0 == out0
                + h.0,
            handle_extra(field_opt_text(*working_on_field), extra_bytes@, boundary@).1 == h.1,
            handle_extra(field_opt_text(*working_on_field), extra_bytes@, boundary@).2 == h.2,
            out0 == deliveries_view(old(out)@),
            h == handle_extra(
                field_opt_text(*old(working_on_field)),
                old(extra_bytes)@ + match chunk {
                    Some(c) => c@,
                    None => Seq::empty(),
                },
                boundary@,
            ),
        decreases extra_bytes@.len(),
    {
        let ghost before = deliveries_view(out@);
        let n = extra_bytes.len();
        if n == 0 {
            assert(before + Seq::<(FieldText, Seq<u8>)>::empty() =~= before);
            return ;
        }
        let blen = boundary.len();
        match working_on_field {
            Some(field) => {
                match find_first(extra_bytes.as_slice(), boundary) {
                    Some(s) => {
                        let piece = sub_vec(extra_bytes.as_slice(), 0, s - 2);
                        let rest = sub_vec(extra_bytes.as_slice(), s, n);
                        assert(piece@ =~= extra_bytes@.take(s - 2));
                        assert(rest@ =~= extra_bytes@.skip(s as int));
                        out.push((field.duplicate(), piece));
                        let rlen = rest.len();
                        let closes = rlen >= 4 && crate::text::bytes_eq(
                            vstd::slice::slice_subrange(rest.as_slice(), rlen - 4, rlen),
                            closing.as_slice(),
                        ) && crate::text::bytes_eq(vstd::slice::slice_subrange(rest.as_slice(), 0, rlen - 4), boundary);
                        proof {
                            if rlen >= 4 {
                                assert(rest@.subrange(rlen - 4, rlen as int) =~= rest@.skip(rlen - 4));
                                assert(rest@.subrange(0, rlen - 4) =~= rest@.take(rlen - 4));
                            }
                        }
                        if closes {
                            assert(deliveries_view(out@) =~= before.push((field.text(), extra_bytes@.take(s - 2))));
                            *extra_bytes = Vec::new();
                            assert(deliveries_view(out@) + Seq::<(FieldText, Seq<u8>)>::empty() =~= deliveries_view(out@));
                            return ;
                        }
                        assert(deliveries_view(out@) =~= before.push((field.text(), piece@)));
                        *extra_bytes = rest;
                        *working_on_field = None;
                    },
                    None => {
                        if n > blen {
                            let tail = vstd::slice::slice_subrange(extra_bytes.as_slice(), n - blen, n);
                            let start = vstd::slice::slice_subrange(boundary, 0, 2);
                            assert(tail@ =~= extra_bytes@.skip(n - blen));
                            assert(start@ =~= boundary@.take(2));
                            match find_first(tail, start) {
                                Some(idx) => {
                                    let piece = sub_vec(extra_bytes.as_slice(), 0, idx);
                                    let rest = sub_vec(extra_bytes.as_slice(), idx, n);
                                    assert(piece@ =~= extra_bytes@.take(idx as int));
                                    assert(rest@ =~= extra_bytes@.skip(idx as int));
                                    out.push((field.duplicate(), piece));
                                    assert(deliveries_view(out@) =~= before.push((field.text(), piece@)));
                                    *extra_bytes = rest;
                                },
                                None => {
                                    assert(before + Seq::<(FieldText, Seq<u8>)>::empty() =~= before);
                                    return ;
                                },
                            }
                        } else {
                            let piece = sub_vec(extra_bytes.as_slice(), 0, n);
                            assert(piece@ =~= extra_bytes@);
                            out.push((field.duplicate(), piece));
                            assert(deliveries_view(out@) =~= before.push((field.text(), extra_bytes@)));
                            *extra_bytes = Vec::new();
                            return ;
                        }
                    },
                }
            },
            None => {
                match find_first(extra_bytes.as_slice(), boundary) {
                    Some(s) => {
                        match find_first(extra_bytes.as_slice(), blank.as_slice()) {
                            Some(hpos) => {
                                let start = s + blen + 1;
                                let headers = sub_vec(extra_bytes.as_slice(), start, hpos + 4);
                                let rest = sub_vec(extra_bytes.as_slice(), hpos + 4, n);
                                assert(rest@ =~= extra_bytes@.skip(hpos + 4));
                                let text = utf8_lossy(headers.as_slice());
                                match HttpMultiPartFormDataField::from_string(text.as_str()) {
                                    Ok(f) => {
                                        *extra_bytes = rest;
                                        *working_on_field = Some(f);
                                    },
                                    Err(_) => {
                                        *extra_bytes = rest;
                                        assert(before + Seq::<(FieldText, Seq<u8>)>::empty() =~= before);
                                        return ;
                                    },
                                }
                            },
                            None => {
                                assert(before + Seq::<(FieldText, Seq<u8>)>::empty() =~= before);
                                return ;
                            },
                        }
                    },
                    None => {
                        assert(before + Seq::<(FieldText, Seq<u8>)>::empty() =~= before);
                        return ;
                    },
                }
            },
        }
    }
}

/// Whether handling the held bytes neither cuts a slice backwards nor
/// comes back to the same bytes forever (as `handle_extra_ok` says), found
/// by walking the same steps without handing anything on.
fn held_bytes_ok(field: &Option<HttpMultiPartFormDataField>, held: &[u8], boundary: &[u8]) -> (r: bool)
    ensures
        r == handle_extra_ok(field_opt_text(*field), held@, boundary@),
{
    if boundary.len() < 2 {
        return false;
    }
    let mut extra: Vec<u8> = vstd::slice::slice_to_vec(held);
    let mut in_field: bool = field.is_some();
    let ghost mut gf: Option<FieldText> = field_opt_text(*field);
    let closing: [u8; 4] = [45, 45, 13, 10];
    let blank: [u8; 4] = [13, 10, 13, 10];
    assert(closing@ =~= seq![45u8, 45u8, 13u8, 10u8]);
    assert(blank@ =~= seq![13u8, 10u8, 13u8, 10u8]);
    loop
        invariant
            boundary@.len() >= 2,
            closing@ == seq![45u8, 45u8, 13u8, 10u8],
            blank@ == seq![13u8, 10u8, 13u8, 10u8],
            in_field == (gf is Some),
            handle_extra_ok(gf, extra@, boundary@) == handle_extra_ok(field_opt_text(*field), held@, boundary@),
        decreases extra@.len(),
    {
        let n = extra.len();
        if n == 0 {
            return true;
        }
        let blen = boundary.len();
        if in_field {
            match find_first(extra.as_slice(), boundary) {
                Some(s) => {
                    if s < 2 {
                        return false;
                    }
                    let rest = sub_vec(extra.as_slice(), s, n);
                    assert(rest@ =~= extra@.skip(s as int));
                    let rlen = rest.len();
                    let closes = rlen >= 4 && crate::text::bytes_eq(
                        vstd::slice::slice_subrange(rest.as_slice(), rlen - 4, rlen),
                        closing.as_slice(),
                    ) && crate::text::bytes_eq(vstd::slice::slice_subrange(rest.as_slice(), 0, rlen - 4), boundary);
                    proof {
                        if rlen >= 4 {
                            assert(rest@.subrange(rlen - 4, rlen as int) =~= rest@.skip(rlen - 4));
                            assert(rest@.subrange(0, rlen - 4) =~= rest@.take(rlen - 4));
                        }
                    }
                    if closes {
                        return true;
                    }
                    extra = rest;
                    in_field = false;
                    proof {
                        gf = None;
                    }
                },
                None => {
                    if n > blen {
                        let tail = vstd::slice::slice_subrange(extra.as_slice(), n - blen, n);
                        let start = vstd::slice::slice_subrange(boundary, 0, 2);
                        assert(tail@ =~= extra@.skip(n - blen));
                        assert(start@ =~= boundary@.take(2));
                        match find_first(tail, start) {
                            Some(idx) => {
                                if idx == 0 || idx >= n {
                                    return false;
                                }
                                let rest = sub_vec(extra.as_slice(), idx, n);
                                assert(rest@ =~= extra@.skip(idx as int));
                                extra = rest;
                            },
                            None => {
                                return true;
                            },
                        }
                    } else {
                        return true;
                    }
                },
            }
        } else {
            match find_first(extra.as_slice(), boundary) {
                Some(s) => {
                    match find_first(extra.as_slice(), blank.as_slice()) {
                        Some(hpos) => {
                            if s + blen >= hpos + 4 {
                                return false;
                            }
                            let start = s + blen + 1;
                            let headers = sub_vec(extra.as_slice(), start, hpos + 4);
                            let rest = sub_vec(extra.as_slice(), hpos + 4, n);
                            assert(rest@ =~= extra@.skip(hpos + 4));
                            let text = utf8_lossy(headers.as_slice());
                            match HttpMultiPartFormDataField::from_string(text.as_str()) {
                                Ok(f) => {
                                    extra = rest;
                                    in_field = true;
                                    proof {
                                        gf = Some(f.text());
                                    }
                                },
                                Err(_) => {
                                    return true;
                                },
                            }
                        },
                        None => {
                            return true;
                        },
                    }
                },
                None => {
                    return true;
                },
            }
        }
    }
}

/// Handles a chunk of a multipart body as `handle_chunk` does when that
/// is safe: when handling the held bytes would cut a slice backwards or
/// never end, nothing changes and `false` comes back.
pub fn handle_chunk_checked(
    working_on_field: &mut Option<HttpMultiPartFormDataField>,
    chunk: Option<&[u8]>,
    boundary: &[u8],
    extra_bytes: &mut Vec<u8>,
    out: &mut Vec<(HttpMultiPartFormDataField, Vec<u8>)>,
) -> (r: bool)
    ensures
        ({
            let held = old(extra_bytes)@ + match chunk {
                Some(c) => c@,
                None => Seq::empty(),
            };
            let h = handle_extra(field_opt_text(*old(working_on_field)), held, boundary@);
            &&& r == handle_extra_ok(field_opt_text(*old(working_on_field)), held, boundary@)
            &&& r ==> {
                &&& deliveries_view(final(out)@) == deliveries_view(old(out)@) + h.0
                &&& field_opt_text(*final(working_on_field)) == h.1
                &&& final(extra_bytes)@ == h.2
            }
            &&& !r ==> {
                &&& final(out)@ == old(out)@
                &&& *final(working_on_field) == *old(working_on_field)
                &&& final(extra_bytes)@ == old(extra_bytes)@
            }
        }),
{
    let mut held: Vec<u8> = vstd::slice::slice_to_vec(extra_bytes.as_slice());
    match chunk {
        Some(c) => extend_bytes(&mut held, c),
        None => {
            assert(extra_bytes@ + Seq::<u8>::empty() =~= extra_bytes@);
        },
    }
    if !held_bytes_ok(working_on_field, held.as_slice(), boundary) {
        return false;
    }
    handle_chunk(working_on_field, chunk, boundary, extra_bytes, out);
    true
}

/// Field data gathered from pieces: consecutive pieces of the same field
/// name join; a piece of another name closes the field before it.
pub open spec fn gather_fields(pieces: Seq<(FieldText, Seq<u8>)>) -> (Seq<(FieldText, Seq<u8>)>, Option<FieldText>, Seq<u8>)
    decreases pieces.len(),
{
    if pieces.len() == 0 {
        (Seq::empty(), None, Seq::empty())
    } else {
        let s = gather_fields(pieces.drop_last());
        let (f, chunk) = pieces.last();
        match s.1 {
            Some(rf) => if f.0 != rf.0 {
                (s.0.push((rf, s.2)), Some(f), chunk)
            } else {
                (s.0, Some(rf), s.2 + chunk)
            },
            None => (s.0, Some(f), s.2 + chunk),
        }
    }
}

/// The fields of a multipart body from its pieces: the last field is kept,
/// without its final CR LF, only when its data is longer than two bytes
/// and ends with CR LF.
pub open spec fn collected_fields(pieces: Seq<(FieldText, Seq<u8>)>) -> Seq<(FieldText, Seq<u8>)> {
    let s = gather_fields(pieces);
    let d = s.2;
    match s.1 {
        Some(f) => if d.len() > 2 && d[d.len() - 2] == 13 && d[d.len() - 1] == 10 {
            s.0.push((f, d.take(d.len() - 2)))
        } else {
            s.0
        },
        None => s.0,
    }
}

/// Gathers the pieces handed on for each field into one entry per field.
pub fn collect_fields(pieces: &Vec<(HttpMultiPartFormDataField, Vec<u8>)>) -> (r: Vec<(HttpMultiPartFormDataField, Vec<u8>)>)
    ensures
        deliveries_view(r@) == collected_fields(deliveries_view(pieces@)),
{
    let ghost pv = deliveries_view(pieces@);
    let mut body_files: Vec<(HttpMultiPartFormDataField, Vec<u8>)> = Vec::new();
    let mut r_field: Option<HttpMultiPartFormDataField> = None;
    let mut data: Vec<u8> = Vec::new();
    let mut i: usize = 0;
    assert(pv.take(0) =~= Seq::<(FieldText, Seq<u8>)>::empty());
    while i < pieces.len()
        invariant
            i <= pieces@.len(),
            pv == deliveries_view(pieces@),
            gather_fields(pv.take(i as int)) == (deliveries_view(body_files@), field_opt_text(r_field), data@),
        decreases pieces@.len() - i,
    {
        assert(pv.take(i + 1).drop_last() =~= pv.take(i as int));
        assert(pv.take(i + 1).last() == pv[i as int]);
        let field = &pieces[i].0;
        let chunk = &pieces[i].1;
        let ghost before = deliveries_view(body_files@);
        match &r_field {
            Some(rf) => {
                if !crate::text::str_eq(field.get_name_key(), rf.get_name_key()) {
                    let closed = rf.duplicate();
                    body_files.push((closed, data));
                    assert(deliveries_view(body_files@) =~= before.push((rf.text(), data@)));
                    r_field = Some(field.duplicate());
                    data = vstd::slice::slice_to_vec(chunk.as_slice());
                } else {
                    extend_bytes(&mut data, chunk.as_slice());
                }
            },
            None => {
                r_field = Some(field.duplicate());
                extend_bytes(&mut data, chunk.as_slice());
            },
        }
        i = i + 1;
    }
    assert(pv.take(i as int) =~= pv);
    let n = data.len();
    if n > 2 && data[n - 2] == 13 && data[n - 1] == 10 {
        match r_field {
            Some(field) => {
                let ghost before = deliveries_view(body_files@);
                let kept = sub_vec(data.as_slice(), 0, n - 2);
                assert(kept@ =~= data@.take(n - 2));
                let ghost t = field.text();
                body_files.push((field, kept));
                assert(deliveries_view(body_files@) =~= before.push((t, kept@)));
            },
            None => {},
        }
    }
    body_files
}

/// Where a multipart field's file is to be saved, and under which field
/// name.
#[derive(Debug)]
pub struct SaveMetadataForMultipart<'a> {
    /// The name of the field that carries the file.
    pub field_name: &'a str,
    /// A directory, where the file keeps its own name, or a file path.
    pub saving_path: &'a str,
}

impl<'a> SaveMetadataForMultipart<'a> {
    /// A rule saving the field `name` at `saving_path`.
    pub fn new(name: &'a str, saving_path: &'a str) -> (r: Self)
        ensures
            r.field_name == name,
            r.saving_path == saving_path,
    {
        SaveMetadataForMultipart { field_name: name, saving_path }
    }
}

/// The path a file is saved at: the saving path itself when its last
/// `/`-separated part has a dot, else the saving path, `/` and the file's
/// own name (when it has one).
pub open spec fn saving_file_path(saving_path: Seq<char>, file_name: Option<Seq<char>>) -> Seq<char> {
    let last = split_text(saving_path, seq!['/']).last();
    if contains_text(last, seq!['.']) {
        saving_path
    } else {
        saving_path + seq!['/'] + match file_name {
            Some(n) => n,
            None => Seq::empty(),
        }
    }
}

/// The path at which a rule saves a field's file.
pub fn file_path_for(rule: &SaveMetadataForMultipart, field: &HttpMultiPartFormDataField) -> (r: String)
    ensures
        r@ == saving_file_path(rule.saving_path@, field.text().1),
{
    let path = chars_of(rule.saving_path);
    let slash: [char; 1] = ['/'];
    let dot: [char; 1] = ['.'];
    assert(slash@ =~= seq!['/']);
    assert(dot@ =~= seq!['.']);
    let parts = split_chars(path.as_slice(), slash.as_slice());
    assert(char_vecs_view(parts@) == parts@.map_values(|v: Vec<char>| v@));
    proof { crate::chars::lemma_split_text_not_empty(rule.saving_path@, seq!['/']); }
    let last = &parts[parts.len() - 1];
    let mut out = path.clone();
    assert(out@ == path@);
    if !contains_chars(last.as_slice(), dot.as_slice()) {
        out.push('/');
        match field.get_file_name() {
            Some(name) => {
                let cs = chars_of(name.as_str());
                crate::chars::extend_chars(&mut out, cs.as_slice());
            },
            None => {},
        }
        assert(out@ =~= saving_file_path(rule.saving_path@, field.text().1));
    }
    string_from_chars(out.as_slice())
}

/// The first rule for the field's name.
pub fn find_saving_rule(rules: &[SaveMetadataForMultipart], field: &HttpMultiPartFormDataField) -> (r: Option<usize>)
    ensures
        match r {
            Some(i) => i < rules@.len() && rules@[i as int].field_name@ == field.text().0 && forall|j: int|
                0 <= j < i ==> rules@[j].field_name@ != field.text().0,
            None => forall|j: int| 0 <= j < rules@.len() ==> rules@[j].field_name@ != field.text().0,
        },
{
    let mut i: usize = 0;
    while i < rules.len()
        invariant
            i <= rules@.len(),
            forall|j: int| 0 <= j < i ==> rules@[j].field_name@ != field.text().0,
        decreases rules@.len() - i,
    {
        if crate::text::str_eq(rules[i].field_name, field.get_name_key()) {
            return Some(i);
        }
        i = i + 1;
    }
    None
}

/// What taking the headers and data of one field from a chunk gives: the
/// header bytes and data bytes gathered, and the rest of the chunk.
pub open spec fn bytes_to(chunk: Seq<u8>, boundary: Seq<u8>, headers: Seq<u8>, data: Seq<u8>) -> (Seq<u8>, Seq<u8>, Option<Seq<u8>>) {
    let (h, c) = if headers.len() == 0 {
        match first_occurrence(chunk, boundary) {
            Some(b) => {
                let start = chunk.skip(b + boundary.len() + 2);
                match first_occurrence(start, seq![13u8, 10u8, 13u8, 10u8]) {
                    Some(e) => (headers + start.take(e), start.skip(e + 4)),
                    None => (headers, chunk),
                }
            },
            None => (headers, chunk),
        }
    } else {
        (headers, chunk)
    };
    if h.len() == 0 {
        (h, data, Some(c))
    } else if c.len() > 0 {
        match first_occurrence(c, boundary) {
            Some(e) => {
                let cut = if e > 2 { e - 2 } else { e };
                let rest = c.skip(e);
                (h, data + c.take(cut), if rest.len() == 0 { None } else { Some(rest) })
            },
            None => (h, data, Some(c)),
        }
    } else {
        (h, data, None)
    }
}

/// Whether taking a field from a chunk slices within it: the boundary is
/// not empty and, when it is searched for headers, it leaves room for its
/// line end.
pub open spec fn bytes_to_defined(chunk: Seq<u8>, boundary: Seq<u8>, headers: Seq<u8>) -> bool {
    boundary.len() > 0 && (headers.len() == 0 ==> match first_occurrence(chunk, boundary) {
        Some(b) => b + boundary.len() + 2 <= chunk.len(),
        None => true,
    })
}

/// Whether `multipart_bytes_to` can take from this chunk.
pub fn multipart_bytes_to_is_defined(chunk: &[u8], boundary: &[u8], old_headers: &Vec<u8>) -> (r: bool)
    ensures
        r == bytes_to_defined(chunk@, boundary@, old_headers@),
{
    if boundary.len() == 0 {
        return false;
    }
    if old_headers.len() != 0 {
        return true;
    }
    match find_first(chunk, boundary) {
        Some(b) => chunk.len() - (b + boundary.len()) >= 2,
        None => true,
    }
}

/// Takes the headers of a field (after its boundary, up to the blank line)
/// and then its data (up to the next boundary, less the CR LF before it)
/// from a chunk, gathering them into `old_headers` and `old_data`; gives
/// back what is left of the chunk, or `None` when nothing is.
pub fn multipart_bytes_to<'a>(chunk: &'a [u8], boundary: &[u8], old_headers: &mut Vec<u8>, old_data: &mut Vec<u8>) -> (r: Option<&'a [u8]>)
    requires
        bytes_to_defined(chunk@, boundary@, old(old_headers)@),
    ensures
        ({
            let t = bytes_to(chunk@, boundary@, old(old_headers)@, old(old_data)@);
            &&& final(old_headers)@ == t.0
            &&& final(old_data)@ == t.1
            &&& match r {
                Some(c) => t.2 == Some(c@),
                None => t.2 is None,
            }
        }),
{
    let blank: [u8; 4] = [13, 10, 13, 10];
    assert(blank@ =~= seq![13u8, 10u8, 13u8, 10u8]);
    let clen = chunk.len();
    let mut chunk = chunk;
    let ghost c0 = chunk@;
    if old_headers.len() == 0 {
        match find_first(chunk, boundary) {
            Some(b) => {
                let start = vstd::slice::slice_subrange(chunk, b + boundary.len() + 2, clen);
                assert(start@ =~= c0.skip(b + boundary@.len() + 2));
                match find_first(start, blank.as_slice()) {
                    Some(e) => {
                        let head = vstd::slice::slice_subrange(start, 0, e);
                        assert(head@ =~= start@.take(e as int));
                        extend_bytes(old_headers, head);
                        chunk = vstd::slice::slice_subrange(start, e + 4, start.len());
                        assert(chunk@ =~= start@.skip(e + 4));
                    },
                    None => {},
                }
            },
            None => {},
        }
    }
    if old_headers.len() == 0 {
        return Some(chunk);
    }
    if chunk.len() > 0 {
        match find_first(chunk, boundary) {
            Some(e) => {
                let cut = if e > 2 { e - 2 } else { e };
                let kept = vstd::slice::slice_subrange(chunk, 0, cut);
                assert(kept@ =~= chunk@.take(cut as int));
                extend_bytes(old_data, kept);
                let rest = vstd::slice::slice_subrange(chunk, e, chunk.len());
                assert(rest@ =~= chunk@.skip(e as int));
                if rest.len() == 0 {
                    return None;
                }
                return Some(rest);
            },
            None => {
                return Some(chunk);
            },
        }
    }
    None
}

/// One field on the wire: the boundary, CR LF, its header lines, the blank
/// line, its data, CR LF.
pub open spec fn form_part(boundary: Seq<u8>, header: Seq<u8>, data: Seq<u8>) -> Seq<u8> {
    boundary + seq![13u8, 10u8] + header + seq![13u8, 10u8, 13u8, 10u8] + data + seq![13u8, 10u8]
}

/// A multipart body: each field on the wire, then the boundary and `--`
/// CR LF.
pub open spec fn multipart_body(boundary: Seq<u8>, parts: Seq<(Seq<u8>, Seq<u8>)>) -> Seq<u8>
    decreases parts.len(),
{
    if parts.len() == 0 {
        boundary + seq![45u8, 45u8, 13u8, 10u8]
    } else {
        form_part(boundary, parts[0].0, parts[0].1) + multipart_body(boundary, parts.drop_first())
    }
}

/// A field whose framing carries it unchanged: its header lines name the
/// field, hold no blank line, and its data holds no boundary (also not one
/// that runs into the CR LF and boundary after it).
pub open spec fn well_framed_part(boundary: Seq<u8>, header: Seq<u8>, data: Seq<u8>, field: FieldText) -> bool {
    &&& field_from_text(utf8_lossy_text(seq![10u8] + header + seq![13u8, 10u8, 13u8, 10u8])) == Some(field)
    &&& first_occurrence(boundary + seq![13u8, 10u8] + header + seq![13u8, 10u8, 13u8, 10u8], seq![13u8, 10u8, 13u8, 10u8])
        == Some(boundary.len() + 2 + header.len() as int)
    &&& first_occurrence(data + seq![13u8, 10u8] + boundary, boundary) == Some(data.len() + 2 as int)
}

/// The fields with their data.
pub open spec fn fields_with_data(fields: Seq<FieldText>, parts: Seq<(Seq<u8>, Seq<u8>)>) -> Seq<(FieldText, Seq<u8>)>
    decreases parts.len(),
{
    if parts.len() == 0 || fields.len() == 0 {
        Seq::empty()
    } else {
        seq![(fields[0], parts[0].1)] + fields_with_data(fields.drop_first(), parts.drop_first())
    }
}

proof fn lemma_occurs_prefix(p: Seq<u8>, r: Seq<u8>, pattern: Seq<u8>, j: int)
    requires
        0 <= j,
        j + pattern.len() <= p.len(),
    ensures
        occurs_at(p + r, pattern, j) == occurs_at(p, pattern, j),
{
    assert((p + r).subrange(j, j + pattern.len()) =~= p.subrange(j, j + pattern.len()));
}

proof fn lemma_first_occurrence_prefix(p: Seq<u8>, r: Seq<u8>, pattern: Seq<u8>, k: int)
    requires
        first_occurrence(p, pattern) == Some(k),
    ensures
        first_occurrence(p + r, pattern) == Some(k),
{
    assert(occurs_at(p, pattern, k) && forall|j: int| 0 <= j < k ==> !occurs_at(p, pattern, j));
    lemma_occurs_prefix(p, r, pattern, k);
    assert forall|j: int| 0 <= j < k implies !occurs_at(p + r, pattern, j) by {
        lemma_occurs_prefix(p, r, pattern, j);
    }
    lemma_first_occurrence(p + r, pattern, k);
}

proof fn lemma_occurs_first_at_start(pattern: Seq<u8>, r: Seq<u8>)
    ensures
        first_occurrence(pattern + r, pattern) == Some(0int),
{
    assert((pattern + r).subrange(0, pattern.len() as int) =~= pattern);
    lemma_first_occurrence(pattern + r, pattern, 0);
}

proof fn lemma_concat_parts(a: Seq<u8>, b: Seq<u8>, c: Seq<u8>, d: Seq<u8>, e: Seq<u8>)
    ensures
        (a + b + c + d + e).subrange(0, a.len() as int) == a,
        (a + b + c + d + e).skip((a.len() + b.len() + c.len() + d.len()) as int) == e,
        (a + b + c + d + e).len() == a.len() + b.len() + c.len() + d.len() + e.len(),
{
    let x = a + b + c + d + e;
    assert(x.subrange(0, a.len() as int) =~= a);
    assert(x.skip((a.len() + b.len() + c.len() + d.len()) as int) =~= e);
}

/// The slices of a field's framing: the header block from the line feed
/// after the boundary through the blank line, and what follows it.
proof fn lemma_framing_slices(boundary: Seq<u8>, header: Seq<u8>, tail: Seq<u8>)
    ensures
        ({
            let extra = boundary + seq![13u8, 10u8] + header + seq![13u8, 10u8, 13u8, 10u8] + tail;
            let h = boundary.len() + 2 + header.len() as int;
            &&& extra.subrange(boundary.len() + 1 as int, h + 4) == seq![10u8] + header + seq![13u8, 10u8, 13u8, 10u8]
            &&& extra.skip(h + 4) == tail
            &&& extra.len() == h + 4 + tail.len()
            &&& extra.subrange(0, boundary.len() as int) == boundary
        }),
{
    let blank = seq![13u8, 10u8, 13u8, 10u8];
    let inner = seq![10u8] + header + blank;
    let head = boundary + seq![13u8] + inner;
    assert(boundary + seq![13u8, 10u8] + header + blank =~= head);
    let extra = head + tail;
    assert(extra.subrange(boundary.len() + 1 as int, head.len() as int) =~= inner);
    assert(extra.skip(head.len() as int) =~= tail);
    assert(extra.subrange(0, boundary.len() as int) =~= boundary);
}

/// Where the boundary and the blank line stand in a field's framing.
proof fn lemma_header_framing(boundary: Seq<u8>, header: Seq<u8>, tail: Seq<u8>)
    requires
        first_occurrence(boundary + seq![13u8, 10u8] + header + seq![13u8, 10u8, 13u8, 10u8], seq![13u8, 10u8, 13u8, 10u8])
            == Some(boundary.len() + 2 + header.len() as int),
    ensures
        ({
            let extra = boundary + seq![13u8, 10u8] + header + seq![13u8, 10u8, 13u8, 10u8] + tail;
            let h = boundary.len() + 2 + header.len() as int;
            &&& first_occurrence(extra, boundary) == Some(0int)
            &&& first_occurrence(extra, seq![13u8, 10u8, 13u8, 10u8]) == Some(h)
            &&& extra.subrange(boundary.len() + 1 as int, h + 4) == seq![10u8] + header + seq![13u8, 10u8, 13u8, 10u8]
            &&& extra.skip(h + 4) == tail
            &&& extra.len() == h + 4 + tail.len()
        }),
{
    let blank = seq![13u8, 10u8, 13u8, 10u8];
    let head = boundary + seq![13u8, 10u8] + header + blank;
    let extra = head + tail;
    let h = boundary.len() + 2 + header.len() as int;
    lemma_framing_slices(boundary, header, tail);
    lemma_first_occurrence(extra, boundary, 0);
    lemma_first_occurrence_prefix(head, tail, blank, h);
}

/// A field's header step: the boundary at the start and the first blank
/// line after the headers open the field, and the bytes after the blank
/// line are held.
#[verifier::rlimit(50)]
#[verifier::spinoff_prover]
proof fn lemma_header_step(boundary: Seq<u8>, header: Seq<u8>, tail: Seq<u8>, field: FieldText)
    requires
        boundary.len() >= 2,
        field_from_text(utf8_lossy_text(seq![10u8] + header + seq![13u8, 10u8, 13u8, 10u8])) == Some(field),
        first_occurrence(boundary + seq![13u8, 10u8] + header + seq![13u8, 10u8, 13u8, 10u8], seq![13u8, 10u8, 13u8, 10u8])
            == Some(boundary.len() + 2 + header.len() as int),
    ensures
        ({
            let extra = boundary + seq![13u8, 10u8] + header + seq![13u8, 10u8, 13u8, 10u8] + tail;
            &&& handle_extra(None, extra, boundary) == handle_extra(Some(field), tail, boundary)
            &&& handle_extra_ok(None, extra, boundary) == handle_extra_ok(Some(field), tail, boundary)
        }),
{
    lemma_header_framing(boundary, header, tail);
}

/// A field's data step: the data before the CR LF and boundary goes to the
/// field; the field closes, or the body ends when the boundary is the
/// closing one.
#[verifier::rlimit(50)]
#[verifier::spinoff_prover]
proof fn lemma_data_step(boundary: Seq<u8>, data: Seq<u8>, after: Seq<u8>, field: FieldText)
    requires
        boundary.len() >= 2,
        first_occurrence(data + seq![13u8, 10u8] + boundary, boundary) == Some(data.len() + 2 as int),
    ensures
        ({
            let rest = boundary + after;
            let tail = data + seq![13u8, 10u8] + rest;
            &&& handle_extra(Some(field), tail, boundary) == (if closes_body(rest, boundary) {
                (seq![(field, data)], Some(field), Seq::<u8>::empty())
            } else {
                let r = handle_extra(None, rest, boundary);
                (seq![(field, data)] + r.0, r.1, r.2)
            })
            &&& handle_extra_ok(Some(field), tail, boundary) == (closes_body(rest, boundary) || handle_extra_ok(
                None,
                rest,
                boundary,
            ))
        }),
{
    let rest = boundary + after;
    let body = data + seq![13u8, 10u8] + boundary;
    let tail = data + seq![13u8, 10u8] + rest;
    assert(tail =~= body + after);
    lemma_first_occurrence_prefix(body, after, boundary, data.len() + 2 as int);
    assert(first_occurrence(tail, boundary) == Some(data.len() + 2 as int));
    assert(tail.take(data.len() as int) =~= data);
    assert(tail.skip(data.len() + 2 as int) =~= rest);
    assert(tail.len() > 0);
}

/// A multipart body starts with the boundary, and it is the closing
/// delimiter alone exactly when it has no field.
proof fn lemma_body_shape(boundary: Seq<u8>, parts: Seq<(Seq<u8>, Seq<u8>)>)
    ensures
        multipart_body(boundary, parts).len() >= boundary.len(),
        multipart_body(boundary, parts).subrange(0, boundary.len() as int) == boundary,
        closes_body(multipart_body(boundary, parts), boundary) <==> parts.len() == 0,
    decreases parts.len(),
{
    let body = multipart_body(boundary, parts);
    if parts.len() == 0 {
        assert(body.skip(body.len() - 4) =~= seq![45u8, 45u8, 13u8, 10u8]);
        assert(body.take(body.len() - 4) =~= boundary);
        assert(body.subrange(0, boundary.len() as int) =~= boundary);
    } else {
        lemma_body_shape(boundary, parts.drop_first());
        let first = form_part(boundary, parts[0].0, parts[0].1);
        assert(body == first + multipart_body(boundary, parts.drop_first()));
        assert(body.len() > boundary.len() + 4);
        assert(body.subrange(0, boundary.len() as int) =~= boundary);
    }
}

/// One well-framed field followed by bytes that start with the boundary:
/// the field is opened, its data handed on, and handling goes on with the
/// bytes after it unless they close the body.
#[verifier::rlimit(50)]
#[verifier::spinoff_prover]
proof fn lemma_part_step(boundary: Seq<u8>, header: Seq<u8>, data: Seq<u8>, rest: Seq<u8>, field: FieldText)
    requires
        boundary.len() >= 2,
        well_framed_part(boundary, header, data, field),
        rest.len() >= boundary.len(),
        rest.subrange(0, boundary.len() as int) == boundary,
    ensures
        handle_extra(None, form_part(boundary, header, data) + rest, boundary) == (if closes_body(rest, boundary) {
            (seq![(field, data)], Some(field), Seq::<u8>::empty())
        } else {
            let r = handle_extra(None, rest, boundary);
            (seq![(field, data)] + r.0, r.1, r.2)
        }),
        handle_extra_ok(None, form_part(boundary, header, data) + rest, boundary) == (closes_body(rest, boundary)
            || handle_extra_ok(None, rest, boundary)),
{
    let after = rest.skip(boundary.len() as int);
    assert(boundary + after =~= rest);
    let tail = data + seq![13u8, 10u8] + rest;
    assert(form_part(boundary, header, data) + rest =~= boundary + seq![13u8, 10u8] + header + seq![
        13u8,
        10u8,
        13u8,
        10u8,
    ] + tail);
    lemma_header_step(boundary, header, tail, field);
    lemma_data_step(boundary, data, after, field);
}

/// A multipart body of well-framed fields, handled whole, hands on each
/// field with exactly its data, in order, keeps the last field open and
/// holds no byte back; and handling it neither cuts a slice backwards nor
/// loops.
pub proof fn law_multipart_round_trip(boundary: Seq<u8>, parts: Seq<(Seq<u8>, Seq<u8>)>, fields: Seq<FieldText>)
    requires
        boundary.len() >= 2,
        parts.len() >= 1,
        fields.len() == parts.len(),
        forall|i: int| 0 <= i < parts.len() ==> well_framed_part(boundary, parts[i].0, parts[i].1, #[trigger] fields[i]),
    ensures
        handle_extra(None, multipart_body(boundary, parts), boundary) == (
            fields_with_data(fields, parts),
            Some(fields.last()),
            Seq::<u8>::empty(),
        ),
        handle_extra_ok(None, multipart_body(boundary, parts), boundary),
    decreases parts.len(),
{
    let later = parts.drop_first();
    let later_fields = fields.drop_first();
    let rest = multipart_body(boundary, later);
    assert(well_framed_part(boundary, parts[0].0, parts[0].1, fields[0]));
    lemma_body_shape(boundary, later);
    assert(multipart_body(boundary, parts) == form_part(boundary, parts[0].0, parts[0].1) + rest);
    lemma_part_step(boundary, parts[0].0, parts[0].1, rest, fields[0]);
    assert(fields_with_data(fields, parts) == seq![(fields[0], parts[0].1)] + fields_with_data(later_fields, later));
    if parts.len() == 1 {
        assert(fields_with_data(later_fields, later) =~= Seq::<(FieldText, Seq<u8>)>::empty());
        assert(seq![(fields[0], parts[0].1)] + Seq::<(FieldText, Seq<u8>)>::empty() =~= seq![(fields[0], parts[0].1)]);
    } else {
        assert forall|i: int| 0 <= i < later.len() implies well_framed_part(
            boundary,
            later[i].0,
            later[i].1,
            #[trigger] later_fields[i],
        ) by {
            assert(later[i] == parts[i + 1]);
            assert(later_fields[i] == fields[i + 1]);
        }
        law_multipart_round_trip(boundary, later, later_fields);
        assert(later_fields.last() == fields.last());
    }
}

} // verus!
