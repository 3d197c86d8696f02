//! Owned bodies: multipart fields gathered by name, url-encoded forms held
//! as owned pairs, and lookups by name over either.

use vstd::prelude::*;
use crate::assoc::{assoc_get, assoc_insert};
use crate::http::request::header::{first_value_where, owned_pairs_view, insert_owned, tuple_views, KeyValueMap, key_value_map_of};
use crate::http::request::body::multipartformdata::{MultiPartFormDataField, disposition_params};
use crate::http::request::header::{header_lookup, unquote};
use crate::http::request::body::chunked::hex_digit_value;
use crate::http::request::body::xwwwformurlencoded::XWWWFormUrlEncoded;
use crate::text::{utf8, utf8_lossy, utf8_lossy_text, string_from_chars, trim_quotes, trim_quotes_chars, chars_eq, extend_bytes};

verus! {

broadcast use vstd::string::group_string_axioms;

/// The bytes that percent-decoding gives: `%` followed by two hexadecimal
/// digits becomes the byte they write; every other byte stays as it is
/// (`+` too).
pub open spec fn percent_decoded(b: Seq<u8>) -> Seq<u8>
    decreases b.len(),
{
    if b.len() == 0 {
        Seq::empty()
    } else if b[0] == 37 && b.len() >= 3 && hex_digit_value(b[1]) >= 0 && hex_digit_value(b[2]) >= 0 {
        seq![(hex_digit_value(b[1]) * 16 + hex_digit_value(b[2])) as u8] + percent_decoded(b.skip(3))
    } else {
        seq![b[0]] + percent_decoded(b.skip(1))
    }
}

/// The text percent-decoding makes of `t`: its UTF-8 bytes decoded, read
/// back as UTF-8; the text itself when the decoded bytes are not UTF-8.
pub open spec fn url_decoded_or_same(t: Seq<char>) -> Seq<char> {
    let d = percent_decoded(utf8(t));
    if vstd::utf8::valid_utf8(d) {
        vstd::utf8::decode_utf8(d)
    } else {
        t
    }
}

/// `urlencoding::decode`: percent-decodes the string's bytes and reads
/// them as UTF-8; `None` when they are not UTF-8.
#[verifier::external_body]
fn url_decode(s: &str) -> (r: Option<String>)
    ensures
        match r {
            Some(t) => vstd::utf8::valid_utf8(percent_decoded(utf8(s@))) && t@ == vstd::utf8::decode_utf8(
                percent_decoded(utf8(s@)),
            ),
            None => !vstd::utf8::valid_utf8(percent_decoded(utf8(s@))),
        },
{
    match urlencoding::decode(s) {
        Ok(text) => Some(text.into_owned()),
        Err(_) => None,
    }
}

/// Lookups by name over a parsed body.
pub trait DynamicBodyMapTrait {
    /// The value under `key`, as this body finds it.
    spec fn value_of(&self, key: Seq<char>) -> Option<Seq<u8>>;

    /// Every name with its value, as `all` gives them.
    spec fn all_view(&self) -> Seq<(Seq<char>, Seq<u8>)>;

    /// The value under `key`.
    fn get_as_bytes(&self, key: &str) -> (r: Option<&[u8]>)
        ensures
            match r {
                Some(v) => self.value_of(key@) == Some(v@),
                None => self.value_of(key@) is None,
            },
    ;

    /// The value under `key`, decoded as UTF-8 with invalid sequences
    /// replaced.
    fn get(&self, key: &str) -> (r: Option<String>)
        ensures
            match r {
                Some(s) => self.value_of(key@) matches Some(v) && s@ == utf8_lossy_text(v),
                None => self.value_of(key@) is None,
            },
    ;

    /// Every name with its value.
    fn all(&self) -> (r: Vec<(String, Vec<u8>)>)
        ensures
            owned_pairs_view(r@) == self.all_view(),
    ;

    /// The value under `key` as text, then percent-decoded; the text as it
    /// is when the decoded bytes are not UTF-8.
    fn get_as_encoded_string(&self, key: &str) -> (r: Option<String>)
        ensures
            match self.value_of(key@) {
                Some(v) => r matches Some(s) && s@ == url_decoded_or_same(utf8_lossy_text(v)),
                None => r is None,
            },
    {
        match self.get(key) {
            Some(s) => match url_decode(s.as_str()) {
                Some(d) => Some(d),
                None => Some(s),
            },
            None => None,
        }
    }
}

/// Pairs of bytes added to a map in order, each key decoded as UTF-8 with
/// invalid sequences replaced; a later key replaces an earlier one.
pub open spec fn lossy_pairs_into(m: Seq<(Seq<char>, Seq<u8>)>, ps: Seq<(Seq<u8>, Seq<u8>)>) -> Seq<(Seq<char>, Seq<u8>)>
    decreases ps.len(),
{
    if ps.len() == 0 {
        m
    } else {
        assoc_insert(lossy_pairs_into(m, ps.drop_last()), utf8_lossy_text(ps.last().0), ps.last().1)
    }
}

impl<'a> DynamicBodyMapTrait for XWWWFormUrlEncoded<'a> {
    open spec fn value_of(&self, key: Seq<char>) -> Option<Seq<u8>> {
        first_value_where(self.entries(), |k: Seq<u8>| k == utf8(key))
    }

    open spec fn all_view(&self) -> Seq<(Seq<char>, Seq<u8>)> {
        lossy_pairs_into(Seq::empty(), self.entries())
    }

    fn get_as_bytes(&self, key: &str) -> (r: Option<&[u8]>) {
        self.get_as_bytes_ref(key)
    }

    fn get(&self, key: &str) -> (r: Option<String>) {
        self.get_as_str(key)
    }

    fn all(&self) -> (r: Vec<(String, Vec<u8>)>) {
        let pairs = self.all_ref();
        let ghost es = self.entries();
        let mut map: Vec<(String, Vec<u8>)> = Vec::new();
        let mut i: usize = 0;
        assert(es.take(0) =~= Seq::<(Seq<u8>, Seq<u8>)>::empty());
        while i < pairs.len()
            invariant
                i <= pairs@.len(),
                tuple_views(pairs@) == es,
                owned_pairs_view(map@) == lossy_pairs_into(Seq::empty(), es.take(i as int)),
            decreases pairs@.len() - i,
        {
            let (k, v) = pairs[i];
            assert(es.take(i + 1).drop_last() =~= es.take(i as int));
            assert(es.take(i + 1).last() == (k@, v@));
            insert_owned(&mut map, utf8_lossy(k), vstd::slice::slice_to_vec(v));
            i = i + 1;
        }
        assert(es.take(pairs@.len() as int) =~= es);
        map
    }
}

/// An url-encoded form held as owned pairs.
#[derive(Debug, Clone)]
pub struct HeapXWWWFormUrlEncoded {
    data: Vec<(String, Vec<u8>)>,
}

impl View for HeapXWWWFormUrlEncoded {
    type V = Seq<(Seq<char>, Seq<u8>)>;

    closed spec fn view(&self) -> Seq<(Seq<char>, Seq<u8>)> {
        owned_pairs_view(self.data@)
    }
}

impl HeapXWWWFormUrlEncoded {
    /// The pairs of a borrowed form, owned.
    pub fn new(data: &XWWWFormUrlEncoded) -> (r: Self)
        ensures
            r@ == data.all_view(),
    {
        HeapXWWWFormUrlEncoded { data: data.all() }
    }

    /// Every name with its value.
    pub fn all_ref(&self) -> (r: &Vec<(String, Vec<u8>)>)
        ensures
            owned_pairs_view(r@) == self@,
    {
        &self.data
    }
}

/// Looks the value under exactly the name `key` up in owned pairs.
fn owned_lookup<'b>(m: &'b Vec<(String, Vec<u8>)>, key: &str) -> (r: Option<&'b Vec<u8>>)
    ensures
        match r {
            Some(v) => assoc_get(owned_pairs_view(m@), key@) == Some(v@),
            None => assoc_get(owned_pairs_view(m@), key@) is None,
        },
{
    let ghost mv = owned_pairs_view(m@);
    let mut i: usize = 0;
    assert(mv.skip(0) =~= mv);
    while i < m.len()
        invariant
            i <= m@.len(),
            mv == owned_pairs_view(m@),
            mv.len() == m@.len(),
            assoc_get(mv, key@) == assoc_get(mv.skip(i as int), key@),
        decreases m@.len() - i,
    {
        assert(mv.skip(i as int)[0] == mv[i as int]);
        if crate::text::str_eq(m[i].0.as_str(), key) {
            return Some(&m[i].1);
        }
        assert(mv.skip(i as int).drop_first() =~= mv.skip(i + 1));
        i = i + 1;
    }
    None
}

/// A copy of owned pairs.
fn copy_pairs(m: &Vec<(String, Vec<u8>)>) -> (r: Vec<(String, Vec<u8>)>)
    ensures
        owned_pairs_view(r@) == owned_pairs_view(m@),
{
    let mut r: Vec<(String, Vec<u8>)> = Vec::new();
    let mut i: usize = 0;
    while i < m.len()
        invariant
            i <= m@.len(),
            owned_pairs_view(r@) == owned_pairs_view(m@).take(i as int),
        decreases m@.len() - i,
    {
        let k = string_from_chars(crate::text::chars_of(m[i].0.as_str()).as_slice());
        let v = vstd::slice::slice_to_vec(m[i].1.as_slice());
        let ghost before = r@;
        r.push((k, v));
        assert(owned_pairs_view(r@) =~= owned_pairs_view(before).push((m@[i as int].0@, m@[i as int].1@)));
        i = i + 1;
        assert(owned_pairs_view(m@).take(i as int) =~= owned_pairs_view(m@).take(i - 1).push(owned_pairs_view(m@)[i - 1]));
    }
    assert(owned_pairs_view(m@).take(m@.len() as int) =~= owned_pairs_view(m@));
    r
}

impl DynamicBodyMapTrait for HeapXWWWFormUrlEncoded {
    open spec fn value_of(&self, key: Seq<char>) -> Option<Seq<u8>> {
        assoc_get(self@, key)
    }

    open spec fn all_view(&self) -> Seq<(Seq<char>, Seq<u8>)> {
        self@
    }

    fn get_as_bytes(&self, key: &str) -> (r: Option<&[u8]>) {
        match owned_lookup(&self.data, key) {
            Some(v) => Some(v.as_slice()),
            None => None,
        }
    }

    fn get(&self, key: &str) -> (r: Option<String>) {
        match owned_lookup(&self.data, key) {
            Some(v) => Some(utf8_lossy(v.as_slice())),
            None => None,
        }
    }

    fn all(&self) -> (r: Vec<(String, Vec<u8>)>) {
        copy_pairs(&self.data)
    }
}

/// A multipart field's headers with its data, owned.
#[derive(Debug, Clone)]
pub struct HeapFormField {
    pub multipart: KeyValueMap,
    pub data: Vec<u8>,
}

/// The name of an owned field: its `name` parameter, decoded, without the
/// double quotes at either end.
pub open spec fn heap_field_name(f: HeapFormField) -> Option<Seq<char>> {
    match assoc_get(f.multipart@, "name"@) {
        Some(v) => Some(trim_quotes(utf8_lossy_text(v))),
        None => None,
    }
}

/// The index of the first field named `name`.
pub open spec fn named_index(fields: Seq<HeapFormField>, name: Seq<char>) -> Option<int>
    decreases fields.len(),
{
    if fields.len() == 0 {
        None
    } else if heap_field_name(fields[0]) == Some(name) {
        Some(0)
    } else {
        match named_index(fields.drop_first(), name) {
            Some(i) => Some(i + 1),
            None => None,
        }
    }
}

proof fn lemma_named_index_step(fields: Seq<HeapFormField>, name: Seq<char>, i: int)
    requires
        0 <= i < fields.len(),
        heap_field_name(fields[i]) != Some(name),
    ensures
        named_index(fields.skip(i), name) == match named_index(fields.skip(i + 1), name) {
            Some(j) => Some(j + 1),
            None => None::<int>,
        },
{
    assert(fields.skip(i).drop_first() =~= fields.skip(i + 1));
}

proof fn lemma_named_index_shift(fields: Seq<HeapFormField>, name: Seq<char>, i: int)
    requires
        0 <= i <= fields.len(),
        forall|j: int| 0 <= j < i ==> heap_field_name(#[trigger] fields[j]) != Some(name),
    ensures
        named_index(fields, name) == match named_index(fields.skip(i), name) {
            Some(j) => Some(j + i),
            None => None::<int>,
        },
    decreases i,
{
    if i == 0 {
        assert(fields.skip(0) =~= fields);
        match named_index(fields, name) {
            Some(j) => {},
            None => {},
        }
    } else {
        lemma_named_index_shift(fields, name, i - 1);
        lemma_named_index_step(fields, name, i - 1);
    }
}

proof fn lemma_named_index_found(fields: Seq<HeapFormField>, name: Seq<char>, i: int)
    requires
        0 <= i < fields.len(),
        heap_field_name(fields[i]) == Some(name),
    ensures
        named_index(fields.skip(i), name) == Some(0int),
{
    assert(fields.skip(i)[0] == fields[i]);
}

proof fn lemma_named_index_push(fields: Seq<HeapFormField>, x: HeapFormField, name: Seq<char>)
    requires
        named_index(fields, name) is None,
        heap_field_name(x) == Some(name),
    ensures
        named_index(fields.push(x), name) == Some(fields.len() as int),
    decreases fields.len(),
{
    if fields.len() > 0 {
        assert(fields.push(x).drop_first() =~= fields.drop_first().push(x));
        lemma_named_index_push(fields.drop_first(), x, name);
    }
}

proof fn lemma_named_index_bound(fields: Seq<HeapFormField>, name: Seq<char>)
    ensures
        named_index(fields, name) matches Some(i) ==> 0 <= i < fields.len() && heap_field_name(fields[i]) == Some(name),
    decreases fields.len(),
{
    if fields.len() > 0 {
        lemma_named_index_bound(fields.drop_first(), name);
    }
}

proof fn lemma_named_index_same_names(fs: Seq<HeapFormField>, gs: Seq<HeapFormField>, name: Seq<char>)
    requires
        fs.len() == gs.len(),
        forall|j: int| 0 <= j < fs.len() ==> heap_field_name(#[trigger] fs[j]) == heap_field_name(gs[j]),
    ensures
        named_index(fs, name) == named_index(gs, name),
    decreases fs.len(),
{
    if fs.len() > 0 {
        assert(heap_field_name(fs[0]) == heap_field_name(gs[0]));
        assert forall|j: int| 0 <= j < fs.drop_first().len() implies heap_field_name(
            #[trigger] fs.drop_first()[j],
        ) == heap_field_name(gs.drop_first()[j]) by {
            assert(fs.drop_first()[j] == fs[j + 1]);
            assert(heap_field_name(fs[j + 1]) == heap_field_name(gs[j + 1]));
        }
        lemma_named_index_same_names(fs.drop_first(), gs.drop_first(), name);
    }
}

impl HeapFormField {
    /// The field's header parameters with a copy of its data.
    pub(crate) fn from(value: &MultiPartFormDataField, data: &[u8]) -> (r: Self)
        ensures
            r.multipart@ == key_value_map_of(value.headers.slots()),
            r.data@ == data@,
    {
        HeapFormField { multipart: KeyValueMap::from(&value.headers), data: vstd::slice::slice_to_vec(data) }
    }

    /// The field's data.
    pub fn data(&self) -> (r: &[u8])
        ensures
            r@ == self.data@,
    {
        self.data.as_slice()
    }

    /// A copy of the field's data.
    pub fn bytes(&self) -> (r: Vec<u8>)
        ensures
            r@ == self.data@,
    {
        vstd::slice::slice_to_vec(self.data.as_slice())
    }

    /// Whether the field is a file: it has a `filename` parameter.
    pub fn is_file(&self) -> (r: bool)
        ensures
            r == (assoc_get(self.multipart@, "filename"@) is Some),
    {
        self.multipart.get_as_bytes("filename").is_some()
    }

    /// The field's `Content-Type`.
    pub fn content_type(&self) -> (r: Option<&[u8]>)
        ensures
            match r {
                Some(v) => assoc_get(self.multipart@, "Content-Type"@) == Some(v@),
                None => assoc_get(self.multipart@, "Content-Type"@) is None,
            },
    {
        match self.multipart.get_as_bytes("Content-Type") {
            Some(v) => Some(v.as_slice()),
            None => None,
        }
    }

    /// The field's name.
    fn name(&self) -> (r: Option<Vec<char>>)
        ensures
            match r {
                Some(n) => heap_field_name(*self) == Some(n@),
                None => heap_field_name(*self) is None,
            },
    {
        match self.multipart.get_as_str("name") {
            Some(n) => Some(trim_quotes_chars(n.as_str())),
            None => None,
        }
    }
}

/// The fields of a multipart form, each with its data, in the order first
/// seen.
#[derive(Debug, Clone)]
pub struct FormDataAll {
    pub fields: Vec<HeapFormField>,
}

/// The named fields added to a map in order, each data under its name; a
/// later field replaces an earlier one of the same name.
pub open spec fn named_fields_into(m: Seq<(Seq<char>, Seq<u8>)>, fields: Seq<HeapFormField>) -> Seq<(Seq<char>, Seq<u8>)>
    decreases fields.len(),
{
    if fields.len() == 0 {
        m
    } else {
        let before = named_fields_into(m, fields.drop_last());
        match heap_field_name(fields.last()) {
            Some(n) => assoc_insert(before, n, fields.last().data@),
            None => before,
        }
    }
}

/// The field name a multipart field's data goes under: its
/// `Content-Disposition` `name`, decoded without surrounding quotes.
pub open spec fn disposition_name(slots: Seq<(Seq<u8>, Seq<u8>)>) -> Option<Seq<char>> {
    match disposition_params(slots) {
        Some(ps) => match header_lookup(ps, "name"@) {
            Some(v) => Some(utf8_lossy_text(unquote(v))),
            None => None,
        },
        None => None,
    }
}

impl FormDataAll {
    /// No fields.
    pub fn new() -> (r: Self)
        ensures
            r.fields@.len() == 0,
    {
        FormDataAll { fields: Vec::new() }
    }

    /// The index of the first field named `key` (quotes at its ends
    /// dropped).
    fn field_index(&self, key: &str) -> (r: Option<usize>)
        ensures
            match r {
                Some(i) => named_index(self.fields@, trim_quotes(key@)) == Some(i as int),
                None => named_index(self.fields@, trim_quotes(key@)) is None,
            },
    {
        let target = trim_quotes_chars(key);
        let ghost fs = self.fields@;
        let ghost name = trim_quotes(key@);
        let mut i: usize = 0;
        while i < self.fields.len()
            invariant
                i <= fs.len(),
                fs == self.fields@,
                name == trim_quotes(key@),
                target@ == name,
                forall|j: int| 0 <= j < i ==> heap_field_name(#[trigger] fs[j]) != Some(name),
            decreases fs.len() - i,
        {
            let hit = match self.fields[i].name() {
                Some(n) => chars_eq(n.as_slice(), target.as_slice()),
                None => false,
            };
            assert(hit == (heap_field_name(fs[i as int]) == Some(name)));
            if hit {
                proof {
                    lemma_named_index_shift(fs, name, i as int);
                    lemma_named_index_found(fs, name, i as int);
                    assert(named_index(fs.skip(i as int), name) == Some(0int));
                    assert(named_index(fs, name) == Some(i as int));
                }
                return Some(i);
            }
            i = i + 1;
        }
        proof {
            lemma_named_index_shift(fs, name, i as int);
            assert(fs.skip(i as int).len() == 0);
        }
        None
    }

    /// The first field named `key` (quotes at its ends dropped).
    pub fn get_field(&self, key: &str) -> (r: Option<&HeapFormField>)
        ensures
            match named_index(self.fields@, trim_quotes(key@)) {
                Some(i) => r matches Some(f) && *f == self.fields@[i],
                None => r is None,
            },
    {
        proof { lemma_named_index_bound(self.fields@, trim_quotes(key@)); }
        match self.field_index(key) {
            Some(i) => Some(&self.fields[i]),
            None => None,
        }
    }

    /// The first field named `key` (quotes at its ends dropped), to change.
    pub fn get_mut(&mut self, key: &str) -> (r: Option<&mut HeapFormField>)
        ensures
            match named_index(old(self).fields@, trim_quotes(key@)) {
                Some(i) => r matches Some(f) && *f == old(self).fields@[i] && final(self).fields@ == old(
                    self,
                ).fields@.update(i, *final(f)),
                None => r is None && final(self).fields@ == old(self).fields@,
            },
    {
        proof { lemma_named_index_bound(self.fields@, trim_quotes(key@)); }
        match self.field_index(key) {
            Some(i) => Some(&mut self.fields[i]),
            None => None,
        }
    }

    /// Adds a chunk of a multipart field's data: to the first field with the
    /// same name when there is one, else as a new field holding the field's
    /// header parameters.
    pub fn push(&mut self, field: &MultiPartFormDataField, data: &[u8])
        ensures
            ({
                let target = match disposition_name(field.headers.slots()) {
                    Some(n) => named_index(old(self).fields@, trim_quotes(n)),
                    None => None,
                };
                match target {
                    Some(i) => {
                        &&& final(self).fields@.len() == old(self).fields@.len()
                        &&& final(self).fields@[i].multipart == old(self).fields@[i].multipart
                        &&& final(self).fields@[i].data@ == old(self).fields@[i].data@ + data@
                        &&& final(self).value_of(disposition_name(field.headers.slots())->0) == Some(
                            old(self).fields@[i].data@ + data@,
                        )
                        &&& forall|j: int| 0 <= j < old(self).fields@.len() && j != i ==> final(self).fields@[j] == old(
                            self,
                        ).fields@[j]
                    },
                    None => {
                        &&& final(self).fields@.len() == old(self).fields@.len() + 1
                        &&& final(self).fields@.drop_last() == old(self).fields@
                        &&& final(self).fields@.last().multipart@ == key_value_map_of(field.headers.slots())
                        &&& final(self).fields@.last().data@ == data@
                    },
                }
            }),
            match disposition_name(field.headers.slots()) {
                Some(n) => (named_index(old(self).fields@, trim_quotes(n)) is Some || heap_field_name(
                    final(self).fields@.last(),
                ) == Some(trim_quotes(n))) ==> final(self).value_of(n) == Some(
                    match old(self).value_of(n) {
                        Some(v) => v + data@,
                        None => data@,
                    },
                ),
                None => true,
            },
    {
        match field.content_disposition_name() {
            Some(n) => {
                proof { lemma_named_index_bound(self.fields@, trim_quotes(n@)); }
                match self.get_mut(n.as_str()) {
                    Some(target) => {
                        let ghost t0 = *target;
                        let ghost before = old(self).fields@;
                        extend_bytes(&mut target.data, data);
                        assert(target.multipart == t0.multipart);
                        assert(target.data@ == t0.data@ + data@);
                        proof {
                            let i = named_index(before, trim_quotes(n@))->0;
                            let after = before.update(i, *target);
                            assert forall|j: int| 0 <= j < before.len() implies heap_field_name(#[trigger] before[j])
                                == heap_field_name(after[j]) by {
                                if j == i {
                                    assert(after[j].multipart == before[j].multipart);
                                }
                            }
                            lemma_named_index_same_names(before, after, trim_quotes(n@));
                        }
                        return;
                    },
                    None => {},
                }
            },
            None => {},
        }
        let ghost before = self.fields@;
        self.fields.push(HeapFormField::from(field, data));
        assert(self.fields@.drop_last() =~= before);
        proof {
            if let Some(n) = disposition_name(field.headers.slots()) {
                if named_index(before, trim_quotes(n)) is None && heap_field_name(self.fields@.last()) == Some(trim_quotes(n)) {
                    lemma_named_index_push(before, self.fields@.last(), trim_quotes(n));
                    assert(self.fields@ =~= before.push(self.fields@.last()));
                }
            }
        }
    }
}

impl Default for FormDataAll {
    /// No fields.
    fn default() -> (r: Self)
        ensures
            r.fields@.len() == 0,
    {
        FormDataAll::new()
    }
}

impl DynamicBodyMapTrait for FormDataAll {
    open spec fn value_of(&self, key: Seq<char>) -> Option<Seq<u8>> {
        match named_index(self.fields@, trim_quotes(key)) {
            Some(i) => Some(self.fields@[i].data@),
            None => None,
        }
    }

    open spec fn all_view(&self) -> Seq<(Seq<char>, Seq<u8>)> {
        named_fields_into(Seq::empty(), self.fields@)
    }

    fn get_as_bytes(&self, key: &str) -> (r: Option<&[u8]>) {
        match self.get_field(key) {
            Some(f) => Some(f.data()),
            None => None,
        }
    }

    fn get(&self, key: &str) -> (r: Option<String>) {
        match self.get_field(key) {
            Some(f) => Some(utf8_lossy(f.data())),
            None => None,
        }
    }

    fn all(&self) -> (r: Vec<(String, Vec<u8>)>) {
        let ghost fs = self.fields@;
        let mut map: Vec<(String, Vec<u8>)> = Vec::new();
        let mut i: usize = 0;
        assert(fs.take(0) =~= Seq::<HeapFormField>::empty());
        while i < self.fields.len()
            invariant
                i <= fs.len(),
                fs == self.fields@,
                owned_pairs_view(map@) == named_fields_into(Seq::empty(), fs.take(i as int)),
            decreases fs.len() - i,
        {
            let f = &self.fields[i];
            assert(fs.take(i + 1).drop_last() =~= fs.take(i as int));
            assert(fs.take(i + 1).last() == fs[i as int]);
            match f.name() {
                Some(n) => {
                    insert_owned(&mut map, string_from_chars(n.as_slice()), vstd::slice::slice_to_vec(f.data()));
                },
                None => {},
            }
            i = i + 1;
        }
        assert(fs.take(fs.len() as int) =~= fs);
        map
    }
}

/// A parsed body that lookups by name work on.
#[derive(Debug, Clone)]
pub enum DynamicBodyMap {
    FormField(FormDataAll),
    Xww(HeapXWWWFormUrlEncoded),
}

impl DynamicBodyMapTrait for DynamicBodyMap {
    open spec fn value_of(&self, key: Seq<char>) -> Option<Seq<u8>> {
        match self {
            DynamicBodyMap::FormField(data) => data.value_of(key),
            DynamicBodyMap::Xww(data) => data.value_of(key),
        }
    }

    open spec fn all_view(&self) -> Seq<(Seq<char>, Seq<u8>)> {
        match self {
            DynamicBodyMap::FormField(data) => data.all_view(),
            DynamicBodyMap::Xww(data) => data.all_view(),
        }
    }

    fn get_as_bytes(&self, key: &str) -> (r: Option<&[u8]>) {
        match self {
            DynamicBodyMap::FormField(data) => data.get_as_bytes(key),
            DynamicBodyMap::Xww(data) => data.get_as_bytes(key),
        }
    }

    fn get(&self, key: &str) -> (r: Option<String>) {
        match self {
            DynamicBodyMap::FormField(data) => data.get(key),
            DynamicBodyMap::Xww(data) => data.get(key),
        }
    }

    fn all(&self) -> (r: Vec<(String, Vec<u8>)>) {
        match self {
            DynamicBodyMap::FormField(data) => data.all(),
            DynamicBodyMap::Xww(data) => data.all(),
        }
    }
}

} // verus!
