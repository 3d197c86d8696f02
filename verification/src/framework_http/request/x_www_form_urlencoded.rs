//! A url-encoded form body kept as key-value strings.

use vstd::prelude::*;
use crate::chars::split_text;
use crate::assoc::{assoc_insert, assoc_get, keyed, insert_by_key, lemma_assoc_insert_map_values, keys_unique, law_assoc_insert_keeps_keys_unique};
use crate::framework_http::request::{char_vecs_view, string_pairs_view};
use crate::text::{chars_of, string_from_chars};
use crate::chars::split_chars;

verus! {

broadcast use vstd::string::group_string_axioms;

/// The form's pairs: each `&`-separated piece gives the text before its
/// first `=` as key and the text up to the next `=` as value; a piece
/// without `=` gives nothing; a later piece with the same key replaces
/// the value.
pub open spec fn form_pairs(pieces: Seq<Seq<char>>) -> Seq<(Seq<char>, Seq<char>)>
    decreases pieces.len(),
{
    if pieces.len() == 0 {
        Seq::empty()
    } else {
        let m = form_pairs(pieces.drop_last());
        let parts = split_text(pieces.last(), seq!['=']);
        if parts.len() >= 2 {
            assoc_insert(m, parts[0], parts[1])
        } else {
            m
        }
    }
}

/// The pairs that a form text gives.
pub open spec fn form_text_pairs(s: Seq<char>) -> Seq<(Seq<char>, Seq<char>)> {
    form_pairs(split_text(s, seq!['&']))
}

/// A form body: its keys and values.
pub struct XWWWFormUrlEncoded {
    pub data: Vec<(String, String)>,
}

proof fn lemma_form_pairs_unique(pieces: Seq<Seq<char>>)
    ensures
        keys_unique(form_pairs(pieces)),
    decreases pieces.len(),
{
    if pieces.len() > 0 {
        lemma_form_pairs_unique(pieces.drop_last());
        let parts = split_text(pieces.last(), seq!['=']);
        if parts.len() >= 2 {
            law_assoc_insert_keeps_keys_unique(form_pairs(pieces.drop_last()), parts[0], parts[1]);
        }
    }
}

impl XWWWFormUrlEncoded {
    /// The pairs as character sequences.
    pub open spec fn pairs(&self) -> Seq<(Seq<char>, Seq<char>)> {
        string_pairs_view(self.data@)
    }

    /// Reads a form from text: `key=value` pieces separated by `&`. Refused
    /// when no piece holds a `=`.
    pub fn from_str(needle: &str) -> (r: Result<Self, String>)
        ensures
            match r {
                Ok(f) => f.pairs() == form_text_pairs(needle@) && form_text_pairs(needle@).len() > 0,
                Err(e) => form_text_pairs(needle@).len() == 0 && e@ == "can not create x-www-form-urlencoded"@,
            },
            keys_unique(form_text_pairs(needle@)),
    {
        proof { lemma_form_pairs_unique(split_text(needle@, seq!['&'])); }
        let cs = chars_of(needle);
        let amp: [char; 1] = ['&'];
        let eq: [char; 1] = ['='];
        assert(amp@ =~= seq!['&']);
        assert(eq@ =~= seq!['=']);
        let pieces = split_chars(cs.as_slice(), amp.as_slice());
        let ghost pv = char_vecs_view(pieces@);
        let mut data: Vec<(String, String)> = Vec::new();
        let mut n: usize = 0;
        while n < pieces.len()
            invariant
                n <= pieces@.len(),
                pv == char_vecs_view(pieces@),
                pv == split_text(needle@, seq!['&']),
                eq@ == seq!['='],
                string_pairs_view(data@) == form_pairs(pv.take(n as int)),
            decreases pieces@.len() - n,
        {
            assert(pv.take(n + 1).drop_last() =~= pv.take(n as int));
            assert(pv.take(n + 1).last() == pieces@[n as int]@);
            let parts = split_chars(pieces[n].as_slice(), eq.as_slice());
            assert(char_vecs_view(parts@) == parts@.map_values(|v: Vec<char>| v@));
            if parts.len() >= 2 {
                let key = string_from_chars(parts[0].as_slice());
                let value = string_from_chars(parts[1].as_slice());
                let ghost before = data@;
                insert_by_key(&mut data, key, value);
                proof {
                    let g = |s: String| s@;
                    lemma_assoc_insert_map_values(keyed(before), key@, value, g);
                    assert(string_pairs_view(before) =~= keyed(before).map_values(|p: (Seq<char>, String)| (p.0, g(p.1))));
                    assert(string_pairs_view(data@) =~= keyed(data@).map_values(|p: (Seq<char>, String)| (p.0, g(p.1))));
                }
            }
            n = n + 1;
        }
        assert(pv.take(n as int) =~= pv);
        if data.len() > 0 {
            Ok(XWWWFormUrlEncoded { data })
        } else {
            Err("can not create x-www-form-urlencoded".to_string())
        }
    }

    /// The value under `key`.
    pub fn get(&self, key: &str) -> (r: Option<&String>)
        ensures
            match r {
                Some(v) => assoc_get(self.pairs(), key@) == Some(v@),
                None => assoc_get(self.pairs(), key@) is None,
            },
    {
        let ghost m = self.pairs();
        let mut i: usize = 0;
        assert(m.skip(0) =~= m);
        while i < self.data.len()
            invariant
                i <= self.data@.len(),
                m == self.pairs(),
                m.len() == self.data@.len(),
                assoc_get(m, key@) == assoc_get(m.skip(i as int), key@),
            decreases self.data@.len() - i,
        {
            assert(m.skip(i as int)[0] == m[i as int]);
            if crate::text::str_eq(self.data[i].0.as_str(), key) {
                return Some(&self.data[i].1);
            }
            assert(m.skip(i as int).drop_first() =~= m.skip(i + 1));
            i = i + 1;
        }
        None
    }

    /// Sets `key` to `value`, giving back the value it had.
    pub fn insert(&mut self, key: String, value: String) -> (r: Option<String>)
        ensures
            final(self).pairs() == assoc_insert(old(self).pairs(), key@, value@),
            match r {
                Some(v) => assoc_get(old(self).pairs(), key@) == Some(v@),
                None => assoc_get(old(self).pairs(), key@) is None,
            },
    {
        let previous = match self.get(key.as_str()) {
            Some(v) => Some(v.clone()),
            None => None,
        };
        let ghost before = self.data@;
        let ghost kv = key@;
        let ghost vv = value@;
        insert_by_key(&mut self.data, key, value);
        proof {
            let g = |s: String| s@;
            lemma_assoc_insert_map_values(keyed(before), kv, value, g);
            assert(string_pairs_view(before) =~= keyed(before).map_values(|p: (Seq<char>, String)| (p.0, g(p.1))));
            assert(string_pairs_view(self.data@) =~= keyed(self.data@).map_values(|p: (Seq<char>, String)| (p.0, g(p.1))));
        }
        previous
    }
}

/// Reading a form key after setting it gives the value set; every other
/// key reads as before.
pub proof fn law_form_read_after_insert(form: XWWWFormUrlEncoded, key: Seq<char>, value: Seq<char>, other: Seq<char>)
    ensures
        assoc_get(assoc_insert(form.pairs(), key, value), key) == Some(value),
        other != key ==> assoc_get(assoc_insert(form.pairs(), key, value), other) == assoc_get(form.pairs(), other),
{
    crate::assoc::law_assoc_read_after_insert(form.pairs(), key, value, other);
}

} // verus!
