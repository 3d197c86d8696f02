//! Url-encoded form bodies, borrowed from the request bytes.

use vstd::prelude::*;
use crate::http::request::header::{tuple_views, first_value_where};
use crate::assoc::assoc_insert;
use crate::text::{bytes_eq, utf8_lossy, utf8_lossy_text};

verus! {

broadcast use vstd::string::group_string_axioms;

/// The state of a form scan: the pairs found, where the current piece
/// starts, and the pending key.
pub struct FormScan {
    pub map: Seq<(Seq<u8>, Seq<u8>)>,
    pub cursor: int,
    pub key: Option<Seq<u8>>,
}

/// The form scan after the first `n` bytes: with no pending key, `=` ends a
/// key; with one, `&` or CR ends its value.
pub open spec fn form_scan(bytes: Seq<u8>, n: nat) -> FormScan
    decreases n,
{
    if n == 0 {
        FormScan { map: Seq::empty(), cursor: 0, key: None }
    } else {
        let st = form_scan(bytes, (n - 1) as nat);
        let i = n - 1;
        let b = bytes[i];
        match st.key {
            None => if b == 61 {
                FormScan { map: st.map, cursor: i + 1, key: Some(bytes.subrange(st.cursor, i)) }
            } else {
                st
            },
            Some(k) => if b == 38 || b == 13 {
                FormScan { map: assoc_insert(st.map, k, bytes.subrange(st.cursor, i)), cursor: i + 1, key: None }
            } else {
                st
            },
        }
    }
}

/// The pairs of an url-encoded form: the whole scan, then the pending key
/// (if any) gets the rest of the bytes. A later value replaces an earlier
/// one of the same key.
pub open spec fn form_entries(bytes: Seq<u8>) -> Seq<(Seq<u8>, Seq<u8>)> {
    let st = form_scan(bytes, bytes.len());
    match st.key {
        Some(k) => assoc_insert(st.map, k, bytes.subrange(st.cursor, bytes.len() as int)),
        None => st.map,
    }
}

/// The bytes of `key=value` pieces joined by `&`.
pub open spec fn form_body(pieces: Seq<(Seq<u8>, Seq<u8>)>) -> Seq<u8>
    decreases pieces.len(),
{
    if pieces.len() == 0 {
        Seq::empty()
    } else if pieces.len() == 1 {
        pieces[0].0 + seq![61u8] + pieces[0].1
    } else {
        form_body(pieces.drop_last()) + seq![38u8] + pieces.last().0 + seq![61u8] + pieces.last().1
    }
}

/// Whether a piece can be written as `key=value`: its key holds no `=`,
/// its value neither `&` nor CR.
pub open spec fn piece_fits(p: (Seq<u8>, Seq<u8>)) -> bool {
    &&& forall|i: int| 0 <= i < p.0.len() ==> #[trigger] p.0[i] != 61
    &&& forall|i: int| 0 <= i < p.1.len() ==> #[trigger] p.1[i] != 38 && p.1[i] != 13
}

/// The pieces put in a map one after another, a later value of a key
/// replacing an earlier one.
pub open spec fn pieces_inserted(pieces: Seq<(Seq<u8>, Seq<u8>)>) -> Seq<(Seq<u8>, Seq<u8>)>
    decreases pieces.len(),
{
    if pieces.len() == 0 {
        Seq::empty()
    } else {
        assoc_insert(pieces_inserted(pieces.drop_last()), pieces.last().0, pieces.last().1)
    }
}

/// The scan of the first `n` bytes depends on those bytes only.
proof fn lemma_form_scan_prefix(x: Seq<u8>, y: Seq<u8>, n: nat)
    requires
        n <= x.len(),
        n <= y.len(),
        forall|i: int| 0 <= i < n ==> x[i] == y[i],
    ensures
        form_scan(x, n) == form_scan(y, n),
    decreases n,
{
    if n > 0 {
        lemma_form_scan_prefix(x, y, (n - 1) as nat);
        let st = form_scan(x, (n - 1) as nat);
        lemma_form_scan_cursor(x, (n - 1) as nat);
        assert(x.subrange(st.cursor, n - 1) =~= y.subrange(st.cursor, n - 1));
    }
}

/// The cursor of a scan never passes the bytes scanned.
proof fn lemma_form_scan_cursor(x: Seq<u8>, n: nat)
    requires
        n <= x.len(),
    ensures
        0 <= form_scan(x, n).cursor <= n,
    decreases n,
{
    if n > 0 {
        lemma_form_scan_cursor(x, (n - 1) as nat);
    }
}

/// Bytes that do not end the current key or value leave the scan as it
/// was.
proof fn lemma_form_scan_unchanged(x: Seq<u8>, s: nat, e: nat)
    requires
        s <= e <= x.len(),
        form_scan(x, s).key is None ==> forall|i: int| s <= i < e ==> #[trigger] x[i] != 61,
        form_scan(x, s).key is Some ==> forall|i: int| s <= i < e ==> #[trigger] x[i] != 38 && x[i] != 13,
    ensures
        form_scan(x, e) == form_scan(x, s),
    decreases e - s,
{
    if e > s {
        lemma_form_scan_unchanged(x, s, (e - 1) as nat);
    }
}

/// Scanning one piece `key=value` that starts where the last one ended
/// leaves its key pending, with its value starting after the `=`.
proof fn lemma_form_scan_piece(x: Seq<u8>, s: nat, p: (Seq<u8>, Seq<u8>))
    requires
        piece_fits(p),
        s + p.0.len() + 1 + p.1.len() <= x.len(),
        x.subrange(s as int, s as int + p.0.len() + 1 + p.1.len()) == p.0 + seq![61u8] + p.1,
        form_scan(x, s).key is None,
        form_scan(x, s).cursor == s,
    ensures
        form_scan(x, s + p.0.len() + 1 + p.1.len()) == (FormScan {
            map: form_scan(x, s).map,
            cursor: s as int + p.0.len() + 1,
            key: Some(p.0),
        }),
{
    let k = p.0.len();
    let piece = p.0 + seq![61u8] + p.1;
    assert forall|i: int| s <= i < s + k implies #[trigger] x[i] != 61 by {
        assert(x[i] == x.subrange(s as int, s as int + k + 1 + p.1.len())[i - s]);
        assert(piece[i - s] == p.0[i - s]);
    }
    lemma_form_scan_unchanged(x, s, s + k);
    assert(x[s as int + k] == piece[k as int]);
    assert(x.subrange(s as int, s as int + k) =~= p.0) by {
        assert forall|i: int| 0 <= i < k implies x.subrange(s as int, s as int + k)[i] == p.0[i] by {
            assert(x[s + i] == x.subrange(s as int, s as int + k + 1 + p.1.len())[i]);
            assert(piece[i] == p.0[i]);
        }
    }
    let after = (s + k + 1) as nat;
    assert(form_scan(x, after) == (FormScan { map: form_scan(x, s).map, cursor: after as int, key: Some(p.0) }));
    assert forall|i: int| after <= i < after + p.1.len() implies #[trigger] x[i] != 38 && x[i] != 13 by {
        assert(x[i] == x.subrange(s as int, s as int + k + 1 + p.1.len())[i - s]);
        assert(piece[i - s] == p.1[i - after]);
    }
    lemma_form_scan_unchanged(x, after, after + p.1.len());
}

/// The scan after a body of pieces: all but the last piece put in the map,
/// the last one's key pending, its value starting after the `=`.
proof fn lemma_form_body_scan(pieces: Seq<(Seq<u8>, Seq<u8>)>)
    requires
        pieces.len() > 0,
        forall|i: int| 0 <= i < pieces.len() ==> piece_fits(#[trigger] pieces[i]),
    ensures
        form_scan(form_body(pieces), form_body(pieces).len()) == (FormScan {
            map: pieces_inserted(pieces.drop_last()),
            cursor: form_body(pieces).len() - pieces.last().1.len(),
            key: Some(pieces.last().0),
        }),
    decreases pieces.len(),
{
    let b = form_body(pieces);
    let p = pieces.last();
    assert(piece_fits(pieces[pieces.len() - 1]));
    if pieces.len() == 1 {
        assert(pieces.drop_last() =~= Seq::<(Seq<u8>, Seq<u8>)>::empty());
        assert(b.subrange(0, b.len() as int) =~= p.0 + seq![61u8] + p.1);
        lemma_form_scan_piece(b, 0, p);
    } else {
        let rest = pieces.drop_last();
        let b0 = form_body(rest);
        assert forall|i: int| 0 <= i < rest.len() implies piece_fits(#[trigger] rest[i]) by {
            assert(rest[i] == pieces[i]);
        }
        lemma_form_body_scan(rest);
        let n0 = b0.len();
        assert(b =~= b0 + seq![38u8] + p.0 + seq![61u8] + p.1);
        lemma_form_scan_prefix(b, b0, n0);
        let st = form_scan(b, n0);
        let v0 = rest.last().1;
        assert(b[n0 as int] == 38u8);
        assert(b.subrange(st.cursor, n0 as int) =~= v0) by {
            assert(rest.len() == 1 ==> b0 =~= rest[0].0 + seq![61u8] + rest[0].1);
            assert(rest.len() > 1 ==> b0 =~= form_body(rest.drop_last()) + seq![38u8] + rest.last().0 + seq![61u8]
                + rest.last().1);
            assert forall|i: int| 0 <= i < v0.len() implies b.subrange(st.cursor, n0 as int)[i] == v0[i] by {
                assert(b[st.cursor + i] == b0[st.cursor + i]);
            }
        }
        assert(rest.drop_last() =~= pieces.drop_last().drop_last());
        assert(pieces_inserted(rest) == assoc_insert(pieces_inserted(rest.drop_last()), rest.last().0, v0));
        let s1 = (n0 + 1) as nat;
        assert(form_scan(b, s1) == (FormScan { map: pieces_inserted(rest), cursor: s1 as int, key: None }));
        assert(b.subrange(s1 as int, s1 as int + p.0.len() + 1 + p.1.len()) =~= p.0 + seq![61u8] + p.1);
        lemma_form_scan_piece(b, s1, p);
    }
}

/// A form read from `key=value` pieces joined by `&` holds each piece in
/// turn, a later value of a key replacing an earlier one; every value is
/// kept as it was written, an empty one too.
pub proof fn law_form_reads_pieces(pieces: Seq<(Seq<u8>, Seq<u8>)>)
    requires
        forall|i: int| 0 <= i < pieces.len() ==> piece_fits(#[trigger] pieces[i]),
    ensures
        form_entries(form_body(pieces)) == pieces_inserted(pieces),
{
    if pieces.len() > 0 {
        lemma_form_body_scan(pieces);
        let b = form_body(pieces);
        let p = pieces.last();
        assert(b.subrange(b.len() - p.1.len(), b.len() as int) =~= p.1) by {
            assert(pieces.len() == 1 ==> b =~= pieces[0].0 + seq![61u8] + pieces[0].1);
            assert(pieces.len() > 1 ==> b =~= form_body(pieces.drop_last()) + seq![38u8] + p.0 + seq![61u8] + p.1);
        }
    } else {
        assert(form_body(pieces).len() == 0);
    }
}

/// Pieces with keys all different are put in a map as they are, in order.
proof fn lemma_pieces_inserted_distinct(pieces: Seq<(Seq<u8>, Seq<u8>)>)
    requires
        forall|i: int, j: int| 0 <= i < j < pieces.len() ==> pieces[i].0 != pieces[j].0,
    ensures
        pieces_inserted(pieces) == pieces,
    decreases pieces.len(),
{
    if pieces.len() > 0 {
        let rest = pieces.drop_last();
        lemma_pieces_inserted_distinct(rest);
        lemma_assoc_insert_new(rest, pieces.last().0, pieces.last().1);
        assert(rest.push(pieces.last()) =~= pieces);
    }
}

/// Putting a new key in a map adds it at the end.
proof fn lemma_assoc_insert_new(m: Seq<(Seq<u8>, Seq<u8>)>, k: Seq<u8>, v: Seq<u8>)
    requires
        forall|i: int| 0 <= i < m.len() ==> m[i].0 != k,
    ensures
        assoc_insert(m, k, v) == m.push((k, v)),
    decreases m.len(),
{
    if m.len() > 0 {
        assert forall|i: int| 0 <= i < m.drop_first().len() implies m.drop_first()[i].0 != k by {
            assert(m.drop_first()[i] == m[i + 1]);
        }
        lemma_assoc_insert_new(m.drop_first(), k, v);
        assert(seq![m[0]] + m.drop_first().push((k, v)) =~= m.push((k, v)));
    } else {
        assert(seq![(k, v)] =~= m.push((k, v)));
    }
}

/// In a form read from `key=value` pieces with different keys, each key
/// gives exactly the bytes of its value, an empty value too.
pub proof fn law_form_value_of_each_piece(pieces: Seq<(Seq<u8>, Seq<u8>)>, i: int)
    requires
        0 <= i < pieces.len(),
        forall|j: int| 0 <= j < pieces.len() ==> piece_fits(#[trigger] pieces[j]),
        forall|a: int, b: int| 0 <= a < b < pieces.len() ==> pieces[a].0 != pieces[b].0,
    ensures
        first_value_where(form_entries(form_body(pieces)), |k: Seq<u8>| k == pieces[i].0) == Some(pieces[i].1),
{
    law_form_reads_pieces(pieces);
    lemma_pieces_inserted_distinct(pieces);
    crate::http::request::header::lemma_first_value_at(pieces, |k: Seq<u8>| k == pieces[i].0, i);
}

/// An url-encoded form whose keys and values borrow the request bytes.
#[derive(Debug)]
pub struct XWWWFormUrlEncoded<'a> {
    data: Vec<(&'a [u8], &'a [u8])>,
}

impl<'a> XWWWFormUrlEncoded<'a> {
    /// The (key, value) pairs, in the order their keys were first seen.
    pub closed spec fn entries(&self) -> Seq<(Seq<u8>, Seq<u8>)> {
        tuple_views(self.data@)
    }

    /// The value of `key`.
    pub fn get_as_bytes_ref(&self, key: &str) -> (r: Option<&'a [u8]>)
        ensures
            match r {
                Some(v) => first_value_where(self.entries(), |k: Seq<u8>| k == vstd::utf8::encode_utf8(key@)) == Some(v@),
                None => first_value_where(self.entries(), |k: Seq<u8>| k == vstd::utf8::encode_utf8(key@)) is None,
            },
    {
        let key_bytes = key.as_bytes();
        let ghost p = |k: Seq<u8>| k == vstd::utf8::encode_utf8(key@);
        let ghost all = self.entries();
        let mut i: usize = 0;
        assert(all.skip(0) =~= all);
        while i < self.data.len()
            invariant
                i <= self.data@.len(),
                all == tuple_views(self.data@),
                key_bytes@ == vstd::utf8::encode_utf8(key@),
                p == (|k: Seq<u8>| k == vstd::utf8::encode_utf8(key@)),
                first_value_where(all, p) == first_value_where(all.skip(i as int), p),
            decreases self.data@.len() - i,
        {
            let (k, v) = self.data[i];
            assert(all.skip(i as int)[0] == all[i as int]);
            if bytes_eq(k, key_bytes) {
                return Some(v);
            }
            assert(all.skip(i as int).drop_first() =~= all.skip(i + 1));
            i = i + 1;
        }
        assert(all.skip(i as int).len() == 0);
        None
    }

    /// The value of `key`, decoded.
    pub fn get_as_str(&self, key: &str) -> (r: Option<String>)
        ensures
            match r {
                Some(s) => first_value_where(self.entries(), |k: Seq<u8>| k == vstd::utf8::encode_utf8(key@))
                    matches Some(v) && s@ == utf8_lossy_text(v),
                None => first_value_where(self.entries(), |k: Seq<u8>| k == vstd::utf8::encode_utf8(key@)) is None,
            },
    {
        match self.get_as_bytes_ref(key) {
            Some(v) => Some(utf8_lossy(v)),
            None => None,
        }
    }

    /// All pairs.
    pub fn all_ref(&self) -> (r: &Vec<(&'a [u8], &'a [u8])>)
        ensures
            tuple_views(r@) == self.entries(),
    {
        &self.data
    }

    /// Parses `key=value` pairs separated by `&` (or CR).
    pub fn new(payload: &'a [u8]) -> (r: XWWWFormUrlEncoded<'a>)
        ensures
            r.entries() == form_entries(payload@),
    {
        let mut map: Vec<(&'a [u8], &'a [u8])> = Vec::new();
        let mut key: Option<&'a [u8]> = None;
        let mut cursor: usize = 0;
        let len = payload.len();
        let mut index: usize = 0;
        assert(tuple_views(map@) =~= Seq::<(Seq<u8>, Seq<u8>)>::empty());
        while index < len
            invariant
                len == payload@.len(),
                index <= len,
                cursor <= index,
                form_scan(payload@, index as nat) == (FormScan {
                    map: tuple_views(map@),
                    cursor: cursor as int,
                    key: match key { Some(k) => Some(k@), None => None },
                }),
            decreases len - index,
        {
            let byte = payload[index];
            match key {
                None => {
                    if byte == 61 {
                        key = Some(vstd::slice::slice_subrange(payload, cursor, index));
                        cursor = index + 1;
                    }
                },
                Some(k) => {
                    if byte == 38 || byte == 13 {
                        crate::http::request::header::insert_pair(&mut map, k, vstd::slice::slice_subrange(payload, cursor, index));
                        cursor = index + 1;
                        key = None;
                    }
                },
            }
            index = index + 1;
        }
        match key {
            Some(k) => {
                crate::http::request::header::insert_pair(&mut map, k, vstd::slice::slice_subrange(payload, cursor, len));
            },
            None => {},
        }
        XWWWFormUrlEncoded { data: map }
    }
}

} // verus!
