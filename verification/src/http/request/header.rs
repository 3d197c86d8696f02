//! Header key/value lists parsed straight from request bytes, without copying.

use vstd::prelude::*;
use crate::assoc::{assoc_insert, assoc_get, lemma_assoc_insert, keyed, insert_by_key, lemma_assoc_insert_map_values};
use crate::text::{bytes_eq, utf8_lossy, utf8_lossy_text, to_lowercase, lowercase_text, str_eq, string_from_chars, chars_of, without_quotes, remove_quotes};

verus! {

broadcast use vstd::string::group_string_axioms;

/// A header key and value, both borrowed from the request bytes.
#[derive(Debug, Clone, Copy)]
pub struct KeyValuePair<'a> {
    pub key: &'a [u8],
    pub value: &'a [u8],
}

/// The (key, value) byte sequences of a run of pairs.
pub open spec fn pair_views<'a>(ps: Seq<KeyValuePair<'a>>) -> Seq<(Seq<u8>, Seq<u8>)> {
    ps.map_values(|p: KeyValuePair<'a>| (p.key@, p.value@))
}

/// The (key, value) byte sequences of a run of borrowed tuples.
pub open spec fn tuple_views<'a>(ps: Seq<(&'a [u8], &'a [u8])>) -> Seq<(Seq<u8>, Seq<u8>)> {
    ps.map_values(|p: (&'a [u8], &'a [u8])| (p.0@, p.1@))
}

/// The value of the first entry whose key satisfies `p`.
pub open spec fn first_value_where(entries: Seq<(Seq<u8>, Seq<u8>)>, p: spec_fn(Seq<u8>) -> bool) -> Option<Seq<u8>>
    decreases entries.len(),
{
    if entries.len() == 0 {
        None
    } else if p(entries[0].0) {
        Some(entries[0].1)
    } else {
        first_value_where(entries.drop_first(), p)
    }
}

/// Header lookup: the first entry whose key has exactly the bytes of `key`,
/// else the first whose key, decoded and lower-cased, equals `key` lower-cased.
pub open spec fn header_lookup(entries: Seq<(Seq<u8>, Seq<u8>)>, key: Seq<char>) -> Option<Seq<u8>> {
    match first_value_where(entries, |k: Seq<u8>| k == vstd::utf8::encode_utf8(key)) {
        Some(v) => Some(v),
        None => first_value_where(
            entries,
            |k: Seq<u8>| lowercase_text(utf8_lossy_text(k)) == lowercase_text(key),
        ),
    }
}

/// The first entry whose key satisfies `p` gives the value.
pub(crate) proof fn lemma_first_value_at(entries: Seq<(Seq<u8>, Seq<u8>)>, p: spec_fn(Seq<u8>) -> bool, i: int)
    requires
        0 <= i < entries.len(),
        p(entries[i].0),
        forall|j: int| 0 <= j < i ==> !p(#[trigger] entries[j].0),
    ensures
        first_value_where(entries, p) == Some(entries[i].1),
    decreases i,
{
    if i > 0 {
        assert(!p(entries[0].0));
        assert forall|j: int| 0 <= j < i - 1 implies !p(#[trigger] entries.drop_first()[j].0) by {
            assert(entries.drop_first()[j] == entries[j + 1]);
        }
        lemma_first_value_at(entries.drop_first(), p, i - 1);
    }
}

/// A value found is that of an entry whose key satisfies `p`; none is
/// found when no key does.
proof fn lemma_first_value_found(entries: Seq<(Seq<u8>, Seq<u8>)>, p: spec_fn(Seq<u8>) -> bool)
    ensures
        first_value_where(entries, p) matches Some(v) ==> exists|i: int|
            0 <= i < entries.len() && p(#[trigger] entries[i].0) && entries[i].1 == v,
        first_value_where(entries, p) is None ==> forall|i: int| 0 <= i < entries.len() ==> !p(#[trigger] entries[i].0),
    decreases entries.len(),
{
    if entries.len() > 0 {
        lemma_first_value_found(entries.drop_first(), p);
        if !p(entries[0].0) {
            if let Some(v) = first_value_where(entries, p) {
                let i = choose|i: int|
                    0 <= i < entries.drop_first().len() && p(#[trigger] entries.drop_first()[i].0)
                        && entries.drop_first()[i].1 == v;
                assert(entries.drop_first()[i] == entries[i + 1]);
            } else {
                assert forall|i: int| 0 <= i < entries.len() implies !p(#[trigger] entries[i].0) by {
                    if i > 0 {
                        assert(entries.drop_first()[i - 1] == entries[i]);
                    }
                }
            }
        }
    }
}

/// Whether a header name has exactly the bytes of `key`.
pub open spec fn same_name(k: Seq<u8>, key: Seq<char>) -> bool {
    k == vstd::utf8::encode_utf8(key)
}

/// Whether a header name equals `key` ignoring case: lower-cased, the
/// name (decoded) and `key` agree.
pub open spec fn same_name_ignoring_case(k: Seq<u8>, key: Seq<char>) -> bool {
    lowercase_text(utf8_lossy_text(k)) == lowercase_text(key)
}

/// Header names are looked up exactly first: the first entry whose name
/// has exactly the bytes of `key` gives the value.
pub proof fn law_header_exact_name_first(entries: Seq<(Seq<u8>, Seq<u8>)>, key: Seq<char>, i: int)
    requires
        0 <= i < entries.len(),
        same_name(entries[i].0, key),
        forall|j: int| 0 <= j < i ==> !same_name(#[trigger] entries[j].0, key),
    ensures
        header_lookup(entries, key) == Some(entries[i].1),
{
    lemma_first_value_at(entries, |k: Seq<u8>| k == vstd::utf8::encode_utf8(key), i);
}

/// Header names are case-insensitive: when no name has exactly the bytes
/// of `key`, the first entry whose name equals `key` ignoring case gives
/// the value.
pub proof fn law_header_name_ignores_case(entries: Seq<(Seq<u8>, Seq<u8>)>, key: Seq<char>, i: int)
    requires
        0 <= i < entries.len(),
        forall|j: int| 0 <= j < entries.len() ==> !same_name(#[trigger] entries[j].0, key),
        same_name_ignoring_case(entries[i].0, key),
        forall|j: int| 0 <= j < i ==> !same_name_ignoring_case(#[trigger] entries[j].0, key),
    ensures
        header_lookup(entries, key) == Some(entries[i].1),
{
    let exact = |k: Seq<u8>| k == vstd::utf8::encode_utf8(key);
    lemma_first_value_found(entries, exact);
    if first_value_where(entries, exact) is Some {
        let v = first_value_where(entries, exact)->0;
        let w = choose|w: int| 0 <= w < entries.len() && exact(#[trigger] entries[w].0) && entries[w].1 == v;
        assert(same_name(entries[w].0, key));
    }
    lemma_first_value_at(entries, |k: Seq<u8>| lowercase_text(utf8_lossy_text(k)) == lowercase_text(key), i);
}

/// A header value found is that of an entry whose name is `key`, exactly
/// or ignoring case; nothing is found only when no name is.
pub proof fn law_header_found_is_named(entries: Seq<(Seq<u8>, Seq<u8>)>, key: Seq<char>)
    ensures
        header_lookup(entries, key) matches Some(v) ==> exists|i: int|
            0 <= i < entries.len() && (same_name(#[trigger] entries[i].0, key) || same_name_ignoring_case(
                entries[i].0,
                key,
            )) && entries[i].1 == v,
        header_lookup(entries, key) is None ==> forall|i: int|
            0 <= i < entries.len() ==> !same_name(#[trigger] entries[i].0, key) && !same_name_ignoring_case(
                entries[i].0,
                key,
            ),
{
    let exact = |k: Seq<u8>| k == vstd::utf8::encode_utf8(key);
    let loose = |k: Seq<u8>| lowercase_text(utf8_lossy_text(k)) == lowercase_text(key);
    lemma_first_value_found(entries, exact);
    lemma_first_value_found(entries, loose);
    if let Some(v) = header_lookup(entries, key) {
        if first_value_where(entries, exact) is Some {
            let i = choose|i: int| 0 <= i < entries.len() && exact(#[trigger] entries[i].0) && entries[i].1 == v;
            assert(same_name(entries[i].0, key));
        } else {
            let i = choose|i: int| 0 <= i < entries.len() && loose(#[trigger] entries[i].0) && entries[i].1 == v;
            assert(same_name_ignoring_case(entries[i].0, key));
        }
    } else {
        assert forall|i: int| 0 <= i < entries.len() implies !same_name(#[trigger] entries[i].0, key)
            && !same_name_ignoring_case(entries[i].0, key) by {
            assert(!exact(entries[i].0));
            assert(!loose(entries[i].0));
        }
    }
}

/// Looks the value of the first entry from `from` on whose key satisfies the test up.
proof fn lemma_first_value_step(entries: Seq<(Seq<u8>, Seq<u8>)>, p: spec_fn(Seq<u8>) -> bool, i: int)
    requires
        0 <= i < entries.len(),
        !p(entries[i].0),
    ensures
        first_value_where(entries.skip(i), p) == first_value_where(entries.skip(i + 1), p),
{
    assert(entries.skip(i).drop_first() =~= entries.skip(i + 1));
}

/// Scans `entries` for the first key that satisfies the exact or the
/// case-insensitive comparison with `key`.
fn lookup_in<'a>(entries: &[(&'a [u8], &'a [u8])], key: &str, exact: bool) -> (r: Option<(&'a [u8], &'a [u8])>)
    ensures
        ({
            let p = if exact {
                |k: Seq<u8>| k == vstd::utf8::encode_utf8(key@)
            } else {
                |k: Seq<u8>| lowercase_text(utf8_lossy_text(k)) == lowercase_text(key@)
            };
            match r {
                Some(kv) => first_value_where(tuple_views(entries@), p) == Some(kv.1@) && p(kv.0@),
                None => first_value_where(tuple_views(entries@), p) is None,
            }
        }),
{
    let ghost p = if exact {
        |k: Seq<u8>| k == vstd::utf8::encode_utf8(key@)
    } else {
        |k: Seq<u8>| lowercase_text(utf8_lossy_text(k)) == lowercase_text(key@)
    };
    let ghost all = tuple_views(entries@);
    let key_bytes = key.as_bytes();
    let lower_key = to_lowercase(key);
    let mut i: usize = 0;
    assert(all.skip(0) =~= all);
    while i < entries.len()
        invariant
            i <= entries@.len(),
            all == tuple_views(entries@),
            all.len() == entries@.len(),
            key_bytes@ == vstd::utf8::encode_utf8(key@),
            lower_key@ == lowercase_text(key@),
            p == (if exact {
                |k: Seq<u8>| k == vstd::utf8::encode_utf8(key@)
            } else {
                |k: Seq<u8>| lowercase_text(utf8_lossy_text(k)) == lowercase_text(key@)
            }),
            first_value_where(all, p) == first_value_where(all.skip(i as int), p),
        decreases entries@.len() - i,
    {
        let (k, v) = entries[i];
        let hit = if exact {
            bytes_eq(k, key_bytes)
        } else {
            let lk = utf8_lossy(k);
            let llk = to_lowercase(lk.as_str());
            str_eq(llk.as_str(), lower_key.as_str())
        };
        assert(all.skip(i as int)[0] == all[i as int]);
        assert(all[i as int] == (k@, v@));
        if hit {
            return Some((k, v));
        }
        proof { lemma_first_value_step(all, p, i as int); }
        i = i + 1;
    }
    proof { r_none(all, p); }
    None
}

proof fn r_none(all: Seq<(Seq<u8>, Seq<u8>)>, p: spec_fn(Seq<u8>) -> bool)
    ensures
        first_value_where(all.skip(all.len() as int), p) is None,
{
    assert(all.skip(all.len() as int).len() == 0);
}

impl<'a> KeyValuePair<'a> {
    /// Replaces both the key and the value.
    pub fn change_to(&mut self, key: &'a [u8], value: &'a [u8])
        ensures
            final(self).key == key,
            final(self).value == value,
    {
        self.key = key;
        self.value = value;
    }

    /// The value parsed as a header value, with the key naming its first part.
    pub fn to_header_value(&self) -> (r: HeaderValue<'a>)
        ensures
            r.bytes_view() == self.value@,
            r.params() == Some(header_value_entries(self.value@, Some(self.key@))),
    {
        HeaderValue::new(self.value, Some(self.key))
    }

    /// A pair with an empty key and an empty value.
    pub fn empty() -> (r: KeyValuePair<'a>)
        ensures
            r.key@.len() == 0,
            r.value@.len() == 0,
    {
        let e: &[u8] = &[];
        KeyValuePair { key: e, value: e }
    }
}

/// A fixed-capacity list of header pairs.
#[derive(Debug)]
pub struct KeyValueList<'a, const LENGTH: usize> {
    pub(crate) data: Vec<KeyValuePair<'a>>,
    pub(crate) cursor: usize,
}

/// `n` empty (key, value) slots.
pub open spec fn empty_slots(n: nat) -> Seq<(Seq<u8>, Seq<u8>)> {
    Seq::new(n, |i: int| (Seq::<u8>::empty(), Seq::<u8>::empty()))
}

impl<'a, const LENGTH: usize> KeyValueList<'a, LENGTH> {
    /// The list has exactly `LENGTH` slots, and no more filled than that.
    pub closed spec fn well_formed(&self) -> bool {
        &&& self.data@.len() == LENGTH
        &&& self.cursor <= LENGTH
    }

    /// Every slot of the list, filled or not, as (key, value) byte sequences.
    pub closed spec fn slots(&self) -> Seq<(Seq<u8>, Seq<u8>)> {
        pair_views(self.data@)
    }

    /// The number of filled slots.
    pub closed spec fn filled(&self) -> nat {
        self.cursor as nat
    }

    /// The filled slots, in the order they were pushed.
    pub open spec fn entries(&self) -> Seq<(Seq<u8>, Seq<u8>)> {
        self.slots().take(self.filled() as int)
    }

    /// A list whose slots are all empty.
    pub fn empty() -> (r: KeyValueList<'a, LENGTH>)
        ensures
            r.well_formed(),
            r.filled() == 0,
            r.slots() == empty_slots(LENGTH as nat),
    {
        let mut data: Vec<KeyValuePair<'a>> = Vec::new();
        let mut i: usize = 0;
        while i < LENGTH
            invariant
                i <= LENGTH,
                data@.len() == i,
                pair_views(data@) == empty_slots(i as nat),
            decreases LENGTH - i,
        {
            let ghost old_data = data@;
            data.push(KeyValuePair::empty());
            i = i + 1;
            assert(pair_views(data@) =~= empty_slots(i as nat)) by {
                assert forall|j: int| 0 <= j < i implies pair_views(data@)[j] == empty_slots(i as nat)[j] by {
                    if j < i - 1 {
                        assert(data@[j] == old_data[j]);
                        assert(pair_views(old_data)[j] == empty_slots((i - 1) as nat)[j]);
                    } else {
                        assert(data@[j].key@ =~= Seq::<u8>::empty());
                        assert(data@[j].value@ =~= Seq::<u8>::empty());
                    }
                }
            }
        }
        KeyValueList { data, cursor: 0 }
    }

    /// Whether every slot has been filled.
    pub fn is_fully_filled(&self) -> (r: bool)
        requires
            self.well_formed(),
        ensures
            r == (self.filled() >= LENGTH),
    {
                self.cursor >= self.data.len()
    }

    /// Fills the next free slot with the pair; fails, leaving the list as it
    /// was, when every slot is filled.
    pub fn push(&mut self, key: &'a [u8], value: &'a [u8]) -> (r: Result<(), &'static str>)
        requires
            old(self).well_formed(),
        ensures
            final(self).well_formed(),
            old(self).filled() >= LENGTH ==> r is Err && final(self).slots() == old(self).slots()
                && final(self).filled() == old(self).filled(),
            old(self).filled() < LENGTH ==> r is Ok && final(self).filled() == old(self).filled() + 1
                && final(self).slots() == old(self).slots().update(old(self).filled() as int, (key@, value@)),
    {
                if self.is_fully_filled() {
            return Err("the stack of key value pair is fully filled");
        }
        let c = self.cursor;
        let mut p = self.data[c];
        p.change_to(key, value);
        self.data.set(c, p);
        self.cursor = c + 1;
        assert(pair_views(self.data@) =~= pair_views(old(self).data@).update(c as int, (key@, value@)));
        Ok(())
    }

    /// The filled pairs.
    pub fn all_pairs(&self) -> (r: &[KeyValuePair<'a>])
        requires
            self.well_formed(),
        ensures
            pair_views(r@) == self.entries(),
    {
                let r = vstd::slice::slice_subrange(self.data.as_slice(), 0, self.cursor);
        assert(pair_views(r@) =~= self.entries());
        r
    }

    /// Every slot as a borrowed (key, value) tuple.
    fn slot_tuples(&self) -> (r: Vec<(&'a [u8], &'a [u8])>)
        ensures
            tuple_views(r@) == self.slots(),
    {
        let mut r: Vec<(&'a [u8], &'a [u8])> = Vec::new();
        let mut i: usize = 0;
        while i < self.data.len()
            invariant
                i <= self.data@.len(),
                r@.len() == i,
                tuple_views(r@) == pair_views(self.data@).take(i as int),
            decreases self.data@.len() - i,
        {
            let p = self.data[i];
            let ghost old_r = r@;
            r.push((p.key, p.value));
            i = i + 1;
            assert(tuple_views(r@) =~= pair_views(self.data@).take(i as int)) by {
                assert forall|j: int| 0 <= j < i implies tuple_views(r@)[j] == pair_views(self.data@).take(i as int)[j] by {
                    if j < i - 1 {
                        assert(r@[j] == old_r[j]);
                        assert(tuple_views(old_r)[j] == pair_views(self.data@).take(i - 1)[j]);
                    }
                }
            }
        }
        assert(pair_views(self.data@).take(i as int) =~= pair_views(self.data@));
        r
    }

    /// Parses a header block (`Key: value` lines ending with a blank line)
    /// into a list of at most `L` pairs, borrowing keys and values from
    /// `bytes`; also gives the index just past the blank line. `None` when
    /// the block does not end within `bytes`. Pairs past the capacity are
    /// dropped.
    pub fn try_parse<const L: usize>(bytes: &[u8]) -> (r: Option<(KeyValueList<'_, L>, usize)>)
        requires
            !(pair_scan(bytes@, bytes@.len(), L as nat) is Overflowed),
        ensures
            match r {
                Some((list, n)) => list.well_formed()
                    && pair_scan(bytes@, bytes@.len(), L as nat) == PairScanOutcome::Finished(list.entries(), n as int)
                    && list.slots() == list.entries() + empty_slots((L - list.filled()) as nat),
                None => pair_scan(bytes@, bytes@.len(), L as nat) is Scanning,
            },
    {
        let mut key_list: KeyValueList<'_, L> = KeyValueList::empty();
        let mut breaks: u16 = 0;
        let mut last: usize = 0;
        let mut key: Option<&[u8]> = None;
        let len = bytes.len();
        let mut i: usize = 0;
        assert(key_list.entries() =~= Seq::<(Seq<u8>, Seq<u8>)>::empty());
        assert(key_list.slots() =~= key_list.entries() + empty_slots((L - key_list.filled()) as nat));
        while i < len
            invariant
                len == bytes@.len(),
                i <= len,
                len > 0 ==> last < len,
                last <= i || (i == 0 && last == 0),
                key_list.well_formed(),
                key_list.slots() == key_list.entries() + empty_slots((L - key_list.filled()) as nat),
                !(pair_scan(bytes@, len as nat, L as nat) is Overflowed),
                pair_scan(bytes@, i as nat, L as nat) == PairScanOutcome::Scanning(PairScan {
                    pairs: key_list.entries(),
                    breaks: breaks as int,
                    last: last as int,
                    key: match key { Some(k) => Some(k@), None => None },
                }),
            decreases len - i,
        {
            let b = bytes[i];
            let ghost before = pair_scan(bytes@, i as nat, L as nat);
            assert(pair_scan(bytes@, (i + 1) as nat, L as nat) == pair_scan_step(bytes@, before->Scanning_0, i as int, L as nat));
            if b == 58 {
                if (bytes[last] == 10 || bytes[last] == 32) && last + 1 < i {
                    last = last + 1;
                }
                key = Some(vstd::slice::slice_subrange(bytes, last, i));
                last = i;
            } else if b == 32 {
                if last + 1 == i && key.is_some() && i + 1 < len {
                    last = i + 1;
                }
            } else if b == 13 {
                if breaks == 65535 {
                    proof { lemma_pair_scan_settled(bytes@, (i + 1) as nat, len as nat, L as nat); }
                }
                breaks = breaks + 1;
                match key {
                    Some(k) => {
                        let value = vstd::slice::slice_subrange(bytes, last, i);
                        let _ = key_list.push(k, value);
                        assert(key_list.entries() =~= if key_list.filled() as int > 0 && before->Scanning_0.pairs.len() < L {
                            before->Scanning_0.pairs.push((k@, value@))
                        } else {
                            before->Scanning_0.pairs
                        });
                        assert(key_list.slots() =~= key_list.entries() + empty_slots((L - key_list.filled()) as nat));
                    },
                    None => {},
                }
                key = None;
                last = i;
            } else if b == 10 {
                if breaks == 65535 {
                    proof { lemma_pair_scan_settled(bytes@, (i + 1) as nat, len as nat, L as nat); }
                }
                breaks = breaks + 1;
                if breaks >= 4 {
                    proof { lemma_pair_scan_settled(bytes@, (i + 1) as nat, len as nat, L as nat); }
                    return Some((key_list, i + 1));
                }
                last = i;
            } else {
                breaks = 0;
            }
            i = i + 1;
        }
        None
    }

    /// The value of the header named `key`: the first slot whose key has
    /// exactly the bytes of `key`, else the first whose key, lower-cased,
    /// equals `key` lower-cased. Every slot is searched, empty ones too.
    pub fn get_as_bytes(&self, key: &str) -> (r: Option<&'a [u8]>)
        ensures
            match r {
                Some(v) => header_lookup(self.slots(), key@) == Some(v@),
                None => header_lookup(self.slots(), key@) is None,
            },
    {
        let all = self.slot_tuples();
        match lookup_in(all.as_slice(), key, true) {
            Some(kv) => Some(kv.1),
            None => match lookup_in(all.as_slice(), key, false) {
                Some(kv) => Some(kv.1),
                None => None,
            },
        }
    }

    /// The value of the first slot whose key has exactly the bytes of `key`,
    /// parsed as a header value.
    pub fn get_as_header_value(&self, key: &str) -> (r: Option<HeaderValue<'a>>)
        ensures
            match r {
                Some(h) => first_value_where(self.slots(), |k: Seq<u8>| k == vstd::utf8::encode_utf8(key@))
                    == Some(h.bytes_view())
                    && h.params() == Some(header_value_entries(
                        h.bytes_view(),
                        Some(vstd::utf8::encode_utf8(key@)),
                    )),
                None => first_value_where(self.slots(), |k: Seq<u8>| k == vstd::utf8::encode_utf8(key@)) is None,
            },
    {
        let all = self.slot_tuples();
        match lookup_in(all.as_slice(), key, true) {
            Some(kv) => Some(HeaderValue::new(kv.1, Some(kv.0))),
            None => None,
        }
    }

    /// The value of the header named `key` (as `get_as_bytes` finds it),
    /// decoded as UTF-8 with invalid sequences replaced.
    pub fn get_as_str(&self, key: &str) -> (r: Option<String>)
        ensures
            match r {
                Some(s) => header_lookup(self.slots(), key@) matches Some(v) && s@ == utf8_lossy_text(v),
                None => header_lookup(self.slots(), key@) is None,
            },
    {
        match self.get_as_bytes(key) {
            Some(v) => Some(utf8_lossy(v)),
            None => None,
        }
    }
}


/// The state of a header block scan: the pairs collected so far, how many
/// line-break bytes came in a row, where the current piece starts, and the
/// pending key.
pub struct PairScan {
    pub pairs: Seq<(Seq<u8>, Seq<u8>)>,
    pub breaks: int,
    pub last: int,
    pub key: Option<Seq<u8>>,
}

/// Where a header block scan stands.
pub enum PairScanOutcome {
    /// Still inside the header block.
    Scanning(PairScan),
    /// The blank line was found; the pairs and the index just past it.
    Finished(Seq<(Seq<u8>, Seq<u8>)>, int),
    /// The line-break counter would pass its 16-bit range.
    Overflowed,
}

/// One byte of a header block scan, keeping at most `cap` pairs. A `:` ends
/// a key (skipping one leading line feed or space); a space right after the
/// `:` moves the value start; a CR ends the value of the line's key (a line
/// without a key gives no pair); the fourth line-break byte in a row ends
/// the block.
pub open spec fn pair_scan_step(bytes: Seq<u8>, st: PairScan, i: int, cap: nat) -> PairScanOutcome {
    let b = bytes[i];
    if b == 58 {
        let start = if (bytes[st.last] == 10 || bytes[st.last] == 32) && st.last + 1 < i {
            st.last + 1
        } else {
            st.last
        };
        PairScanOutcome::Scanning(PairScan { pairs: st.pairs, breaks: st.breaks, last: i, key: Some(bytes.subrange(start, i)) })
    } else if b == 32 {
        if st.last + 1 == i && st.key is Some && i + 1 < bytes.len() {
            PairScanOutcome::Scanning(PairScan { pairs: st.pairs, breaks: st.breaks, last: i + 1, key: st.key })
        } else {
            PairScanOutcome::Scanning(st)
        }
    } else if b == 13 {
        if st.breaks >= 65535 {
            PairScanOutcome::Overflowed
        } else {
            let pairs = match st.key {
                Some(k) => if st.pairs.len() < cap { st.pairs.push((k, bytes.subrange(st.last, i))) } else { st.pairs },
                None => st.pairs,
            };
            PairScanOutcome::Scanning(PairScan { pairs: pairs, breaks: st.breaks + 1, last: i, key: None })
        }
    } else if b == 10 {
        if st.breaks >= 65535 {
            PairScanOutcome::Overflowed
        } else if st.breaks + 1 >= 4 {
            PairScanOutcome::Finished(st.pairs, i + 1)
        } else {
            PairScanOutcome::Scanning(PairScan { pairs: st.pairs, breaks: st.breaks + 1, last: i, key: st.key })
        }
    } else {
        PairScanOutcome::Scanning(PairScan { pairs: st.pairs, breaks: 0, last: st.last, key: st.key })
    }
}

/// The header block scan after the first `n` bytes; once finished or
/// overflowed it stays so.
pub open spec fn pair_scan(bytes: Seq<u8>, n: nat, cap: nat) -> PairScanOutcome
    decreases n,
{
    if n == 0 {
        PairScanOutcome::Scanning(PairScan { pairs: Seq::empty(), breaks: 0, last: 0, key: None })
    } else {
        match pair_scan(bytes, (n - 1) as nat, cap) {
            PairScanOutcome::Scanning(st) => pair_scan_step(bytes, st, n - 1, cap),
            other => other,
        }
    }
}

/// Whether scanning the bytes as a header block of at most `cap` pairs
/// would count more line-break bytes in a row than 16 bits hold, before
/// the block ends.
pub fn header_scan_overflows(bytes: &[u8], cap: usize) -> (r: bool)
    ensures
        r == (pair_scan(bytes@, bytes@.len(), cap as nat) is Overflowed),
{
    let len = bytes.len();
    let mut breaks: u32 = 0;
    let mut last: usize = 0;
    let mut key: Option<&[u8]> = None;
    let ghost mut pairs: Seq<(Seq<u8>, Seq<u8>)> = Seq::empty();
    let mut i: usize = 0;
    while i < len
        invariant
            len == bytes@.len(),
            i <= len,
            len > 0 ==> last < len,
            last <= i || (i == 0 && last == 0),
            breaks < 65536,
            pair_scan(bytes@, i as nat, cap as nat) == PairScanOutcome::Scanning(PairScan {
                pairs: pairs,
                breaks: breaks as int,
                last: last as int,
                key: match key { Some(k) => Some(k@), None => None },
            }),
        decreases len - i,
    {
        let b = bytes[i];
        let ghost before = pair_scan(bytes@, i as nat, cap as nat);
        assert(pair_scan(bytes@, (i + 1) as nat, cap as nat) == pair_scan_step(bytes@, before->Scanning_0, i as int, cap as nat));
        if b == 58 {
            if (bytes[last] == 10 || bytes[last] == 32) && last + 1 < i {
                last = last + 1;
            }
            key = Some(vstd::slice::slice_subrange(bytes, last, i));
            last = i;
        } else if b == 32 {
            if last + 1 == i && key.is_some() && i + 1 < len {
                last = i + 1;
            }
        } else if b == 13 {
            if breaks >= 65535 {
                proof { lemma_pair_scan_settled(bytes@, (i + 1) as nat, len as nat, cap as nat); }
                return true;
            }
            proof {
                if let Some(k) = key {
                    if pairs.len() < cap {
                        pairs = pairs.push((k@, bytes@.subrange(last as int, i as int)));
                    }
                }
            }
            breaks = breaks + 1;
            last = i;
            key = None;
        } else if b == 10 {
            if breaks >= 65535 {
                proof { lemma_pair_scan_settled(bytes@, (i + 1) as nat, len as nat, cap as nat); }
                return true;
            }
            if breaks + 1 >= 4 {
                proof { lemma_pair_scan_settled(bytes@, (i + 1) as nat, len as nat, cap as nat); }
                return false;
            }
            breaks = breaks + 1;
            last = i;
        } else {
            breaks = 0;
        }
        i = i + 1;
    }
    false
}

/// A finished scan ends within the bytes it read.
pub(crate) proof fn lemma_pair_scan_finished_len(bytes: Seq<u8>, n: nat, cap: nat)
    ensures
        pair_scan(bytes, n, cap) matches PairScanOutcome::Finished(_, k) ==> 0 < k <= n,
    decreases n,
{
    if n > 0 {
        lemma_pair_scan_finished_len(bytes, (n - 1) as nat, cap);
    }
}

/// A scan that has finished or overflowed stays so on more bytes.
proof fn lemma_pair_scan_settled(bytes: Seq<u8>, n: nat, m: nat, cap: nat)
    requires
        n <= m,
        !(pair_scan(bytes, n, cap) is Scanning),
    ensures
        pair_scan(bytes, m, cap) == pair_scan(bytes, n, cap),
    decreases m - n,
{
    if n < m {
        lemma_pair_scan_settled(bytes, n, (m - 1) as nat, cap);
    }
}

/// Where a scan start moves after a separator at `i`: just past it, but
/// never past the last byte.
pub open spec fn step_past(i: int, len: int) -> int {
    if i + 1 >= len { i } else { i + 1 }
}

/// The state of a header value scan: the parameters found so far, where the
/// current piece starts, and the pending parameter name.
pub struct ValueScan {
    pub map: Seq<(Seq<u8>, Seq<u8>)>,
    pub last: int,
    pub key: Option<Seq<u8>>,
}

/// One byte of a header value scan. `=` ends a parameter name (skipping one
/// leading space); a space, `;` or CR ends a parameter value; a `;` or CR
/// with no pending name, or a space right after a `;`, moves the start.
pub open spec fn value_scan_step(bytes: Seq<u8>, st: ValueScan, i: int) -> ValueScan {
    let b = bytes[i];
    let len = bytes.len() as int;
    if b == 61 {
        let start = if bytes[st.last] == 32 && st.last + 1 < i { st.last + 1 } else { st.last };
        ValueScan { map: st.map, last: step_past(i, len), key: Some(bytes.subrange(start, i)) }
    } else if b == 32 {
        if i == 1 {
            ValueScan { map: st.map, last: 1, key: st.key }
        } else {
            match st.key {
                Some(k) => ValueScan {
                    map: assoc_insert(st.map, k, bytes.subrange(st.last, i)),
                    last: step_past(i, len),
                    key: None,
                },
                None => if bytes[st.last] == 59 {
                    ValueScan { map: st.map, last: step_past(i, len), key: None }
                } else {
                    st
                },
            }
        }
    } else if b == 59 || b == 13 {
        match st.key {
            Some(k) => ValueScan {
                map: assoc_insert(st.map, k, bytes.subrange(st.last, i)),
                last: step_past(i, len),
                key: None,
            },
            None => ValueScan { map: st.map, last: i, key: None },
        }
    } else {
        st
    }
}

/// The scan state after the first `n` bytes.
pub open spec fn value_scan(bytes: Seq<u8>, n: nat, key: Option<Seq<u8>>) -> ValueScan
    decreases n,
{
    if n == 0 {
        ValueScan { map: Seq::empty(), last: 0, key: key }
    } else {
        value_scan_step(bytes, value_scan(bytes, (n - 1) as nat, key), n - 1)
    }
}

/// The parameters of a header value: the whole scan, then the pending name
/// (if any) gets the rest of the bytes.
pub open spec fn header_value_entries(bytes: Seq<u8>, key: Option<Seq<u8>>) -> Seq<(Seq<u8>, Seq<u8>)> {
    let st = value_scan(bytes, bytes.len(), key);
    match st.key {
        Some(k) => assoc_insert(st.map, k, bytes.subrange(st.last, bytes.len() as int)),
        None => st.map,
    }
}

/// Strips one leading and one trailing double quote, where present.
pub open spec fn unquote(v: Seq<u8>) -> Seq<u8> {
    let v1 = if v.len() > 0 && v[0] == 34 { v.drop_first() } else { v };
    if v1.len() > 0 && v1.last() == 34 { v1.drop_last() } else { v1 }
}

/// A header value with its `name=value` parameters.
#[derive(Debug)]
pub struct HeaderValue<'a> {
    bytes: &'a [u8],
    /// The parameters, in the order their names were first seen.
    pub map: Option<Vec<(&'a [u8], &'a [u8])>>,
}

/// Inserts into a borrowed association list as `assoc_insert` does.
pub(crate) fn insert_pair<'a>(m: &mut Vec<(&'a [u8], &'a [u8])>, k: &'a [u8], v: &'a [u8])
    ensures
        tuple_views(final(m)@) == assoc_insert(tuple_views(old(m)@), k@, v@),
{
    let ghost old_view = tuple_views(m@);
    let mut j: usize = 0;
    while j < m.len()
        invariant
            j <= m@.len(),
            m@ == old(m)@,
            old_view == tuple_views(m@),
            forall|x: int| 0 <= x < j ==> old_view[x].0 != k@,
        decreases m@.len() - j,
    {
        if bytes_eq(m[j].0, k) {
            proof { lemma_assoc_insert(old_view, k@, v@, j as int); }
            m.set(j, (k, v));
            assert(tuple_views(m@) =~= old_view.update(j as int, (k@, v@)));
            return;
        }
        j = j + 1;
    }
    proof { lemma_assoc_insert(old_view, k@, v@, j as int); }
    m.push((k, v));
    assert(tuple_views(m@) =~= old_view.push((k@, v@)));
}

impl<'a> HeaderValue<'a> {
    /// The whole value.
    pub closed spec fn bytes_view(&self) -> Seq<u8> {
        self.bytes@
    }

    /// The parameters as (name, value) byte sequences.
    pub closed spec fn params(&self) -> Option<Seq<(Seq<u8>, Seq<u8>)>> {
        match self.map {
            Some(m) => Some(tuple_views(m@)),
            None => None,
        }
    }

    /// Parses `bytes` into parameters; `key`, when given, names the piece
    /// before the first separator.
    pub fn new(bytes: &'a [u8], key: Option<&'a [u8]>) -> (r: HeaderValue<'a>)
        ensures
            r.bytes_view() == bytes@,
            r.params() == Some(header_value_entries(
                bytes@,
                match key { Some(k) => Some(k@), None => None },
            )),
    {
        let ghost gkey = match key { Some(k) => Some(k@), None => None::<Seq<u8>> };
        let mut map: Vec<(&'a [u8], &'a [u8])> = Vec::new();
        let mut last: usize = 0;
        let mut key = key;
        let len = bytes.len();
        let mut i: usize = 0;
        assert(tuple_views(map@) =~= Seq::<(Seq<u8>, Seq<u8>)>::empty());
        while i < len
            invariant
                len == bytes@.len(),
                i <= len,
                last <= i,
                value_scan(bytes@, i as nat, gkey) == (ValueScan {
                    map: tuple_views(map@),
                    last: last as int,
                    key: match key { Some(k) => Some(k@), None => None },
                }),
            decreases len - i,
        {
            let b = bytes[i];
            let next = if i + 1 >= len { i } else { i + 1 };
            if b == 61 {
                if bytes[last] == 32 && last + 1 < i {
                    last = last + 1;
                }
                key = Some(vstd::slice::slice_subrange(bytes, last, i));
                last = next;
            } else if b == 32 {
                if i == 1 {
                    last = 1;
                } else {
                    match key {
                        Some(k) => {
                            insert_pair(&mut map, k, vstd::slice::slice_subrange(bytes, last, i));
                            last = next;
                            key = None;
                        },
                        None => {
                            if bytes[last] == 59 {
                                last = next;
                            }
                        },
                    }
                }
            } else if b == 59 || b == 13 {
                match key {
                    Some(k) => {
                        insert_pair(&mut map, k, vstd::slice::slice_subrange(bytes, last, i));
                        last = next;
                        key = None;
                    },
                    None => {
                        last = i;
                    },
                }
            }
            i = i + 1;
        }
        match key {
            Some(k) => {
                insert_pair(&mut map, k, vstd::slice::slice_subrange(bytes, last, len));
            },
            None => {},
        }
        HeaderValue { bytes, map: Some(map) }
    }

    /// The parameter named `key`: exact name first, then a case-insensitive match.
    pub fn get_from_values_as_bytes(&self, key: &'static str) -> (r: Option<&'a [u8]>)
        ensures
            match self.params() {
                Some(m) => match r {
                    Some(v) => header_lookup(m, key@) == Some(v@),
                    None => header_lookup(m, key@) is None,
                },
                None => r is None,
            },
    {
        match &self.map {
            Some(m) => match lookup_in(m.as_slice(), key, true) {
                Some(kv) => Some(kv.1),
                None => match lookup_in(m.as_slice(), key, false) {
                    Some(kv) => Some(kv.1),
                    None => None,
                },
            },
            None => None,
        }
    }

    /// The parameter named `key`, decoded, with every double quote removed.
    pub fn get_from_values_as_string(&self, key: &'static str) -> (r: Option<String>)
        ensures
            match self.params() {
                Some(m) => match r {
                    Some(s) => header_lookup(m, key@) matches Some(v)
                        && s@ == utf8_lossy_text(v).filter(|c: char| c != '"'),
                    None => header_lookup(m, key@) is None,
                },
                None => r is None,
            },
    {
        match self.get_from_values_as_bytes(key) {
            Some(v) => {
                let s = utf8_lossy(v);
                let cs = chars_of(s.as_str());
                let mut kept: Vec<char> = Vec::new();
                let mut i: usize = 0;
                while i < cs.len()
                    invariant
                        i <= cs@.len(),
                        kept@ == cs@.take(i as int).filter(|c: char| c != '"'),
                    decreases cs@.len() - i,
                {
                    let c = cs[i];
                    proof {
                        assert(cs@.take(i + 1) =~= cs@.take(i as int).push(c));
                        crate::text::lemma_filter_push(cs@.take(i as int), |c: char| c != '"', c);
                    }
                    if c != '"' {
                        kept.push(c);
                    }
                    i = i + 1;
                }
                assert(cs@.take(cs@.len() as int) =~= cs@);
                Some(string_from_chars(kept.as_slice()))
            },
            None => None,
        }
    }

    /// The parameter named `key` as text, as it stands: quotes around it are
    /// kept (a request's `name="file1"` reads as `"file1"`); bytes that are
    /// not UTF-8 are replaced.
    pub fn get_from_values_as_str(&self, key: &'static str) -> (r: Option<String>)
        ensures
            match self.params() {
                Some(m) => match r {
                    Some(s) => header_lookup(m, key@) matches Some(v) && s@ == utf8_lossy_text(v),
                    None => header_lookup(m, key@) is None,
                },
                None => r is None,
            },
    {
        match self.get_from_values_as_bytes(key) {
            Some(v) => Some(utf8_lossy(v)),
            None => None,
        }
    }

    /// The parameter named `key` with one surrounding pair of quotes
    /// removed, decoded.
    pub fn get_from_values_as_cow(&self, key: &'static str) -> (r: Option<String>)
        ensures
            match self.params() {
                Some(m) => match r {
                    Some(s) => header_lookup(m, key@) matches Some(v)
                        && s@ == utf8_lossy_text(unquote(v)),
                    None => header_lookup(m, key@) is None,
                },
                None => r is None,
            },
    {
        match self.get_from_values_as_bytes(key) {
            Some(v) => {
                let mut from: usize = 0;
                let mut to: usize = v.len();
                if v.len() > 0 && v[0] == 34 {
                    from = 1;
                }
                if to > from && v[to - 1] == 34 {
                    to = to - 1;
                }
                let inner = vstd::slice::slice_subrange(v, from, to);
                assert(inner@ =~= unquote(v@));
                Some(utf8_lossy(inner))
            },
            None => None,
        }
    }

    /// The whole value, decoded.
    pub fn to_str(&self) -> (r: String)
        ensures
            r@ == utf8_lossy_text(self.bytes_view()),
    {
        utf8_lossy(self.bytes)
    }

    /// The whole value.
    pub fn to_bytes(&self) -> (r: &'a [u8])
        ensures
            r@ == self.bytes_view(),
    {
        self.bytes
    }
}

/// Names with values, both as owned text and bytes, viewed as characters
/// and bytes.
pub open spec fn owned_pairs_view(m: Seq<(String, Vec<u8>)>) -> Seq<(Seq<char>, Seq<u8>)> {
    m.map_values(|p: (String, Vec<u8>)| (p.0@, p.1@))
}

/// The map after adding parameters in order: each value under its name
/// decoded with every double quote removed; a later name replaces an
/// earlier one.
pub open spec fn params_into(m: Seq<(Seq<char>, Seq<u8>)>, ps: Seq<(Seq<u8>, Seq<u8>)>) -> Seq<(Seq<char>, Seq<u8>)>
    decreases ps.len(),
{
    if ps.len() == 0 {
        m
    } else {
        let p = ps.last();
        assoc_insert(params_into(m, ps.drop_last()), without_quotes(utf8_lossy_text(p.0)), p.1)
    }
}

/// The map a list of header slots gives: for each slot with a key, in
/// order, the parameters of its value (the piece before the first
/// separator under the slot's own key).
pub open spec fn key_value_map_of(slots: Seq<(Seq<u8>, Seq<u8>)>) -> Seq<(Seq<char>, Seq<u8>)>
    decreases slots.len(),
{
    if slots.len() == 0 {
        Seq::empty()
    } else {
        let m = key_value_map_of(slots.drop_last());
        let s = slots.last();
        if s.0.len() == 0 {
            m
        } else {
            params_into(m, header_value_entries(s.1, Some(s.0)))
        }
    }
}

/// Owned header parameters: each name (quotes removed) with its value.
#[derive(Debug, Clone)]
pub struct KeyValueMap {
    map: Vec<(String, Vec<u8>)>,
}

impl View for KeyValueMap {
    type V = Seq<(Seq<char>, Seq<u8>)>;

    closed spec fn view(&self) -> Seq<(Seq<char>, Seq<u8>)> {
        owned_pairs_view(self.map@)
    }
}

/// Inserts into owned pairs as `assoc_insert` does.
pub(crate) fn insert_owned(m: &mut Vec<(String, Vec<u8>)>, k: String, v: Vec<u8>)
    ensures
        owned_pairs_view(final(m)@) == assoc_insert(owned_pairs_view(old(m)@), k@, v@),
{
    let ghost before = m@;
    let ghost kv = k@;
    let ghost vv = v@;
    insert_by_key(m, k, v);
    proof {
        let g = |x: Vec<u8>| x@;
        lemma_assoc_insert_map_values(keyed(before), kv, v, g);
        assert(owned_pairs_view(before) =~= keyed(before).map_values(|p: (Seq<char>, Vec<u8>)| (p.0, g(p.1))));
        assert(owned_pairs_view(m@) =~= keyed(m@).map_values(|p: (Seq<char>, Vec<u8>)| (p.0, g(p.1))));
    }
}

impl KeyValueMap {
    /// The parameters of every header in the list: for each slot with a
    /// key, in order, its value's parameters, each under its name decoded
    /// with quotes removed.
    pub fn from<'a, const T: usize>(value: &KeyValueList<'a, T>) -> (r: KeyValueMap)
        ensures
            r@ == key_value_map_of(value.slots()),
    {
        let slots = value.slot_tuples();
        let ghost sv = tuple_views(slots@);
        let mut map: Vec<(String, Vec<u8>)> = Vec::new();
        let mut i: usize = 0;
        assert(owned_pairs_view(map@) =~= key_value_map_of(sv.take(0)));
        while i < slots.len()
            invariant
                i <= slots@.len(),
                sv == tuple_views(slots@),
                sv == value.slots(),
                owned_pairs_view(map@) == key_value_map_of(sv.take(i as int)),
            decreases slots@.len() - i,
        {
            let (k, v) = slots[i];
            assert(sv.take(i + 1).drop_last() =~= sv.take(i as int));
            assert(sv.take(i + 1).last() == (k@, v@));
            if k.len() != 0 {
                let hv = HeaderValue::new(v, Some(k));
                let ghost base = owned_pairs_view(map@);
                let ghost entries = header_value_entries(v@, Some(k@));
                match &hv.map {
                    Some(pm) => {
                        let mut j: usize = 0;
                        assert(tuple_views(pm@) == entries);
                        assert(entries.take(0) =~= Seq::<(Seq<u8>, Seq<u8>)>::empty());
                        while j < pm.len()
                            invariant
                                j <= pm@.len(),
                                tuple_views(pm@) == entries,
                                owned_pairs_view(map@) == params_into(base, entries.take(j as int)),
                            decreases pm@.len() - j,
                        {
                            let (pk, pv) = pm[j];
                            assert(entries.take(j + 1).drop_last() =~= entries.take(j as int));
                            assert(entries.take(j + 1).last() == (pk@, pv@));
                            let name = remove_quotes(utf8_lossy(pk).as_str());
                            insert_owned(&mut map, name, vstd::slice::slice_to_vec(pv));
                            j = j + 1;
                        }
                        assert(entries.take(pm@.len() as int) =~= entries);
                    },
                    None => {
                        assert(false);
                    },
                }
            }
            i = i + 1;
        }
        assert(sv.take(slots@.len() as int) =~= sv);
        KeyValueMap { map }
    }

    /// Every name with its value.
    pub fn all_pairs(&self) -> (r: &Vec<(String, Vec<u8>)>)
        ensures
            owned_pairs_view(r@) == self@,
    {
        &self.map
    }

    /// The value under exactly the name `key`.
    pub fn get_as_bytes(&self, key: &str) -> (r: Option<&Vec<u8>>)
        ensures
            match r {
                Some(v) => assoc_get(self@, key@) == Some(v@),
                None => assoc_get(self@, key@) is None,
            },
    {
        let ghost m = self@;
        let mut i: usize = 0;
        assert(m.skip(0) =~= m);
        while i < self.map.len()
            invariant
                i <= self.map@.len(),
                m == self@,
                m.len() == self.map@.len(),
                assoc_get(m, key@) == assoc_get(m.skip(i as int), key@),
            decreases self.map@.len() - i,
        {
            assert(m.skip(i as int)[0] == m[i as int]);
            if str_eq(self.map[i].0.as_str(), key) {
                return Some(&self.map[i].1);
            }
            assert(m.skip(i as int).drop_first() =~= m.skip(i + 1));
            i = i + 1;
        }
        None
    }

    /// No key gives a header value here: the value under `key` is parsed,
    /// and the parse is dropped.
    pub fn get_as_header_value(&self, key: &str) -> (r: Option<HeaderValue<'_>>)
        ensures
            r is None,
    {
        if let Some(bytes) = self.get_as_bytes(key) {
            let _ = HeaderValue::new(bytes.as_slice(), Some(key.as_bytes()));
        }
        None
    }

    /// The value under exactly the name `key`, decoded as UTF-8 with
    /// invalid sequences replaced.
    pub fn get_as_str(&self, key: &str) -> (r: Option<String>)
        ensures
            match r {
                Some(s) => assoc_get(self@, key@) matches Some(v) && s@ == utf8_lossy_text(v),
                None => assoc_get(self@, key@) is None,
            },
    {
        match self.get_as_bytes(key) {
            Some(v) => Some(utf8_lossy(v.as_slice())),
            None => None,
        }
    }
}

} // verus!
