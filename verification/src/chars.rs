//! Searching, splitting and replacing within character sequences, the way
//! the standard string methods do it.

use vstd::prelude::*;

verus! {

/// Whether `p` occurs in `s` at index `i`.
pub open spec fn text_at(s: Seq<char>, p: Seq<char>, i: int) -> bool {
    &&& 0 <= i
    &&& i + p.len() <= s.len()
    &&& s.subrange(i, i + p.len()) == p
}

/// Whether `p` occurs in `s`.
pub open spec fn contains_text(s: Seq<char>, p: Seq<char>) -> bool {
    exists|i: int| text_at(s, p, i)
}

/// Whether `i` is the first index where `p` occurs in `s`.
pub open spec fn first_at(s: Seq<char>, p: Seq<char>, i: int) -> bool {
    text_at(s, p, i) && forall|j: int| 0 <= j < i ==> !text_at(s, p, j)
}

/// The first index where `p` occurs in `s`.
pub open spec fn find_text(s: Seq<char>, p: Seq<char>) -> Option<int> {
    if exists|i: int| first_at(s, p, i) {
        Some(choose|i: int| first_at(s, p, i))
    } else {
        None
    }
}

/// A first occurrence is the one `find_text` gives.
pub proof fn lemma_find_text(s: Seq<char>, p: Seq<char>, i: int)
    requires
        first_at(s, p, i),
    ensures
        find_text(s, p) == Some(i),
{
    let c = choose|k: int| first_at(s, p, k);
    assert(first_at(s, p, c));
    if c < i {
        assert(!text_at(s, p, c));
    } else if c > i {
        assert(!text_at(s, p, i));
    }
}

/// With no first occurrence there is none at all.
pub proof fn lemma_find_text_none(s: Seq<char>, p: Seq<char>)
    requires
        find_text(s, p) is None,
    ensures
        !contains_text(s, p),
{
    if contains_text(s, p) {
        let k = choose|k: int| text_at(s, p, k);
        lemma_first_exists(s, p, k);
    }
}

proof fn lemma_first_exists(s: Seq<char>, p: Seq<char>, k: int)
    requires
        text_at(s, p, k),
    ensures
        exists|i: int| first_at(s, p, i),
    decreases k,
{
    if forall|j: int| 0 <= j < k ==> !text_at(s, p, j) {
        assert(first_at(s, p, k));
    } else {
        let j = choose|j: int| 0 <= j < k && text_at(s, p, j);
        lemma_first_exists(s, p, j);
    }
}

fn text_at_exec(s: &[char], p: &[char], i: usize) -> (r: bool)
    requires
        i <= s@.len(),
    ensures
        r == text_at(s@, p@, i as int),
{
    let n = s.len();
    if p.len() > n - i {
        return false;
    }
    let mut j: usize = 0;
    while j < p.len()
        invariant
            n == s@.len(),
            i + p@.len() <= n,
            j <= p@.len(),
            forall|k: int| 0 <= k < j ==> s@[i + k] == p@[k],
        decreases p@.len() - j,
    {
        if s[i + j] != p[j] {
            assert(s@.subrange(i as int, i + p@.len())[j as int] != p@[j as int]);
            return false;
        }
        j = j + 1;
    }
    assert(s@.subrange(i as int, i + p@.len()) =~= p@);
    true
}

/// The first index where `p` occurs in `s`.
pub fn find_chars(s: &[char], p: &[char]) -> (r: Option<usize>)
    ensures
        match r {
            Some(i) => find_text(s@, p@) == Some(i as int),
            None => find_text(s@, p@) is None,
        },
{
    let n = s.len();
    let mut i: usize = 0;
    loop
        invariant
            i <= n,
            n == s@.len(),
            forall|j: int| 0 <= j < i ==> !text_at(s@, p@, j),
        decreases n - i,
    {
        if text_at_exec(s, p, i) {
            proof { lemma_find_text(s@, p@, i as int); }
            return Some(i);
        }
        if i == n {
            assert forall|j: int| !text_at(s@, p@, j) by {
                if 0 <= j && j + p@.len() <= s@.len() {
                    assert(j <= i);
                }
            }
            assert(!exists|k: int| first_at(s@, p@, k));
            return None;
        }
        i = i + 1;
    }
}

/// Whether `p` occurs in `s`.
pub fn contains_chars(s: &[char], p: &[char]) -> (r: bool)
    ensures
        r == contains_text(s@, p@),
{
    match find_chars(s, p) {
        Some(i) => {
            assert(text_at(s@, p@, i as int));
            true
        },
        None => {
            proof { lemma_find_text_none(s@, p@); }
            false
        },
    }
}

/// `s` cut at each occurrence of `sep` (not empty), the way `str::split`
/// does: one more piece than there are occurrences.
pub open spec fn split_text(s: Seq<char>, sep: Seq<char>) -> Seq<Seq<char>>
    decreases s.len(),
{
    match find_text(s, sep) {
        Some(i) => if sep.len() > 0 && 0 <= i && i + sep.len() <= s.len() {
            seq![s.take(i)] + split_text(s.skip(i + sep.len()), sep)
        } else {
            seq![s]
        },
        None => seq![s],
    }
}

/// `s` with every occurrence of `p` (not empty), from the left and not
/// overlapping, replaced by `r`, the way `str::replace` does.
pub open spec fn replace_text(s: Seq<char>, p: Seq<char>, r: Seq<char>) -> Seq<char>
    decreases s.len(),
{
    match find_text(s, p) {
        Some(i) => if p.len() > 0 && 0 <= i && i + p.len() <= s.len() {
            s.take(i) + r + replace_text(s.skip(i + p.len()), p, r)
        } else {
            s
        },
        None => s,
    }
}

proof fn lemma_find_text_bounds(s: Seq<char>, p: Seq<char>)
    ensures
        find_text(s, p) matches Some(i) ==> text_at(s, p, i),
{
    if let Some(i) = find_text(s, p) {
        assert(first_at(s, p, i));
    }
}

/// The pieces of `s` between occurrences of `sep` (not empty).
pub fn split_chars(s: &[char], sep: &[char]) -> (r: Vec<Vec<char>>)
    requires
        sep@.len() > 0,
    ensures
        r@.map_values(|v: Vec<char>| v@) == split_text(s@, sep@),
{
    let mut out: Vec<Vec<char>> = Vec::new();
    let mut pos: usize = 0;
    assert(s@.skip(0) =~= s@);
    loop
        invariant
            pos <= s@.len(),
            sep@.len() > 0,
            out@.map_values(|v: Vec<char>| v@) + split_text(s@.skip(pos as int), sep@) == split_text(s@, sep@),
        decreases s@.len() - pos,
    {
        let rest = vstd::slice::slice_subrange(s, pos, s.len());
        assert(rest@ =~= s@.skip(pos as int));
        proof { lemma_find_text_bounds(rest@, sep@); }
        let ghost before = out@.map_values(|v: Vec<char>| v@);
        match find_chars(rest, sep) {
            Some(i) => {
                let piece = vstd::slice::slice_subrange(rest, 0, i);
                out.push(vstd::slice::slice_to_vec(piece));
                assert(out@.map_values(|v: Vec<char>| v@) =~= before.push(rest@.take(i as int)));
                assert(rest@.skip(i + sep@.len()) =~= s@.skip(pos + i + sep@.len()));
                assert(before.push(rest@.take(i as int)) + split_text(rest@.skip(i + sep@.len()), sep@) =~= before
                    + split_text(rest@, sep@));
                pos = pos + i + sep.len();
            },
            None => {
                out.push(vstd::slice::slice_to_vec(rest));
                assert(out@.map_values(|v: Vec<char>| v@) =~= before.push(rest@));
                assert(before.push(rest@) =~= before + split_text(rest@, sep@));
                return out;
            },
        }
    }
}

/// `s` with every occurrence of `p` (not empty) replaced by `r`.
pub fn replace_chars(s: &[char], p: &[char], r: &[char]) -> (out: Vec<char>)
    requires
        p@.len() > 0,
    ensures
        out@ == replace_text(s@, p@, r@),
{
    let mut out: Vec<char> = Vec::new();
    let mut pos: usize = 0;
    assert(s@.skip(0) =~= s@);
    loop
        invariant
            pos <= s@.len(),
            p@.len() > 0,
            out@ + replace_text(s@.skip(pos as int), p@, r@) == replace_text(s@, p@, r@),
        decreases s@.len() - pos,
    {
        let rest = vstd::slice::slice_subrange(s, pos, s.len());
        assert(rest@ =~= s@.skip(pos as int));
        proof { lemma_find_text_bounds(rest@, p@); }
        let ghost before = out@;
        match find_chars(rest, p) {
            Some(i) => {
                let piece = vstd::slice::slice_subrange(rest, 0, i);
                crate::chars::extend_chars(&mut out, piece);
                crate::chars::extend_chars(&mut out, r);
                assert(rest@.skip(i + p@.len()) =~= s@.skip(pos + i + p@.len()));
                assert(out@ + replace_text(rest@.skip(i + p@.len()), p@, r@) =~= before + replace_text(rest@, p@, r@));
                pos = pos + i + p.len();
            },
            None => {
                crate::chars::extend_chars(&mut out, rest);
                return out;
            },
        }
    }
}

/// Appends the characters of `b` to `out`.
pub fn extend_chars(out: &mut Vec<char>, b: &[char])
    ensures
        final(out)@ == old(out)@ + b@,
{
    let mut i: usize = 0;
    while i < b.len()
        invariant
            i <= b@.len(),
            out@ == old(out)@ + b@.take(i as int),
        decreases b@.len() - i,
    {
        out.push(b[i]);
        i = i + 1;
        assert(out@ =~= old(out)@ + b@.take(i as int));
    }
    assert(b@.take(b@.len() as int) =~= b@);
}

/// Whether `s` begins with `p`.
pub open spec fn starts_with_text(s: Seq<char>, p: Seq<char>) -> bool {
    p.len() <= s.len() && s.take(p.len() as int) == p
}

/// Whether `s` begins with `p`.
pub fn starts_with_chars(s: &[char], p: &[char]) -> (r: bool)
    ensures
        r == starts_with_text(s@, p@),
{
    if p.len() > s.len() {
        return false;
    }
    let r = text_at_exec(s, p, 0);
    assert(s@.subrange(0, p@.len() as int) =~= s@.take(p@.len() as int));
    r
}

/// A split gives at least one piece.
pub proof fn lemma_split_text_not_empty(s: Seq<char>, sep: Seq<char>)
    ensures
        split_text(s, sep).len() >= 1,
    decreases s.len(),
{
    if let Some(i) = find_text(s, sep) {
        if sep.len() > 0 && 0 <= i && i + sep.len() <= s.len() {
            lemma_split_text_not_empty(s.skip(i + sep.len()), sep);
        }
    }
}

} // verus!
