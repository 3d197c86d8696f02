//! Finding a byte pattern inside bytes.

use vstd::prelude::*;

verus! {

/// Whether `pattern` occurs in `data` starting at index `i`.
pub open spec fn occurs_at(data: Seq<u8>, pattern: Seq<u8>, i: int) -> bool {
    &&& 0 <= i
    &&& i + pattern.len() <= data.len()
    &&& data.subrange(i, i + pattern.len()) == pattern
}

/// `twoway::find_bytes`: the index of the first occurrence of `pattern` in
/// `text`, or `None` when it does not occur (an empty pattern occurs at
/// 0). The search algorithm is not restated; only what it finds is.
#[verifier::external_body]
pub(crate) fn find_bytes(text: &[u8], pattern: &[u8]) -> (r: Option<usize>)
    ensures
        match r {
            Some(i) => occurs_at(text@, pattern@, i as int) && forall|j: int|
                0 <= j < i ==> !occurs_at(text@, pattern@, j),
            None => forall|j: int| !occurs_at(text@, pattern@, j),
        },
{
    twoway::find_bytes(text, pattern)
}

/// The first and the last index of the first occurrence of `pattern` in
/// `bytes`.
pub fn fast_finding_pattern_in_bytes(bytes: &[u8], pattern: &[u8]) -> (r: Option<(usize, usize)>)
    requires
        pattern@.len() > 0,
    ensures
        match r {
            Some((first, last)) => occurs_at(bytes@, pattern@, first as int) && last == first + pattern@.len() - 1
                && forall|j: int| 0 <= j < first ==> !occurs_at(bytes@, pattern@, j),
            None => forall|j: int| !occurs_at(bytes@, pattern@, j),
        },
{
    let n = bytes.len();
    match find_bytes(bytes, pattern) {
        Some(index) => Some((index, index + pattern.len() - 1)),
        None => None,
    }
}

} // verus!
