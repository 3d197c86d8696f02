//! Splitting a multipart body into field headers and field data, one step
//! at a time over the buffered bytes.

use vstd::prelude::*;
use crate::framework_http::util::{occurs_at, find_bytes};
use crate::http::request::header::{pair_scan, PairScanOutcome};
use crate::http::request::body::multipartformdata::MultiPartFormDataField;
use crate::text::bytes_eq;

verus! {

/// Whether `data` begins with `prefix`.
pub open spec fn starts_with(data: Seq<u8>, prefix: Seq<u8>) -> bool {
    data.len() >= prefix.len() && data.take(prefix.len() as int) == prefix
}

fn begins_with(data: &[u8], prefix: &[u8]) -> (r: bool)
    ensures
        r == starts_with(data@, prefix@),
{
    if data.len() < prefix.len() {
        return false;
    }
    let head = vstd::slice::slice_subrange(data, 0, prefix.len());
    assert(head@ =~= data@.take(prefix@.len() as int));
    bytes_eq(head, prefix)
}

/// Whether the bytes from `i` to the end are a proper, non-empty start of
/// `pattern`: a delimiter that may go on in bytes not yet read.
pub open spec fn partial_at(data: Seq<u8>, pattern: Seq<u8>, i: int) -> bool {
    &&& 0 <= i < data.len()
    &&& data.len() - i < pattern.len()
    &&& data.skip(i) == pattern.take(data.len() - i)
}

/// Where a delimiter stands in buffered bytes.
pub enum PatternExistResult {
    /// It occurs first at this index.
    Found(usize),
    /// It does not occur, but the bytes from this index on (the first such
    /// index) may begin it.
    MaybeExistOnLastBytesFromLen(usize),
    /// It neither occurs nor may begin at the end.
    Absent,
}

/// The search result for `pattern` in `data`.
pub open spec fn boundary_search(data: Seq<u8>, pattern: Seq<u8>) -> PatternExistResult {
    if exists|i: int| occurs_at(data, pattern, i) && forall|j: int| 0 <= j < i ==> !occurs_at(data, pattern, j) {
        PatternExistResult::Found(
            (choose|i: int| occurs_at(data, pattern, i) && forall|j: int| 0 <= j < i ==> !occurs_at(data, pattern, j))
                as usize,
        )
    } else if exists|i: int| partial_at(data, pattern, i) && forall|j: int| 0 <= j < i ==> !partial_at(data, pattern, j) {
        PatternExistResult::MaybeExistOnLastBytesFromLen(
            (choose|i: int|
                partial_at(data, pattern, i) && forall|j: int| 0 <= j < i ==> !partial_at(data, pattern, j)) as usize,
        )
    } else {
        PatternExistResult::Absent
    }
}

fn tail_begins_pattern(data: &[u8], pattern: &[u8], i: usize) -> (r: bool)
    requires
        i < data@.len(),
        data@.len() - i < pattern@.len(),
    ensures
        r == partial_at(data@, pattern@, i as int),
{
    let tail = vstd::slice::slice_subrange(data, i, data.len());
    let head = vstd::slice::slice_subrange(pattern, 0, data.len() - i);
    assert(tail@ =~= data@.skip(i as int));
    assert(head@ =~= pattern@.take(data@.len() - i));
    bytes_eq(tail, head)
}

/// Looks for the delimiter `pattern` in `data`: where it first occurs, or
/// else where the bytes at the end may begin it.
pub fn found_boundary_in(data: &[u8], pattern: &[u8]) -> (r: PatternExistResult)
    requires
        pattern@.len() > 0,
    ensures
        r == boundary_search(data@, pattern@),
{
    match find_bytes(data, pattern) {
        Some(i) => {
            let ghost c = choose|k: int|
                occurs_at(data@, pattern@, k) && forall|j: int| 0 <= j < k ==> !occurs_at(data@, pattern@, j);
            assert(occurs_at(data@, pattern@, i as int) && forall|j: int|
                0 <= j < i ==> !occurs_at(data@, pattern@, j));
            assert(c == i as int) by {
                if c < i {
                } else if c > i {
                    assert(!occurs_at(data@, pattern@, i as int));
                }
            }
            PatternExistResult::Found(i)
        },
        None => {
            let n = data.len();
            let m = pattern.len();
            let mut i: usize = if n >= m { n - m + 1 } else { 0 };
            assert forall|j: int| 0 <= j < i implies !partial_at(data@, pattern@, j) by {}
            while i < n
                invariant
                    i <= n,
                    n == data@.len(),
                    m == pattern@.len(),
                    m > 0,
                    n >= m ==> i >= n - m + 1,
                    forall|j: int| 0 <= j < i ==> !partial_at(data@, pattern@, j),
                    forall|j: int| !occurs_at(data@, pattern@, j),
                decreases n - i,
            {
                if tail_begins_pattern(data, pattern, i) {
                    let ghost c = choose|k: int|
                        partial_at(data@, pattern@, k) && forall|j: int| 0 <= j < k ==> !partial_at(data@, pattern@, j);
                    assert(partial_at(data@, pattern@, i as int) && forall|j: int|
                        0 <= j < i ==> !partial_at(data@, pattern@, j));
                    assert(c == i as int) by {
                        if c > i {
                            assert(!partial_at(data@, pattern@, i as int));
                        }
                    }
                    return PatternExistResult::MaybeExistOnLastBytesFromLen(i);
                }
                i = i + 1;
            }
            PatternExistResult::Absent
        },
    }
}

/// The multipart delimiter for a boundary: `--` and the boundary.
pub fn compute_delimiter(boundary: &str) -> (r: Vec<u8>)
    ensures
        r@ == seq![45u8, 45u8] + crate::text::utf8(boundary@),
{
    let mut v: Vec<u8> = Vec::new();
    v.push(45);
    v.push(45);
    crate::text::extend_str(&mut v, boundary);
    assert(v@ =~= seq![45u8, 45u8] + crate::text::utf8(boundary@));
    v
}

/// The data without one CR LF at its end.
pub open spec fn shaved(data: Seq<u8>) -> Seq<u8> {
    if data.len() >= 2 && data[data.len() - 2] == 13 && data[data.len() - 1] == 10 {
        data.take(data.len() - 2)
    } else {
        data
    }
}

/// Drops one CR LF at the end of the data, if there is one.
pub fn shave_data(data: &[u8]) -> (r: &[u8])
    ensures
        r@ == shaved(data@),
{
    let n = data.len();
    if n >= 2 && data[n - 2] == 13 && data[n - 1] == 10 {
        let r = vstd::slice::slice_subrange(data, 0, n - 2);
        assert(r@ =~= data@.take(n - 2));
        r
    } else {
        data
    }
}

/// What one look at buffered multipart bytes calls for.
pub enum MultipartStep {
    /// Between fields: after `skipped` bytes (a delimiter and its line end)
    /// a field header block of `header_length` bytes.
    Header { skipped: usize, header_length: usize },
    /// Between fields: after `skipped` bytes, no whole header block yet.
    NeedHeader { skipped: usize },
    /// Inside a field: its next `len` bytes of data; `consumed` bytes are
    /// used up; `field_done` when a delimiter ended the field, `body_done`
    /// when that delimiter was the closing one.
    Data { len: usize, consumed: usize, field_done: bool, body_done: bool },
    /// The closing delimiter's tail: the body ends.
    Finished { consumed: usize },
}

/// The bytes skipped between fields: a delimiter, then a line end, each
/// when present.
pub open spec fn multipart_skip(data: Seq<u8>, delimiter: Seq<u8>) -> int {
    let s1 = if starts_with(data, delimiter) { delimiter.len() as int } else { 0 };
    if starts_with(data.skip(s1), seq![13u8, 10u8]) { s1 + 2 } else { s1 }
}

/// The step that buffered multipart bytes call for, inside a field or
/// between fields.
pub open spec fn multipart_step(data: Seq<u8>, in_field: bool, delimiter: Seq<u8>) -> MultipartStep {
    if !in_field {
        let skip = multipart_skip(data, delimiter);
        let rest = data.skip(skip);
        if rest == seq![45u8, 45u8, 13u8, 10u8] || rest == seq![45u8, 45u8] {
            MultipartStep::Finished { consumed: data.len() as usize }
        } else {
            match pair_scan(rest, rest.len(), 12) {
                PairScanOutcome::Finished(_, n) => MultipartStep::Header {
                    skipped: skip as usize,
                    header_length: n as usize,
                },
                _ => MultipartStep::NeedHeader { skipped: skip as usize },
            }
        }
    } else {
        match boundary_search(data, delimiter) {
            PatternExistResult::Found(index) => {
                let after = index + delimiter.len();
                let len = shaved(data.take(index as int)).len() as usize;
                if starts_with(data.skip(after), seq![13u8, 10u8]) {
                    MultipartStep::Data { len, consumed: (after + 2) as usize, field_done: true, body_done: false }
                } else if starts_with(data.skip(after), seq![45u8, 45u8]) {
                    MultipartStep::Data { len, consumed: (after + 2) as usize, field_done: true, body_done: true }
                } else {
                    MultipartStep::Data { len, consumed: after as usize, field_done: true, body_done: false }
                }
            },
            PatternExistResult::MaybeExistOnLastBytesFromLen(index) => MultipartStep::Data {
                len: index,
                consumed: index,
                field_done: false,
                body_done: false,
            },
            PatternExistResult::Absent => MultipartStep::Data {
                len: data.len() as usize,
                consumed: data.len() as usize,
                field_done: false,
                body_done: false,
            },
        }
    }
}

/// Whether a step can parse the header block it meets: a header scan
/// stays within its line-break counter.
pub open spec fn multipart_step_defined(data: Seq<u8>, in_field: bool, delimiter: Seq<u8>) -> bool {
    let rest = data.skip(multipart_skip(data, delimiter));
    in_field || !(pair_scan(rest, rest.len(), 12) is Overflowed)
}

/// Whether `next_multipart_step` can decide on these bytes.
pub fn multipart_step_is_defined(data: &[u8], in_field: bool, delimiter: &[u8]) -> (r: bool)
    requires
        delimiter@.len() > 0,
    ensures
        r == multipart_step_defined(data@, in_field, delimiter@),
{
    if in_field {
        return true;
    }
    let n = data.len();
    let crlf: &[u8] = &[13, 10];
    let mut skip: usize = 0;
    if begins_with(data, delimiter) {
        skip = delimiter.len();
    }
    let after = vstd::slice::slice_subrange(data, skip, n);
    assert(after@ =~= data@.skip(skip as int));
    if begins_with(after, crlf) {
        skip = skip + 2;
    }
    let rest = vstd::slice::slice_subrange(data, skip, n);
    assert(rest@ =~= data@.skip(skip as int));
    !crate::http::request::header::header_scan_overflows(rest, 12)
}

/// Decides the next step on the buffered bytes of a multipart body, inside
/// a field or between fields. A field's data before its closing delimiter
/// loses the CR LF that precedes the delimiter.
pub fn next_multipart_step(data: &[u8], in_field: bool, delimiter: &[u8]) -> (r: MultipartStep)
    requires
        delimiter@.len() > 0,
        multipart_step_defined(data@, in_field, delimiter@),
    ensures
        r == multipart_step(data@, in_field, delimiter@),
        match r {
            MultipartStep::Header { skipped, header_length } => skipped + header_length <= data@.len(),
            MultipartStep::NeedHeader { skipped } => skipped <= data@.len(),
            MultipartStep::Data { len, consumed, .. } => len <= consumed <= data@.len(),
            MultipartStep::Finished { consumed } => consumed == data@.len(),
        },
{
    let n = data.len();
    let crlf: &[u8] = &[13, 10];
    let dashes: &[u8] = &[45, 45];
    if !in_field {
        let mut skip: usize = 0;
        if begins_with(data, delimiter) {
            skip = delimiter.len();
        }
        let after = vstd::slice::slice_subrange(data, skip, n);
        assert(after@ =~= data@.skip(skip as int));
        if begins_with(after, crlf) {
            skip = skip + 2;
        }
        let rest = vstd::slice::slice_subrange(data, skip, n);
        assert(rest@ =~= data@.skip(skip as int));
        let closing: &[u8] = &[45, 45, 13, 10];
        if bytes_eq(rest, closing) || bytes_eq(rest, dashes) {
            return MultipartStep::Finished { consumed: n };
        }
        match MultiPartFormDataField::new(rest) {
            Some(field) => {
                proof { crate::http::request::header::lemma_pair_scan_finished_len(rest@, rest@.len(), 12); }
                MultipartStep::Header { skipped: skip, header_length: field.field_header_length }
            },
            None => MultipartStep::NeedHeader { skipped: skip },
        }
    } else {
        match found_boundary_in(data, delimiter) {
            PatternExistResult::Found(index) => {
                let before = vstd::slice::slice_subrange(data, 0, index);
                assert(before@ =~= data@.take(index as int));
                let payload = shave_data(before);
                let after = index + delimiter.len();
                let tail = vstd::slice::slice_subrange(data, after, n);
                assert(tail@ =~= data@.skip(after as int));
                if begins_with(tail, crlf) {
                    MultipartStep::Data { len: payload.len(), consumed: after + 2, field_done: true, body_done: false }
                } else if begins_with(tail, dashes) {
                    MultipartStep::Data { len: payload.len(), consumed: after + 2, field_done: true, body_done: true }
                } else {
                    MultipartStep::Data { len: payload.len(), consumed: after, field_done: true, body_done: false }
                }
            },
            PatternExistResult::MaybeExistOnLastBytesFromLen(index) => {
                MultipartStep::Data { len: index, consumed: index, field_done: false, body_done: false }
            },
            PatternExistResult::Absent => MultipartStep::Data {
                len: n,
                consumed: n,
                field_done: false,
                body_done: false,
            },
        }
    }
}

} // verus!
