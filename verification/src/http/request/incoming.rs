//! A request head read from the raw request bytes by `water_http_utils`,
//! held as plain values.

use vstd::prelude::*;
use water_http_utils::request::{CreatingRequestErrors, HttpRequest};
use crate::http::request::header::first_value_where;
use crate::http::request::body::ParsingBodyMechanism;
use crate::http::request::getter::{BodyHandling, body_handling, choose_body_handling};

verus! {

/// Why a request head could not be read.
#[derive(Debug, Clone, Copy, PartialEq, Eq, Structural)]
pub enum IncomingHeadError {
    /// The bytes are not an HTTP request.
    InvalidHttpFormat,
    /// The head does not end within the bytes yet.
    InsufficientDataSoReadMore,
    /// A method, path or version longer than the parser allows.
    DangerousInvalidHttpFormat,
    /// The header lines could not be read.
    InvalidHeadersError,
}

/// A request head: method, path and version, the header lines (name and
/// value bytes, in order), the length of the first line (through its line
/// feed) and of the header block after it.
pub struct IncomingHead {
    pub method: Vec<u8>,
    pub path: Vec<u8>,
    pub version: Vec<u8>,
    pub headers: Vec<(Vec<u8>, Vec<u8>)>,
    pub first_line_length: usize,
    pub headers_length: usize,
}

/// Header lines as byte sequences.
pub open spec fn header_pairs_view(h: Seq<(Vec<u8>, Vec<u8>)>) -> Seq<(Seq<u8>, Seq<u8>)> {
    h.map_values(|p: (Vec<u8>, Vec<u8>)| (p.0@, p.1@))
}

/// A head as plain values.
pub open spec fn head_view(h: IncomingHead) -> (Seq<u8>, Seq<u8>, Seq<u8>, Seq<(Seq<u8>, Seq<u8>)>, nat, nat) {
    (h.method@, h.path@, h.version@, header_pairs_view(h.headers@), h.first_line_length as nat, h.headers_length as nat)
}

/// `water_http_utils::request::HttpRequest::from_incoming_bytes` with room
/// for `HC` header lines: the head it reads, copied into plain values, or
/// its error. Nothing is stated of the result: the parser reads its size
/// limits from a process-wide setting that any code in the process may
/// change (`set_new_http_configurations`), so what comes back depends on
/// more than the bytes. `IncomingRequest::from_parsed` says what the
/// library makes of each outcome.
#[verifier::external_body]
fn parse_incoming_head<const HC: usize>(payload: &[u8]) -> Result<IncomingHead, IncomingHeadError> {
    match HttpRequest::<HC>::from_incoming_bytes::<HC>(payload) {
        Ok(q) => Ok(IncomingHead {
            method: q.method().as_bytes().to_vec(), path: q.path().get_bytes().to_vec(),
            version: q.version().as_bytes().to_vec(),
            headers: q.headers().lines().iter().map(|l| (l.key.as_bytes().to_vec(), l.value.as_bytes().to_vec())).collect(),
            first_line_length: q.first_line().first_line_length, headers_length: q.headers().headers_length,
        }),
        Err(e) => Err(match e {
            CreatingRequestErrors::InvalidHttpFormat => IncomingHeadError::InvalidHttpFormat,
            CreatingRequestErrors::InsufficientDataSoReadMore => IncomingHeadError::InsufficientDataSoReadMore,
            CreatingRequestErrors::DangerousInvalidHttpFormat => IncomingHeadError::DangerousInvalidHttpFormat,
            CreatingRequestErrors::InvalidHeadersError(_) => IncomingHeadError::InvalidHeadersError,
        }),
    }
}

/// `water_http_utils`: reads the request from the bytes, then looks `key`
/// up in `HttpPath::to_query` of its path (pairs after the `?`, split at
/// `&` and `=`, a later key replacing an earlier one). Nothing is stated of
/// the result: the read goes through the same process-wide limits as
/// `parse_incoming_head`. `decode_query_value` says what the library
/// makes of each outcome.
#[verifier::external_body]
fn path_query_value<const HC: usize>(payload: &[u8], key: &str) -> Option<Vec<u8>> {
    let request = HttpRequest::<HC>::from_incoming_bytes::<HC>(payload).ok()?;
    let (_, query) = request.path().to_query()?;
    query.get(key).map(|v| v.as_bytes().to_vec())
}

/// A query value found in a request path, decoded as UTF-8 with invalid
/// sequences replaced; none when none was found.
pub fn decode_query_value(found: Option<Vec<u8>>) -> (r: Option<String>)
    ensures
        match found {
            Some(v) => r matches Some(s) && s@ == crate::text::utf8_lossy_text(v@),
            None => r is None,
        },
{
    match found {
        Some(v) => Some(crate::text::utf8_lossy(v.as_slice())),
        None => None,
    }
}

/// A request head read from the raw bytes of a request.
pub struct IncomingRequest<const HEADERS_COUNT: usize, const PATH_QUERY_COUNT: usize> {
    head: IncomingHead,
    payload: Vec<u8>,
}

/// What reading a request head from the bytes read so far gives.
pub enum FormingRequestResult<const HEADERS_COUNT: usize, const PATH_QUERY_COUNT: usize> {
    /// The head was read.
    Success(IncomingRequest<HEADERS_COUNT, PATH_QUERY_COUNT>),
    /// More bytes must be read first.
    ReadMore,
    /// The bytes are no valid request head.
    Error(IncomingHeadError),
}

/// `Content-Length`, as bytes.
pub open spec fn content_length_name() -> Seq<u8> {
    seq![67u8, 111u8, 110u8, 116u8, 101u8, 110u8, 116u8, 45u8, 76u8, 101u8, 110u8, 103u8, 116u8, 104u8]
}

/// `Content-Type`, as bytes.
pub open spec fn content_type_name() -> Seq<u8> {
    seq![67u8, 111u8, 110u8, 116u8, 101u8, 110u8, 116u8, 45u8, 84u8, 121u8, 112u8, 101u8]
}

/// A byte lower-cased when it is an ASCII capital.
pub open spec fn ascii_lower(b: u8) -> int {
    if 65 <= b <= 90 {
        b + 32
    } else {
        b as int
    }
}

/// Whether two byte sequences are equal but for ASCII case.
pub open spec fn eq_ignore_ascii_case(a: Seq<u8>, b: Seq<u8>) -> bool {
    a.len() == b.len() && forall|i: int| 0 <= i < a.len() ==> ascii_lower(#[trigger] a[i]) == ascii_lower(b[i])
}

/// Whether every byte is an ASCII digit.
pub open spec fn all_digit_bytes(s: Seq<u8>) -> bool {
    forall|i: int| 0 <= i < s.len() ==> 48 <= #[trigger] s[i] <= 57
}

/// The number that ASCII digits write.
pub open spec fn digit_bytes_value(s: Seq<u8>) -> int
    decreases s.len(),
{
    if s.len() == 0 {
        0
    } else {
        digit_bytes_value(s.drop_last()) * 10 + (s.last() - 48)
    }
}

/// What `str::parse::<usize>` gives of the bytes: an optional `+`, then
/// one or more digits whose value fits in `usize`.
pub open spec fn parse_usize_bytes(b: Seq<u8>) -> Option<usize> {
    let d = if b.len() > 0 && b[0] == 43 { b.drop_first() } else { b };
    if d.len() > 0 && all_digit_bytes(d) && digit_bytes_value(d) <= usize::MAX {
        Some(digit_bytes_value(d) as usize)
    } else {
        None
    }
}

fn eq_ignore_case_bytes(a: &[u8], b: &[u8]) -> (r: bool)
    ensures
        r == eq_ignore_ascii_case(a@, b@),
{
    if a.len() != b.len() {
        return false;
    }
    let mut i: usize = 0;
    while i < a.len()
        invariant
            a@.len() == b@.len(),
            i <= a@.len(),
            forall|j: int| 0 <= j < i ==> ascii_lower(#[trigger] a@[j]) == ascii_lower(b@[j]),
        decreases a@.len() - i,
    {
        let x = a[i];
        let y = b[i];
        let lx: u16 = if 65 <= x && x <= 90 { x as u16 + 32 } else { x as u16 };
        let ly: u16 = if 65 <= y && y <= 90 { y as u16 + 32 } else { y as u16 };
        if lx != ly {
            assert(ascii_lower(a@[i as int]) != ascii_lower(b@[i as int]));
            return false;
        }
        i = i + 1;
    }
    true
}

proof fn lemma_digit_bytes_prefix(s: Seq<u8>, j: int)
    requires
        all_digit_bytes(s),
        0 <= j <= s.len(),
    ensures
        0 <= digit_bytes_value(s.take(j)) <= digit_bytes_value(s),
    decreases s.len(),
{
    if s.len() > 0 {
        assert(all_digit_bytes(s.drop_last()));
        if j == s.len() {
            assert(s.take(j) =~= s);
            lemma_digit_bytes_prefix(s.drop_last(), j - 1);
            assert(s.drop_last().take(j - 1) =~= s.drop_last());
        } else {
            lemma_digit_bytes_prefix(s.drop_last(), j);
            assert(s.drop_last().take(j) =~= s.take(j));
            assert(s.drop_last().take(s.len() - 1) =~= s.drop_last());
            lemma_digit_bytes_prefix(s.drop_last(), s.len() - 1);
        }
    } else {
        assert(s.take(j) =~= s);
    }
}

/// Reads an unsigned decimal number from bytes the way `str::parse::<usize>`
/// does.
fn parse_usize(s: &[u8]) -> (r: Option<usize>)
    ensures
        r == parse_usize_bytes(s@),
{
    let mut start: usize = 0;
    if s.len() > 0 && s[0] == 43 {
        start = 1;
    }
    let d = vstd::slice::slice_subrange(s, start, s.len());
    assert(d@ =~= (if s@.len() > 0 && s@[0] == 43 { s@.drop_first() } else { s@ }));
    if d.len() == 0 {
        return None;
    }
    let mut acc: usize = 0;
    let mut i: usize = 0;
    while i < d.len()
        invariant
            i <= d@.len(),
            d@.len() > 0,
            d@ == (if s@.len() > 0 && s@[0] == 43 { s@.drop_first() } else { s@ }),
            all_digit_bytes(d@.take(i as int)),
            acc == digit_bytes_value(d@.take(i as int)),
        decreases d@.len() - i,
    {
        let c = d[i];
        assert(d@.take(i + 1).drop_last() =~= d@.take(i as int));
        assert(d@.take(i + 1).last() == c);
        if !(48 <= c && c <= 57) {
            assert(!(48 <= d@[i as int] <= 57));
            assert(!all_digit_bytes(d@));
            return None;
        }
        let v = (c - 48) as usize;
        assert(digit_bytes_value(d@.take(i + 1)) == acc * 10 + v);
        if acc > (usize::MAX - v) / 10 {
            assert(acc * 10 + v > usize::MAX) by (nonlinear_arith)
                requires
                    acc > (usize::MAX - v) / 10,
                    v <= 9,
            ;
            proof {
                if all_digit_bytes(d@) {
                    lemma_digit_bytes_prefix(d@, i + 1);
                }
            }
            return None;
        }
        assert(acc * 10 + v <= usize::MAX) by (nonlinear_arith)
            requires
                acc <= (usize::MAX - v) / 10,
                v <= 9,
        ;
        acc = acc * 10 + v;
        i = i + 1;
    }
    assert(d@.take(i as int) =~= d@);
    Some(acc)
}

impl<const HEADERS_COUNT: usize, const PATH_QUERY_COUNT: usize> IncomingRequest<HEADERS_COUNT, PATH_QUERY_COUNT> {
    /// The head as plain values.
    pub closed spec fn view_head(&self) -> (Seq<u8>, Seq<u8>, Seq<u8>, Seq<(Seq<u8>, Seq<u8>)>, nat, nat) {
        head_view(self.head)
    }

    /// The bytes the head was read from.
    pub closed spec fn source(&self) -> Seq<u8> {
        self.payload@
    }

    /// What reading a head from `payload` gives once the parser answered
    /// `parsed`: the head, kept with the bytes; `ReadMore` when the bytes
    /// stop before the head ends; otherwise the error.
    pub fn from_parsed(parsed: Result<IncomingHead, IncomingHeadError>, payload: &[u8]) -> (r: FormingRequestResult<
        HEADERS_COUNT,
        PATH_QUERY_COUNT,
    >)
        ensures
            match parsed {
                Ok(h) => r matches FormingRequestResult::Success(q) && q.view_head() == head_view(h) && q.source()
                    == payload@,
                Err(e) => if e == IncomingHeadError::InsufficientDataSoReadMore {
                    r is ReadMore
                } else {
                    r == FormingRequestResult::<HEADERS_COUNT, PATH_QUERY_COUNT>::Error(e)
                },
            },
    {
        match parsed {
            Ok(head) => FormingRequestResult::Success(IncomingRequest { head, payload: vstd::slice::slice_to_vec(payload) }),
            Err(IncomingHeadError::InsufficientDataSoReadMore) => FormingRequestResult::ReadMore,
            Err(e) => FormingRequestResult::Error(e),
        }
    }

    /// Reads the request head at the start of `payload`, with room for
    /// `HEADERS_COUNT` header lines: the head; `ReadMore` when the bytes
    /// stop before it ends; the error when they are no valid head. What
    /// the parser answers is not stated (see `parse_incoming_head`); a head
    /// that comes back is kept with these bytes, and `ReadMore` is never
    /// given as an error.
    pub fn new(payload: &[u8]) -> (r: FormingRequestResult<HEADERS_COUNT, PATH_QUERY_COUNT>)
        ensures
            r matches FormingRequestResult::Success(q) ==> q.source() == payload@,
            r matches FormingRequestResult::Error(e) ==> e != IncomingHeadError::InsufficientDataSoReadMore,
    {
        Self::from_parsed(parse_incoming_head::<HEADERS_COUNT>(payload), payload)
    }

    /// The head, as plain values.
    pub fn head(&self) -> (r: &IncomingHead)
        ensures
            head_view(*r) == self.view_head(),
    {
        &self.head
    }

    /// The request path.
    pub fn path(&self) -> (r: &[u8])
        ensures
            r@ == self.view_head().1,
    {
        self.head.path.as_slice()
    }

    /// The request method.
    pub fn method(&self) -> (r: &[u8])
        ensures
            r@ == self.view_head().0,
    {
        self.head.method.as_slice()
    }

    /// The HTTP version named in the request line.
    pub fn http_version(&self) -> (r: &[u8])
        ensures
            r@ == self.view_head().2,
    {
        self.head.version.as_slice()
    }

    /// The length of the whole head: the first line and the header block.
    pub fn get_total_headers_length(&self) -> (r: usize)
        requires
            self.view_head().4 + self.view_head().5 <= usize::MAX,
        ensures
            r == self.view_head().4 + self.view_head().5,
    {
        self.head.first_line_length + self.head.headers_length
    }

    /// The value of the first header named `name` (in any ASCII case).
    pub fn header_value(&self, name: &[u8]) -> (r: Option<&[u8]>)
        ensures
            match r {
                Some(v) => first_value_where(self.view_head().3, |k: Seq<u8>| eq_ignore_ascii_case(k, name@)) == Some(v@),
                None => first_value_where(self.view_head().3, |k: Seq<u8>| eq_ignore_ascii_case(k, name@)) is None,
            },
    {
        let ghost p = |k: Seq<u8>| eq_ignore_ascii_case(k, name@);
        let ghost all = header_pairs_view(self.head.headers@);
        let mut i: usize = 0;
        assert(all.skip(0) =~= all);
        while i < self.head.headers.len()
            invariant
                i <= self.head.headers@.len(),
                all == header_pairs_view(self.head.headers@),
                all.len() == self.head.headers@.len(),
                p == (|k: Seq<u8>| eq_ignore_ascii_case(k, name@)),
                first_value_where(all, p) == first_value_where(all.skip(i as int), p),
            decreases self.head.headers@.len() - i,
        {
            assert(all.skip(i as int)[0] == all[i as int]);
            if eq_ignore_case_bytes(self.head.headers[i].0.as_slice(), name) {
                return Some(self.head.headers[i].1.as_slice());
            }
            assert(all.skip(i as int).drop_first() =~= all.skip(i + 1));
            i = i + 1;
        }
        assert(all.skip(i as int).len() == 0);
        None
    }

    /// The declared body length: the value of the first header named
    /// `Content-Length` (in any ASCII case), when it reads as a number.
    pub fn content_length(&self) -> (r: Option<usize>)
        ensures
            r == match first_value_where(self.view_head().3, |k: Seq<u8>| eq_ignore_ascii_case(k, content_length_name())) {
                Some(v) => parse_usize_bytes(v),
                None => None,
            },
    {
        let name: [u8; 14] = [67, 111, 110, 116, 101, 110, 116, 45, 76, 101, 110, 103, 116, 104];
        assert(name@ =~= content_length_name());
        match self.header_value(name.as_slice()) {
            Some(v) => parse_usize(v),
            None => None,
        }
    }

    /// The value of the first header named `Content-Type` (in any ASCII
    /// case).
    pub fn content_type(&self) -> (r: Option<&[u8]>)
        ensures
            match r {
                Some(v) => first_value_where(self.view_head().3, |k: Seq<u8>| eq_ignore_ascii_case(k, content_type_name())) == Some(v@),
                None => first_value_where(self.view_head().3, |k: Seq<u8>| eq_ignore_ascii_case(k, content_type_name())) is None,
            },
    {
        let name: [u8; 12] = [67, 111, 110, 116, 101, 110, 116, 45, 84, 121, 112, 101];
        assert(name@ =~= content_type_name());
        self.header_value(name.as_slice())
    }

    /// How this request's body is to be handled, with `buffered` body bytes
    /// read along with the head: by its declared length and type.
    pub fn body_handling(&self, mechanism: &ParsingBodyMechanism, buffered: usize) -> (r: BodyHandling)
        ensures
            r == body_handling(
                *mechanism,
                match first_value_where(self.view_head().3, |k: Seq<u8>| eq_ignore_ascii_case(k, content_length_name())) {
                    Some(v) => parse_usize_bytes(v),
                    None => None,
                },
                buffered as nat,
                first_value_where(self.view_head().3, |k: Seq<u8>| eq_ignore_ascii_case(k, content_type_name())),
            ),
    {
        choose_body_handling(mechanism, self.content_length(), buffered, self.content_type())
    }

    /// The value of `key` in the path's query, decoded as UTF-8 with
    /// invalid sequences replaced. The lookup is made by the outside parser
    /// (see `path_query_value`); a value found comes back decoded.
    pub fn get_from_path_query(&self, key: &str) -> (r: Option<String>)
        ensures
            r matches Some(s) ==> exists|v: Seq<u8>| s@ == #[trigger] crate::text::utf8_lossy_text(v),
    {
        decode_query_value(path_query_value::<HEADERS_COUNT>(self.payload.as_slice(), key))
    }
}

} // verus!
