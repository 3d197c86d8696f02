//! The decisions a request context makes around its I/O: which encoding
//! and headers a data response gets, which byte range of a file a `Range`
//! header asks for, the multipart boundary, the body type, and route
//! paths built from templates.

use vstd::prelude::*;
use crate::chars::{split_text, split_chars, contains_text, contains_chars, replace_text, replace_chars, find_text};
use crate::text::{chars_of, string_from_chars, decimal_text, decimal_string, to_lowercase, lowercase_text};
use crate::assoc::{assoc_insert, lemma_assoc_insert};
use crate::framework_http::request::{strings_view, char_vecs_view};
use crate::framework_http::response::{ResponseHeadersBuilder, HttpVersion, mime_for_extension, path_extension_text, path_extension, content_type_from_file_path};
use crate::http::response::sender::{path_file_name, path_file_name_text};
use crate::framework_http::request::multipart_form::HttpMultiPartFormDataField;
use crate::framework_http::request::x_www_form_urlencoded::{XWWWFormUrlEncoded, form_text_pairs};
use crate::text::{utf8_lossy, utf8_lossy_text};
use crate::framework_http::chose_encoding_algorithm::{
    HttpEncodingAlgorithms, header_encoding, detect_encoding_algorithm, zstd_compressed, brotli_compressed,
    gzip_compressed, deflate_compressed, encode_data_with_z_std, encode_data_with_brotli, encode_data_with_gzip,
    encode_data_with_deflate,
};

verus! {

broadcast use vstd::string::group_string_axioms;

/// The current time as an RFC 2822 date in GMT, as `chrono` formats it:
/// `Utc::now()` with `%a, %d %b %Y %H:%M:%S GMT`. Nothing is stated of
/// it: it depends on the clock.
#[verifier::external_body]
fn current_date_rfc2822() -> String {
    chrono::Utc::now().format("%a, %d %b %Y %H:%M:%S GMT").to_string()
}

/// The bytes an encoding makes of a body.
pub open spec fn encoded_body(a: HttpEncodingAlgorithms, bytes: Seq<u8>) -> Seq<u8> {
    match a {
        HttpEncodingAlgorithms::ZStd => zstd_compressed(bytes),
        HttpEncodingAlgorithms::Brotli => brotli_compressed(bytes),
        HttpEncodingAlgorithms::Gzip => gzip_compressed(bytes),
        HttpEncodingAlgorithms::Deflate => deflate_compressed(bytes),
    }
}

/// The `Content-Encoding` name of an encoding.
pub open spec fn encoding_name(a: HttpEncodingAlgorithms) -> Seq<char> {
    match a {
        HttpEncodingAlgorithms::ZStd => "zstd"@,
        HttpEncodingAlgorithms::Brotli => "br"@,
        HttpEncodingAlgorithms::Gzip => "gzip"@,
        HttpEncodingAlgorithms::Deflate => "deflate"@,
    }
}

/// The encoding a data response asks for: one is chosen only for a body of
/// at least `threshold` bytes when the request has `Accept-Encoding`.
pub open spec fn wanted_encoding(len: nat, threshold: u64, accept: Option<Seq<Seq<Seq<char>>>>) -> Option<HttpEncodingAlgorithms> {
    if len >= (threshold as usize) {
        match accept {
            Some(parts) => header_encoding(parts),
            None => None,
        }
    } else {
        None
    }
}

/// The headers of a data response after its status line: the encoding
/// when one is used, the length when the body ends the response, the date.
pub open spec fn data_response_fields(encoding: Option<HttpEncodingAlgorithms>, body_len: nat, end_of_stream: bool, date: Seq<char>) -> Seq<(Seq<char>, Seq<char>)> {
    (match encoding {
        Some(a) => seq![("Content-Encoding"@, encoding_name(a))],
        None => Seq::empty(),
    }) + (if end_of_stream {
        seq![("Content-Length"@, decimal_text(body_len))]
    } else {
        Seq::empty()
    }) + seq![("Date"@, date)]
}

/// How a data response goes out: the head to send first (none once a head
/// was sent), the bytes to write, and the encoding used.
pub struct DataResponse {
    pub headers: Option<ResponseHeadersBuilder>,
    pub payload: Vec<u8>,
    pub encoding: Option<HttpEncodingAlgorithms>,
}

fn encode_with(a: &HttpEncodingAlgorithms, bytes: &[u8]) -> (r: Option<Vec<u8>>)
    ensures
        r is Some,
        r matches Some(v) ==> v@ == encoded_body(*a, bytes@),
{
    let mut data: Vec<u8> = Vec::new();
    let done = match a {
        HttpEncodingAlgorithms::ZStd => encode_data_with_z_std(bytes, &mut data),
        HttpEncodingAlgorithms::Brotli => encode_data_with_brotli(bytes, &mut data),
        HttpEncodingAlgorithms::Gzip => encode_data_with_gzip(bytes, &mut data),
        HttpEncodingAlgorithms::Deflate => encode_data_with_deflate(bytes, &mut data),
    };
    match done {
        Ok(_) => Some(data),
        Err(_) => None,
    }
}

fn encoding_label(a: &HttpEncodingAlgorithms) -> (r: &'static str)
    ensures
        r@ == encoding_name(*a),
{
    match a {
        HttpEncodingAlgorithms::ZStd => "zstd",
        HttpEncodingAlgorithms::Brotli => "br",
        HttpEncodingAlgorithms::Gzip => "gzip",
        HttpEncodingAlgorithms::Deflate => "deflate",
    }
}

/// The accepted encodings a request's `Accept-Encoding` values give.
pub open spec fn accept_view(accept_encoding: Option<&Vec<Vec<String>>>) -> Option<Seq<Seq<Seq<char>>>> {
    match accept_encoding {
        Some(h) => Some(h@.map_values(|inner: Vec<String>| strings_view(inner@))),
        None => None,
    }
}

/// Whether `r` is how `bytes` go out as response data with the given
/// `Date`. Once a head was sent the bytes go as they are. Otherwise a
/// `200 OK` head goes first: with `Content-Encoding` when a large enough
/// body is encoded as `Accept-Encoding` asks, with `Content-Length` when
/// the bytes end the response, and with `Date`; the body written is the
/// encoded bytes when an encoding is used.
pub open spec fn data_response_planned(
    r: DataResponse,
    bytes: Seq<u8>,
    end_of_stream: bool,
    header_sent: bool,
    threshold: u64,
    accept: Option<Seq<Seq<Seq<char>>>>,
    date: Seq<char>,
) -> bool {
    if header_sent {
        r.headers is None && r.payload@ == bytes && r.encoding is None
    } else {
        let body = match r.encoding {
            Some(a) => encoded_body(a, bytes),
            None => bytes,
        };
        &&& r.encoding == wanted_encoding(bytes.len(), threshold, accept)
        &&& r.headers matches Some(h) && h.first_line.status.code == 200 && h.first_line.status.value@ == "OK"@
            && h.first_line.http_version == HttpVersion::Http1_1 && h.header_map() == data_response_fields(
            r.encoding,
            body.len(),
            end_of_stream,
            date,
        )
        &&& r.payload@ == body
    }
}

/// Plans sending `bytes` as response data, with `date` as the `Date`
/// header. A body of at least `threshold` bytes is encoded as
/// `Accept-Encoding` asks.
pub fn plan_data_response(
    bytes: &[u8],
    end_of_stream: bool,
    header_sent: bool,
    threshold: u64,
    accept_encoding: Option<&Vec<Vec<String>>>,
    date: &str,
) -> (r: DataResponse)
    ensures
        data_response_planned(r, bytes@, end_of_stream, header_sent, threshold, accept_view(accept_encoding), date@),
{
    if header_sent {
        return DataResponse { headers: None, payload: vstd::slice::slice_to_vec(bytes), encoding: None };
    }
    let mut headers = ResponseHeadersBuilder::success();
    let mut encoded: Option<Vec<u8>> = None;
    let mut used: Option<HttpEncodingAlgorithms> = None;
    proof {
        reveal_strlit("Content-Encoding");
        reveal_strlit("Content-Length");
        reveal_strlit("Date");
    }
    assert("Content-Encoding"@[8] != "Content-Length"@[8]);
    assert("Content-Encoding"@ != "Content-Length"@);
    assert("Content-Encoding"@.len() != "Date"@.len());
    assert("Content-Length"@.len() != "Date"@.len());
    let ghost m0 = headers.header_map();
    if bytes.len() >= threshold as usize {
        if let Some(accept) = accept_encoding {
            if let Some(a) = detect_encoding_algorithm(accept) {
                if let Some(data) = encode_with(&a, bytes) {
                    proof { lemma_assoc_insert(m0, "Content-Encoding"@, encoding_name(a), 0); }
                    headers.set_header_key_value("Content-Encoding", encoding_label(&a));
                    encoded = Some(data);
                    used = Some(a);
                }
            }
        }
    }
    assert(used == wanted_encoding(bytes@.len(), threshold, accept_view(accept_encoding)));
    let ghost m1 = headers.header_map();
    assert(m1 == match used {
        Some(a) => seq![("Content-Encoding"@, encoding_name(a))],
        None => Seq::<(Seq<char>, Seq<char>)>::empty(),
    });
    let body_len = match &encoded {
        Some(d) => d.len(),
        None => bytes.len(),
    };
    if end_of_stream {
        let length = decimal_string(body_len as u64);
        proof { lemma_assoc_insert(m1, "Content-Length"@, length@, m1.len() as int); }
        headers.set_header_key_value("Content-Length", length.as_str());
    }
    let ghost m2 = headers.header_map();
    assert(m2 == m1 + (if end_of_stream {
        seq![("Content-Length"@, decimal_text(body_len as nat))]
    } else {
        Seq::empty()
    }));
    proof { lemma_assoc_insert(m2, "Date"@, date@, m2.len() as int); }
    headers.set_header_key_value("Date", date);
    assert(headers.header_map() =~= m2.push(("Date"@, date@)));
    let ghost body = if used is Some {
        encoded_body(used->0, bytes@)
    } else {
        bytes@
    };
    assert(body.len() == body_len);
    assert(headers.header_map() =~= data_response_fields(used, body.len(), end_of_stream, date@));
    let payload = match encoded {
        Some(d) => d,
        None => vstd::slice::slice_to_vec(bytes),
    };
    DataResponse { headers: Some(headers), payload, encoding: used }
}

/// What a context keeps of the data it sent: whether its head went out,
/// and how many body bytes (as given, before any encoding) were written.
pub struct DataSendState {
    pub header_sent: bool,
    pub bytes_sent: usize,
}

impl DataSendState {
    /// A fresh context: no head sent, no bytes sent.
    pub fn new() -> (r: Self)
        ensures
            !r.header_sent,
            r.bytes_sent == 0,
    {
        DataSendState { header_sent: false, bytes_sent: 0 }
    }

    /// The state after sending `len` bytes of data over HTTP/1: the head is
    /// marked sent (it went out first if it had not), and the bytes count
    /// grows by `len` when the data was written, else stays.
    pub fn after_data(&self, len: usize, written: bool) -> (r: Self)
        requires
            written ==> self.bytes_sent + len <= usize::MAX,
        ensures
            r.header_sent,
            r.bytes_sent == if written {
                self.bytes_sent + len
            } else {
                self.bytes_sent as int
            },
    {
        DataSendState { header_sent: true, bytes_sent: if written { self.bytes_sent + len } else { self.bytes_sent } }
    }
}

/// Plans sending `bytes` as response data now: as `plan_data_response`,
/// with the current time as the `Date` header.
pub fn plan_data_response_now(
    bytes: &[u8],
    end_of_stream: bool,
    header_sent: bool,
    threshold: u64,
    accept_encoding: Option<&Vec<Vec<String>>>,
) -> (r: DataResponse)
    ensures
        exists|date: Seq<char>|
            #[trigger] data_response_planned(
                r,
                bytes@,
                end_of_stream,
                header_sent,
                threshold,
                accept_view(accept_encoding),
                date,
            ),
{
    let date = current_date_rfc2822();
    let r = plan_data_response(bytes, end_of_stream, header_sent, threshold, accept_encoding, date.as_str());
    assert(data_response_planned(r, bytes@, end_of_stream, header_sent, threshold, accept_view(accept_encoding), date@));
    r
}

/// Whether every character is an ASCII digit.
pub open spec fn all_digits(s: Seq<char>) -> bool {
    forall|i: int| 0 <= i < s.len() ==> '0' <= #[trigger] s[i] <= '9'
}

/// The number that decimal digits write.
pub open spec fn digits_value(s: Seq<char>) -> int
    decreases s.len(),
{
    if s.len() == 0 {
        0
    } else {
        digits_value(s.drop_last()) * 10 + (s.last() as int - 48)
    }
}

/// What `str::parse::<u64>` gives: an optional `+`, then one or more
/// digits whose value fits in `u64`.
pub open spec fn parse_u64_text(s: Seq<char>) -> Option<u64> {
    let d = if s.len() > 0 && s[0] == '+' { s.drop_first() } else { s };
    if d.len() > 0 && all_digits(d) && digits_value(d) <= u64::MAX {
        Some(digits_value(d) as u64)
    } else {
        None
    }
}

proof fn lemma_digits_value_prefix(s: Seq<char>, j: int)
    requires
        all_digits(s),
        0 <= j <= s.len(),
    ensures
        0 <= digits_value(s.take(j)) <= digits_value(s),
    decreases s.len(),
{
    if s.len() > 0 {
        assert(all_digits(s.drop_last()));
        if j == s.len() {
            assert(s.take(j) =~= s);
            lemma_digits_value_prefix(s.drop_last(), j - 1);
            assert(s.drop_last().take(j - 1) =~= s.drop_last());
        } else {
            lemma_digits_value_prefix(s.drop_last(), j);
            assert(s.drop_last().take(j) =~= s.take(j));
            assert(s.drop_last().take(s.len() - 1) =~= s.drop_last());
            lemma_digits_value_prefix(s.drop_last(), s.len() - 1);
        }
    } else {
        assert(s.take(j) =~= s);
    }
}

/// Reads an unsigned decimal number the way `str::parse::<u64>` does.
pub fn parse_u64(s: &[char]) -> (r: Option<u64>)
    ensures
        r == parse_u64_text(s@),
{
    let mut start: usize = 0;
    if s.len() > 0 && s[0] == '+' {
        start = 1;
    }
    let d = vstd::slice::slice_subrange(s, start, s.len());
    assert(d@ =~= (if s@.len() > 0 && s@[0] == '+' { s@.drop_first() } else { s@ }));
    if d.len() == 0 {
        return None;
    }
    let mut acc: u64 = 0;
    let mut i: usize = 0;
    while i < d.len()
        invariant
            i <= d@.len(),
            d@.len() > 0,
            d@ == (if s@.len() > 0 && s@[0] == '+' { s@.drop_first() } else { s@ }),
            all_digits(d@.take(i as int)),
            acc == digits_value(d@.take(i as int)),
        decreases d@.len() - i,
    {
        let c = d[i];
        assert(d@.take(i + 1).drop_last() =~= d@.take(i as int));
        assert(d@.take(i + 1).last() == c);
        if !('0' <= c && c <= '9') {
            assert(!('0' <= d@[i as int] <= '9'));
            assert(!all_digits(d@));
            return None;
        }
        let v = (c as u32 - 48) as u64;
        assert(digits_value(d@.take(i + 1)) == acc * 10 + v);
        if acc > (u64::MAX - v) / 10 {
            assert(acc * 10 + v > u64::MAX) by (nonlinear_arith)
                requires
                    acc > (u64::MAX - v) / 10,
                    v <= 9,
            ;
            proof {
                if all_digits(d@) {
                    lemma_digits_value_prefix(d@, i + 1);
                }
            }
            return None;
        }
        assert(acc * 10 + v <= u64::MAX) by (nonlinear_arith)
            requires
                acc <= (u64::MAX - v) / 10,
                v <= 9,
        ;
        acc = acc * 10 + v;
        i = i + 1;
    }
    assert(d@.take(i as int) =~= d@);
    Some(acc)
}

/// How many bytes past its start a range without an end covers.
pub const SIZE_OF_FILES_WRITE_CHUNK: u64 = 100000;

/// The first and second number text of a `Range` header: in its first
/// `,`-separated part, after the last `=`, the texts around the first `-`
/// (the second empty when there is no `-`).
pub open spec fn range_texts(range: Seq<char>) -> (Seq<char>, Seq<char>) {
    let part = split_text(split_text(range, seq![','])[0], seq!['=']).last();
    let pieces = split_text(part, seq!['-']);
    (pieces[0], if pieces.len() >= 2 { pieces[1] } else { Seq::empty() })
}

/// The start a `Range` header asks for: 0 when it is not a number.
pub open spec fn range_start(range: Seq<char>) -> u64 {
    match parse_u64_text(range_texts(range).0) {
        Some(v) => v,
        None => 0,
    }
}

/// The end a `Range` header asks for: when it is not a number, the start
/// plus the chunk size, at most the file size.
pub open spec fn range_end(range: Seq<char>, file_size: u64) -> int {
    match parse_u64_text(range_texts(range).1) {
        Some(v) => v as int,
        None => {
            let f = range_start(range) + SIZE_OF_FILES_WRITE_CHUNK;
            if file_size >= f { f } else { file_size as int }
        },
    }
}

/// The start a `Range` header asks for, and its end when that is a number.
fn range_numbers(range: &str) -> (r: (u64, Option<u64>))
    ensures
        r.0 == range_start(range@),
        r.1 == parse_u64_text(range_texts(range@).1),
{
    let cs = chars_of(range);
    let comma: [char; 1] = [','];
    let eq: [char; 1] = ['='];
    let dash: [char; 1] = ['-'];
    assert(comma@ =~= seq![',']);
    assert(eq@ =~= seq!['=']);
    assert(dash@ =~= seq!['-']);
    let parts = split_chars(cs.as_slice(), comma.as_slice());
    assert(char_vecs_view(parts@) == parts@.map_values(|v: Vec<char>| v@));
    proof { crate::chars::lemma_split_text_not_empty(range@, seq![',']); }
    let sides = split_chars(parts[0].as_slice(), eq.as_slice());
    assert(char_vecs_view(sides@) == sides@.map_values(|v: Vec<char>| v@));
    proof { crate::chars::lemma_split_text_not_empty(parts@[0]@, seq!['=']); }
    let part = &sides[sides.len() - 1];
    let pieces = split_chars(part.as_slice(), dash.as_slice());
    assert(char_vecs_view(pieces@) == pieces@.map_values(|v: Vec<char>| v@));
    proof { crate::chars::lemma_split_text_not_empty(part@, seq!['-']); }
    let start = match parse_u64(pieces[0].as_slice()) {
        Some(v) => v,
        None => 0,
    };
    let empty: Vec<char> = Vec::new();
    let end_text = if pieces.len() >= 2 { &pieces[1] } else { &empty };
    (start, parse_u64(end_text.as_slice()))
}

/// Whether a `Range` header without an end asks for a start so large that
/// the start plus the chunk size passes the largest `u64` (a header
/// `file_range_from_header` does not take).
pub fn range_end_overflows(range: &str) -> (r: bool)
    ensures
        r == (parse_u64_text(range_texts(range@).1) is None && range_start(range@) + SIZE_OF_FILES_WRITE_CHUNK
            > u64::MAX),
{
    let (start, end) = range_numbers(range);
    end.is_none() && start > u64::MAX - SIZE_OF_FILES_WRITE_CHUNK
}

/// The start and end of the bytes a `Range` header asks for in a file of
/// `file_size` bytes; refused unless the start comes before the end and
/// the end is within the file.
pub fn file_range_from_header(range: &str, file_size: u64) -> (r: Result<(u64, u64), String>)
    requires
        parse_u64_text(range_texts(range@).1) is None ==> range_start(range@) + SIZE_OF_FILES_WRITE_CHUNK <= u64::MAX,
    ensures
        match r {
            Ok((s, e)) => s == range_start(range@) && e == range_end(range@, file_size) && s < e <= file_size,
            Err(m) => !(range_start(range@) < range_end(range@, file_size) <= file_size) && m@
                == "Ranges Not Satisfiable"@,
        },
{
    let (start, end_number) = range_numbers(range);
    let end = match end_number {
        Some(v) => v,
        None => {
            let f = start + SIZE_OF_FILES_WRITE_CHUNK;
            if file_size >= f { f } else { file_size }
        },
    };
    if start == end || start > end || end > file_size {
        return Err("Ranges Not Satisfiable".to_string());
    }
    Ok((start, end))
}

/// Turns a head into the `206 Partial` head of the bytes `start` to `end`
/// of a file: its length (one more than the distance), any origin, the
/// range (of the file's last index), the content type when known, and
/// byte ranges accepted.
pub fn apply_partial_content_headers(
    headers: &mut ResponseHeadersBuilder,
    start: u64,
    end: u64,
    file_size: u64,
    content_type: Option<&str>,
)
    requires
        start < end <= file_size,
        end - start < u64::MAX,
    ensures
        final(headers).first_line.status.code == 206,
        final(headers).first_line.status.value@ == "Partial"@,
        final(headers).first_line.http_version == HttpVersion::Http1_1,
        ({
            let m1 = assoc_insert(old(headers).header_map(), "Content-Length"@, decimal_text((end - start + 1) as nat));
            let m2 = assoc_insert(m1, "Access-Control-Allow-Origin"@, "*"@);
            let m3 = assoc_insert(
                m2,
                "Content-Range"@,
                "bytes "@ + decimal_text(start as nat) + "-"@ + decimal_text(end as nat) + "/"@ + decimal_text(
                    (file_size - 1) as nat,
                ),
            );
            let m4 = match content_type {
                Some(c) => assoc_insert(m3, "Content-Type"@, c@),
                None => m3,
            };
            final(headers).header_map() == assoc_insert(m4, "Accept-Ranges"@, "bytes"@)
        }),
{
    headers.change_first_line_to_partial_content();
    let length = decimal_string(end - start + 1);
    headers.set_header_key_value("Content-Length", length.as_str());
    headers.set_header_key_value("Access-Control-Allow-Origin", "*");
    let mut value = "bytes ".to_string();
    let a = decimal_string(start);
    let b = decimal_string(end);
    let c = decimal_string(file_size - 1);
    value.append(a.as_str());
    value.append("-");
    value.append(b.as_str());
    value.append("/");
    value.append(c.as_str());
    headers.set_header_key_value("Content-Range", value.as_str());
    match content_type {
        Some(ct) => {
            headers.set_header_key_value("Content-Type", ct);
        },
        None => {},
    }
    headers.set_header_key_value("Accept-Ranges", "bytes");
}

/// The first item that names a boundary, in order, as the text after its
/// last `boundary=`.
pub open spec fn boundary_in_items(items: Seq<Seq<char>>) -> Option<Seq<char>>
    decreases items.len(),
{
    if items.len() == 0 {
        None
    } else if contains_text(items[0], "boundary="@) {
        Some(split_text(items[0], "boundary="@).last())
    } else {
        boundary_in_items(items.drop_first())
    }
}

/// The boundary named in a header's parts, the first one found.
pub open spec fn boundary_in_values(parts: Seq<Seq<Seq<char>>>) -> Option<Seq<char>>
    decreases parts.len(),
{
    if parts.len() == 0 {
        None
    } else {
        match boundary_in_items(parts[0]) {
            Some(b) => Some(b),
            None => boundary_in_values(parts.drop_first()),
        }
    }
}

/// The multipart boundary a `Content-Type` header's parts and items name.
pub fn content_boundary(values: &Vec<Vec<String>>) -> (r: Option<String>)
    ensures
        match r {
            Some(b) => boundary_in_values(values@.map_values(|inner: Vec<String>| strings_view(inner@))) == Some(b@),
            None => boundary_in_values(values@.map_values(|inner: Vec<String>| strings_view(inner@))) is None,
        },
{
    let pattern = chars_of("boundary=");
    proof { reveal_strlit("boundary="); }
    let ghost parts = values@.map_values(|inner: Vec<String>| strings_view(inner@));
    let mut k: usize = 0;
    assert(parts.skip(0) =~= parts);
    while k < values.len()
        invariant
            k <= values@.len(),
            pattern@ == "boundary="@,
            parts == values@.map_values(|inner: Vec<String>| strings_view(inner@)),
            boundary_in_values(parts) == boundary_in_values(parts.skip(k as int)),
            pattern@.len() > 0,
        decreases values@.len() - k,
    {
        let items = &values[k];
        let ghost iv = strings_view(items@);
        assert(parts.skip(k as int)[0] == iv);
        assert(parts.skip(k as int).drop_first() =~= parts.skip(k + 1));
        let mut j: usize = 0;
        assert(iv.skip(0) =~= iv);
        while j < items.len()
            invariant
                j <= items@.len(),
                iv == strings_view(items@),
                pattern@ == "boundary="@,
                pattern@.len() > 0,
                boundary_in_items(iv) == boundary_in_items(iv.skip(j as int)),
                k < values@.len(),
                parts == values@.map_values(|inner: Vec<String>| strings_view(inner@)),
                boundary_in_values(parts) == boundary_in_values(parts.skip(k as int)),
                parts.skip(k as int)[0] == iv,
            decreases items@.len() - j,
        {
            let value = chars_of(items[j].as_str());
            assert(iv.skip(j as int)[0] == value@);
            assert(iv.skip(j as int).drop_first() =~= iv.skip(j + 1));
            if contains_chars(value.as_slice(), pattern.as_slice()) {
                let pieces = split_chars(value.as_slice(), pattern.as_slice());
                assert(char_vecs_view(pieces@) == pieces@.map_values(|v: Vec<char>| v@));
                proof { crate::chars::lemma_split_text_not_empty(value@, "boundary="@); }
                return Some(string_from_chars(pieces[pieces.len() - 1].as_slice()));
            }
            j = j + 1;
        }
        k = k + 1;
    }
    None
}

/// The first item of the first part of a header's values.
pub fn first_header_value(values: &Vec<Vec<String>>) -> (r: Option<&String>)
    ensures
        match r {
            Some(s) => values@.len() > 0 && values@[0]@.len() > 0 && s@ == values@[0]@[0]@,
            None => values@.len() == 0 || values@[0]@.len() == 0,
        },
{
    if values.len() > 0 && values[0].len() > 0 {
        Some(&values[0][0])
    } else {
        None
    }
}

/// The route a template and its parameters make: each `{key}` replaced by
/// its value, in order; `None` when a key is missing from the template or
/// the route comes out empty.
pub open spec fn fill_template(template: Seq<char>, options: Seq<(Seq<char>, Seq<char>)>) -> Option<Seq<char>>
    decreases options.len(),
{
    if options.len() == 0 {
        if template.len() > 0 { Some(template) } else { None }
    } else {
        match fill_template(template, options.drop_last()) {
            Some(path) => {
                let pattern = seq!['{'] + options.last().0 + seq!['}'];
                if contains_text(template, pattern) {
                    let next = replace_text(path, pattern, options.last().1);
                    if next.len() > 0 { Some(next) } else { None }
                } else {
                    None
                }
            },
            None => None,
        }
    }
}

/// Fills a route template with parameter values.
pub fn fill_route_template(template: &str, options: Option<&[(&str, &str)]>) -> (r: Option<String>)
    ensures
        match r {
            Some(p) => fill_template(template@, match options {
                Some(o) => o@.map_values(|p: (&str, &str)| (p.0@, p.1@)),
                None => Seq::empty(),
            }) == Some(p@),
            None => fill_template(template@, match options {
                Some(o) => o@.map_values(|p: (&str, &str)| (p.0@, p.1@)),
                None => Seq::empty(),
            }) is None,
        },
{
    let t = chars_of(template);
    let mut path = chars_of(template);
    let opts: &[(&str, &str)] = match options {
        Some(o) => o,
        None => &[],
    };
    let ghost ov = opts@.map_values(|p: (&str, &str)| (p.0@, p.1@));
    assert(ov == match options {
        Some(o) => o@.map_values(|p: (&str, &str)| (p.0@, p.1@)),
        None => Seq::<(Seq<char>, Seq<char>)>::empty(),
    });
    let mut i: usize = 0;
    assert(ov.take(0) =~= Seq::<(Seq<char>, Seq<char>)>::empty());
    if t.len() == 0 {
        proof { lemma_fill_empty(template@, ov); }
        return None;
    }
    while i < opts.len()
        invariant
            i <= opts@.len(),
            t@ == template@,
            t@.len() > 0,
            ov == opts@.map_values(|p: (&str, &str)| (p.0@, p.1@)),
            ov == match options {
                Some(o) => o@.map_values(|p: (&str, &str)| (p.0@, p.1@)),
                None => Seq::<(Seq<char>, Seq<char>)>::empty(),
            },
            fill_template(template@, ov.take(i as int)) == Some(path@),
        decreases opts@.len() - i,
    {
        assert(ov.take(i + 1).drop_last() =~= ov.take(i as int));
        assert(ov.take(i + 1).last() == ov[i as int]);
        let (k, v) = opts[i];
        assert(ov[i as int] == (k@, v@));
        let mut pattern: Vec<char> = Vec::new();
        pattern.push('{');
        let kc = chars_of(k);
        crate::chars::extend_chars(&mut pattern, kc.as_slice());
        pattern.push('}');
        assert(pattern@ =~= seq!['{'] + k@ + seq!['}']);
        if !contains_chars(t.as_slice(), pattern.as_slice()) {
            proof { lemma_fill_none_stays(template@, ov, i as int + 1); }
            return None;
        }
        let vc = chars_of(v);
        path = replace_chars(path.as_slice(), pattern.as_slice(), vc.as_slice());
        if path.len() == 0 {
            proof { lemma_fill_none_stays(template@, ov, i as int + 1); }
            return None;
        }
        i = i + 1;
    }
    assert(ov.take(i as int) =~= ov);
    Some(string_from_chars(path.as_slice()))
}

proof fn lemma_fill_none_stays(template: Seq<char>, ov: Seq<(Seq<char>, Seq<char>)>, i: int)
    requires
        0 <= i <= ov.len(),
        fill_template(template, ov.take(i)) is None,
    ensures
        fill_template(template, ov) is None,
    decreases ov.len() - i,
{
    if i < ov.len() {
        assert(ov.take(i + 1).drop_last() =~= ov.take(i));
        lemma_fill_none_stays(template, ov, i + 1);
    } else {
        assert(ov.take(i) =~= ov);
    }
}

proof fn lemma_fill_empty(template: Seq<char>, ov: Seq<(Seq<char>, Seq<char>)>)
    requires
        template.len() == 0,
    ensures
        fill_template(template, ov) is None,
{
    assert(ov.take(0) =~= Seq::<(Seq<char>, Seq<char>)>::empty());
    lemma_fill_none_stays(template, ov, 0);
}

/// The route registered under `name`, with its parameters filled in.
/// `routes` holds each route name with its path template.
pub fn get_route_by_name(name: &str, options: Option<&[(&str, &str)]>, routes: &Vec<(String, String)>) -> (r: Option<String>)
    ensures
        ({
            let opts = match options {
                Some(o) => o@.map_values(|p: (&str, &str)| (p.0@, p.1@)),
                None => Seq::empty(),
            };
            match crate::assoc::assoc_get(crate::framework_http::request::string_pairs_view(routes@), name@) {
                Some(t) => match r {
                    Some(p) => fill_template(t, opts) == Some(p@),
                    None => fill_template(t, opts) is None,
                },
                None => r is None,
            }
        }),
{
    let ghost m = crate::framework_http::request::string_pairs_view(routes@);
    let mut i: usize = 0;
    assert(m.skip(0) =~= m);
    while i < routes.len()
        invariant
            i <= routes@.len(),
            m == crate::framework_http::request::string_pairs_view(routes@),
            m.len() == routes@.len(),
            crate::assoc::assoc_get(m, name@) == crate::assoc::assoc_get(m.skip(i as int), name@),
        decreases routes@.len() - i,
    {
        assert(m.skip(i as int)[0] == m[i as int]);
        if crate::text::str_eq(routes[i].0.as_str(), name) {
            return fill_route_template(routes[i].1.as_str(), options);
        }
        assert(m.skip(i as int).drop_first() =~= m.skip(i + 1));
        i = i + 1;
    }
    None
}

/// A parsed request body.
pub enum HttpIncomeBody {
    /// The fields of a multipart form, each with its data.
    MultiPartFormat(Vec<(HttpMultiPartFormDataField, Vec<u8>)>),
    /// A url-encoded form.
    XWWWForm(XWWWFormUrlEncoded),
    /// A JSON body, as bytes.
    Json(Vec<u8>),
    /// Any other body, as bytes.
    Unit8Vec(Vec<u8>),
}

/// How a body is read, by its content type.
pub enum BodyKind {
    MultipartForm,
    Json,
    FormUrlEncoded,
    Other,
}

/// The kind of body a content type names (compared in lower case).
pub open spec fn body_kind_of(content_type: Seq<char>) -> BodyKind {
    let l = lowercase_text(content_type);
    if l == "multipart/form-data"@ {
        BodyKind::MultipartForm
    } else if l == "application/json"@ {
        BodyKind::Json
    } else if l == "application/x-www-form-urlencoded"@ {
        BodyKind::FormUrlEncoded
    } else {
        BodyKind::Other
    }
}

/// A content type names each body kind by exactly one name, compared in
/// lower case: `multipart/form-data` is read as a multipart form,
/// `application/json` as JSON, `application/x-www-form-urlencoded` as an
/// url-encoded form, and any other type as none of these.
pub proof fn law_body_kind_by_name(content_type: Seq<char>)
    ensures
        (body_kind_of(content_type) == BodyKind::MultipartForm) <==> lowercase_text(content_type)
            == "multipart/form-data"@,
        (body_kind_of(content_type) == BodyKind::Json) <==> lowercase_text(content_type) == "application/json"@,
        (body_kind_of(content_type) == BodyKind::FormUrlEncoded) <==> lowercase_text(content_type)
            == "application/x-www-form-urlencoded"@,
        (body_kind_of(content_type) == BodyKind::Other) <==> (lowercase_text(content_type)
            != "multipart/form-data"@ && lowercase_text(content_type) != "application/json"@
            && lowercase_text(content_type) != "application/x-www-form-urlencoded"@),
{
    reveal_strlit("multipart/form-data");
    reveal_strlit("application/json");
    reveal_strlit("application/x-www-form-urlencoded");
    assert("multipart/form-data"@.len() != "application/json"@.len());
    assert("multipart/form-data"@.len() != "application/x-www-form-urlencoded"@.len());
    assert("application/json"@.len() != "application/x-www-form-urlencoded"@.len());
}

/// The kind of body a content type names.
pub fn body_kind(content_type: &str) -> (r: BodyKind)
    ensures
        r == body_kind_of(content_type@),
{
    let lower = to_lowercase(content_type);
    if crate::text::str_eq(lower.as_str(), "multipart/form-data") {
        BodyKind::MultipartForm
    } else if crate::text::str_eq(lower.as_str(), "application/json") {
        BodyKind::Json
    } else if crate::text::str_eq(lower.as_str(), "application/x-www-form-urlencoded") {
        BodyKind::FormUrlEncoded
    } else {
        BodyKind::Other
    }
}

/// The parsed body for a JSON or url-encoded content type: the bytes as
/// JSON; or the form read from the bytes (decoded as UTF-8, invalid
/// sequences replaced), or the bytes themselves when no pair is found.
/// Other kinds give none here.
pub fn body_from_bytes(kind: &BodyKind, body: Vec<u8>) -> (r: Option<HttpIncomeBody>)
    ensures
        match *kind {
            BodyKind::Json => r matches Some(HttpIncomeBody::Json(b)) && b@ == body@,
            BodyKind::FormUrlEncoded => if form_text_pairs(utf8_lossy_text(body@)).len() > 0 {
                r matches Some(HttpIncomeBody::XWWWForm(f)) && f.pairs() == form_text_pairs(utf8_lossy_text(body@))
            } else {
                r matches Some(HttpIncomeBody::Unit8Vec(b)) && b@ == body@
            },
            _ => r is None,
        },
{
    match kind {
        BodyKind::Json => Some(HttpIncomeBody::Json(body)),
        BodyKind::FormUrlEncoded => {
            let text = utf8_lossy(body.as_slice());
            match XWWWFormUrlEncoded::from_str(text.as_str()) {
                Ok(f) => Some(HttpIncomeBody::XWWWForm(f)),
                Err(_) => Some(HttpIncomeBody::Unit8Vec(body)),
            }
        },
        _ => None,
    }
}

/// The index of the first field named `key`.
pub open spec fn first_field_named(d: Seq<(crate::framework_http::request::multipart_form::FieldText, Seq<u8>)>, key: Seq<char>) -> Option<int> {
    if exists|i: int| 0 <= i < d.len() && d[i].0.0 == key && forall|j: int| 0 <= j < i ==> d[j].0.0 != key {
        Some(choose|i: int| 0 <= i < d.len() && d[i].0.0 == key && forall|j: int| 0 <= j < i ==> d[j].0.0 != key)
    } else {
        None
    }
}

proof fn lemma_first_field_named(d: Seq<(crate::framework_http::request::multipart_form::FieldText, Seq<u8>)>, key: Seq<char>, i: int)
    requires
        0 <= i < d.len(),
        d[i].0.0 == key,
        forall|j: int| 0 <= j < i ==> d[j].0.0 != key,
    ensures
        first_field_named(d, key) == Some(i),
{
    let c = choose|k: int| 0 <= k < d.len() && d[k].0.0 == key && forall|j: int| 0 <= j < k ==> d[j].0.0 != key;
    assert(0 <= c < d.len() && d[c].0.0 == key && forall|j: int| 0 <= j < c ==> d[j].0.0 != key);
    if c > i {
        assert(d[i].0.0 != key);
    } else if c < i {
        assert(d[c].0.0 != key);
    }
}

/// The bytes a parsed body holds under `key`: the data of the first
/// multipart field with that name, or the form value; none for other
/// bodies.
pub open spec fn body_value_spec(body: HttpIncomeBody, key: Seq<char>) -> Option<Seq<u8>> {
    match body {
        HttpIncomeBody::MultiPartFormat(fields) => {
            let d = crate::framework_http::request::multipart_form::deliveries_view(fields@);
            match first_field_named(d, key) {
                Some(i) => Some(d[i].1),
                None => None,
            }
        },
        HttpIncomeBody::XWWWForm(f) => match crate::assoc::assoc_get(f.pairs(), key) {
            Some(v) => Some(crate::text::utf8(v)),
            None => None,
        },
        _ => None,
    }
}

/// The bytes a parsed body holds under `key`.
pub fn get_from_body<'b>(body: &'b HttpIncomeBody, key: &str) -> (r: Option<&'b [u8]>)
    ensures
        match r {
            Some(v) => body_value_spec(*body, key@) == Some(v@),
            None => body_value_spec(*body, key@) is None,
        },
{
    match body {
        HttpIncomeBody::MultiPartFormat(fields) => {
            let ghost d = crate::framework_http::request::multipart_form::deliveries_view(fields@);
            let mut i: usize = 0;
            while i < fields.len()
                invariant
                    i <= fields@.len(),
                    d == crate::framework_http::request::multipart_form::deliveries_view(fields@),
                    d.len() == fields@.len(),
                    *body == HttpIncomeBody::MultiPartFormat(*fields),
                    forall|j: int| 0 <= j < i ==> d[j].0.0 != key@,
                decreases fields@.len() - i,
            {
                assert(d[i as int].0.0 == fields@[i as int].0.text().0);
                assert(d[i as int].1 == fields@[i as int].1@);
                if crate::text::str_eq(fields[i].0.get_name_key(), key) {
                    proof { lemma_first_field_named(d, key@, i as int); }
                    return Some(fields[i].1.as_slice());
                }
                i = i + 1;
            }
            assert(!exists|k: int|
                0 <= k < d.len() && d[k].0.0 == key@ && forall|j: int| 0 <= j < k ==> d[j].0.0 != key@);
            None
        },
        HttpIncomeBody::XWWWForm(f) => match f.get(key) {
            Some(v) => Some(v.as_str().as_bytes()),
            None => None,
        },
        _ => None,
    }
}

/// Where reading a whole HTTP/1 body starts from the bytes buffered with
/// the headers.
pub enum WholeBodyStart {
    /// No declared length: there is no body to read.
    NoLength,
    /// The buffered bytes already hold the declared length.
    Buffered,
    /// More must be read from the stream.
    ReadMore,
}

/// How reading a whole body starts: with no declared length there is none;
/// when the buffered bytes reach the declared length they are the body;
/// otherwise reading goes on.
pub fn whole_body_start(content_length: Option<usize>, buffered: usize) -> (r: WholeBodyStart)
    ensures
        match content_length {
            None => r is NoLength,
            Some(n) => if buffered >= n {
                r is Buffered
            } else {
                r is ReadMore
            },
        },
{
    match content_length {
        None => WholeBodyStart::NoLength,
        Some(n) => if buffered >= n {
            WholeBodyStart::Buffered
        } else {
            WholeBodyStart::ReadMore
        },
    }
}

/// Whether reading a whole body stops after a read of `read` bytes into a
/// buffer of `capacity`: at the end of the stream, or after a read that did
/// not fill the buffer.
pub fn whole_body_read_done(read: usize, capacity: usize) -> (r: bool)
    ensures
        r == (read == 0 || read < capacity),
{
    read == 0 || read < capacity
}

/// The head of a redirect to `url`: `302 Found Redirect` with `Location`
/// and a `Content-Length` of the one-space body that follows it.
pub fn redirect_head(url: &str) -> (r: ResponseHeadersBuilder)
    ensures
        r.first_line.http_version == HttpVersion::Http1,
        r.first_line.status.code == 302,
        r.first_line.status.value@ == "Found Redirect"@,
        r.header_map() == seq![("Location"@, url@), ("Content-Length"@, "1"@)],
{
    let mut headers = ResponseHeadersBuilder::found_redirect_header(url);
    proof {
        reveal_strlit("Location");
        reveal_strlit("Content-Length");
        reveal_strlit("1");
        assert("Location"@.len() != "Content-Length"@.len());
        assert(seq![("Location"@, url@)][0].0 != "Content-Length"@);
        lemma_assoc_insert(seq![("Location"@, url@)], "Content-Length"@, "1"@, 1);
    }
    headers.set_header_key_value("Content-Length", "1");
    assert(headers.header_map() =~= seq![("Location"@, url@), ("Content-Length"@, "1"@)]);
    headers
}

/// The head of an HTML page of `length` bytes: `200 OK` with its
/// `Content-Type` and `Content-Length`.
pub fn html_head(length: usize) -> (r: ResponseHeadersBuilder)
    ensures
        r.first_line.http_version == HttpVersion::Http1_1,
        r.first_line.status.code == 200,
        r.first_line.status.value@ == "OK"@,
        r.header_map() == seq![
            ("Content-Type"@, "text/html; charset=UTF-8"@),
            ("Content-Length"@, decimal_text(length as nat)),
        ],
{
    let mut headers = ResponseHeadersBuilder::success();
    proof {
        reveal_strlit("Content-Type");
        reveal_strlit("Content-Length");
        lemma_assoc_insert(headers.header_map(), "Content-Type"@, "text/html; charset=UTF-8"@, 0);
    }
    headers.set_header_key_value("Content-Type", "text/html; charset=UTF-8");
    let digits = decimal_string(length as u64);
    assert(headers.header_map() =~= seq![("Content-Type"@, "text/html; charset=UTF-8"@)]);
    assert("Content-Type"@.len() != "Content-Length"@.len());
    proof { lemma_assoc_insert(headers.header_map(), "Content-Length"@, digits@, 1); }
    headers.set_header_key_value("Content-Length", digits.as_str());
    assert(headers.header_map() =~= seq![
        ("Content-Type"@, "text/html; charset=UTF-8"@),
        ("Content-Length"@, decimal_text(length as nat)),
    ]);
    headers
}

/// Whether a request's parameters come from its path query (a `GET`, in
/// any case) rather than from its body.
pub fn params_from_query(method: &str) -> (r: bool)
    ensures
        r == (lowercase_text(method@) == "get"@),
{
    let lower = to_lowercase(method);
    crate::text::str_eq(lower.as_str(), "get")
}

/// The content type a file path calls for, by its extension lower-cased.
pub open spec fn path_mime(path: Seq<char>) -> Option<Seq<char>> {
    mime_for_extension(lowercase_text(match path_extension_text(path) {
        Some(e) => e,
        None => Seq::empty(),
    }))
}

/// What `Debug` writes for a text taken as an `OsStr`: the text in double
/// quotes, with quotes, backslashes and unprintable characters escaped.
pub uninterp spec fn os_str_debug_text(text: Seq<char>) -> Seq<char>;

/// `format!("{:?}")` of the text as an `OsStr` (`Path::as_os_str`). The
/// escaping rules are not restated; the result is named by
/// `os_str_debug_text`.
#[verifier::external_body]
fn os_str_debug(text: &str) -> (r: String)
    ensures
        r@ == os_str_debug_text(text@),
{
    format!("{:?}", std::path::Path::new(text).as_os_str())
}

/// The name a file at `path` is offered for download under: its file name
/// as `Debug` quotes it; for a path without one, `file_downloaded.` and
/// the quoted extension (empty when there is none), quoted again.
pub open spec fn attachment_name_text(path: Seq<char>) -> Seq<char> {
    match path_file_name_text(path) {
        Some(n) => os_str_debug_text(n),
        None => os_str_debug_text(
            "file_downloaded."@ + os_str_debug_text(
                match path_extension_text(path) {
                    Some(e) => e,
                    None => Seq::empty(),
                },
            ),
        ),
    }
}

/// The name a file at `path` is offered for download under.
pub fn attachment_name(path: &str) -> (r: String)
    ensures
        r@ == attachment_name_text(path@),
{
    match path_file_name(path) {
        Some(n) => os_str_debug(n.as_str()),
        None => {
            let ext = match path_extension(path) {
                Some(e) => os_str_debug(e.as_str()),
                None => os_str_debug(""),
            };
            proof { reveal_strlit(""); reveal_strlit("file_downloaded."); }
            assert(""@ =~= Seq::<char>::empty());
            let mut cs = chars_of("file_downloaded.");
            let quoted_ext = chars_of(ext.as_str());
            crate::chars::extend_chars(&mut cs, quoted_ext.as_slice());
            let inner = string_from_chars(cs.as_slice());
            os_str_debug(inner.as_str())
        },
    }
}

/// The head of a file at `path` before its length: `200 OK` with its
/// `Content-Type` when the extension names one; otherwise `400 Bad
/// Request` offering the bytes as a download, with `Accept-Ranges` and the
/// attachment name.
pub fn file_type_head(path: &str) -> (r: ResponseHeadersBuilder)
    ensures
        r.first_line.http_version == HttpVersion::Http1_1,
        match path_mime(path@) {
            Some(m) => {
                &&& r.first_line.status.code == 200
                &&& r.first_line.status.value@ == "OK"@
                &&& r.header_map() == seq![("Content-Type"@, m)]
            },
            None => {
                &&& r.first_line.status.code == 400
                &&& r.first_line.status.value@ == "Bad Request"@
                &&& r.header_map() == seq![
                    ("Content-Type"@, "application/octet-stream"@),
                    ("Accept-Ranges"@, "bytes"@),
                    ("Content-Disposition"@, "attachment; filename="@ + attachment_name_text(path@)),
                ]
            },
        },
{
    proof {
        reveal_strlit("Content-Type");
        reveal_strlit("Accept-Ranges");
        reveal_strlit("Content-Disposition");
    }
    match content_type_from_file_path(path) {
        Some(ct) => {
            let mut h = ResponseHeadersBuilder::success();
            proof { lemma_assoc_insert(h.header_map(), "Content-Type"@, ct@, 0); }
            h.set_header_key_value("Content-Type", ct);
            assert(h.header_map() =~= seq![("Content-Type"@, ct@)]);
            h
        },
        None => {
            let mut h = ResponseHeadersBuilder::bad_request_headers();
            let mut cs = chars_of("attachment; filename=");
            let quoted = attachment_name(path);
            let name = chars_of(quoted.as_str());
            crate::chars::extend_chars(&mut cs, name.as_slice());
            let disposition = string_from_chars(cs.as_slice());
            proof { lemma_assoc_insert(h.header_map(), "Content-Type"@, "application/octet-stream"@, 0); }
            h.set_header_key_value("Content-Type", "application/octet-stream");
            let ghost m1 = h.header_map();
            assert(m1 =~= seq![("Content-Type"@, "application/octet-stream"@)]);
            assert("Content-Type"@.len() != "Accept-Ranges"@.len());
            proof { lemma_assoc_insert(m1, "Accept-Ranges"@, "bytes"@, 1); }
            h.set_header_key_value("Accept-Ranges", "bytes");
            let ghost m2 = h.header_map();
            assert(m2 =~= m1.push(("Accept-Ranges"@, "bytes"@)));
            assert("Content-Type"@.len() != "Content-Disposition"@.len());
            assert("Accept-Ranges"@.len() != "Content-Disposition"@.len());
            proof { lemma_assoc_insert(m2, "Content-Disposition"@, disposition@, 2); }
            h.set_header_key_value("Content-Disposition", disposition.as_str());
            assert(h.header_map() =~= m2.push(("Content-Disposition"@, disposition@)));
            h
        },
    }
}

/// The head of a whole file of `file_size` bytes at `path`: its type head
/// (as `file_type_head` gives it), then its `Content-Length`.
pub fn file_response_head(path: &str, file_size: u64) -> (r: ResponseHeadersBuilder)
    ensures
        r.first_line.http_version == HttpVersion::Http1_1,
        match path_mime(path@) {
            Some(m) => {
                &&& r.first_line.status.code == 200
                &&& r.first_line.status.value@ == "OK"@
                &&& r.header_map() == seq![("Content-Type"@, m), ("Content-Length"@, decimal_text(file_size as nat))]
            },
            None => {
                &&& r.first_line.status.code == 400
                &&& r.first_line.status.value@ == "Bad Request"@
                &&& r.header_map() == seq![
                    ("Content-Type"@, "application/octet-stream"@),
                    ("Accept-Ranges"@, "bytes"@),
                    ("Content-Disposition"@, "attachment; filename="@ + attachment_name_text(path@)),
                    ("Content-Length"@, decimal_text(file_size as nat)),
                ]
            },
        },
{
    let mut h = file_type_head(path);
    let ghost old_map = h.header_map();
    let length = decimal_string(file_size);
    proof {
        reveal_strlit("Content-Type");
        reveal_strlit("Content-Length");
        reveal_strlit("Accept-Ranges");
        reveal_strlit("Content-Disposition");
        let m = old_map;
        assert("Content-Type"@[8] != "Content-Length"@[8]);
        assert("Accept-Ranges"@.len() != "Content-Length"@.len());
        assert("Content-Disposition"@.len() != "Content-Length"@.len());
        assert forall|x: int| 0 <= x < m.len() implies m[x].0 != "Content-Length"@ by {}
        lemma_assoc_insert(m, "Content-Length"@, length@, m.len() as int);
    }
    h.set_header_key_value("Content-Length", length.as_str());
    assert(h.header_map() =~= old_map.push(("Content-Length"@, length@)));
    h
}

} // verus!
