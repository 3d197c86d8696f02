//! Response heads and whole responses written as raw bytes.

pub mod writer;
pub mod sender;
pub mod file_response;

pub use writer::ResponseData;
pub use sender::{Http1Sender, SendingFileResults, WaterBytes};
pub use file_response::FileRSender;

use vstd::prelude::*;
use crate::text::{utf8, decimal_text, decimal_string, extend_str, extend_bytes};

verus! {

broadcast use vstd::string::group_string_axioms;

/// The HTTP version written in a status line.
pub enum HttpVersion {
    Http1,
    Http1_1,
    Http2,
    Http3,
}

/// The text of a version.
pub open spec fn version_text(v: HttpVersion) -> Seq<char> {
    match v {
        HttpVersion::Http1 => "HTTP/1.0"@,
        HttpVersion::Http1_1 => "HTTP/1.1"@,
        HttpVersion::Http2 => "HTTP/2"@,
        HttpVersion::Http3 => "HTTP/3"@,
    }
}

impl HttpVersion {
    /// The version as text, such as `HTTP/1.1`.
    pub fn to_str(&self) -> (r: &'static str)
        ensures
            r@ == version_text(*self),
    {
        match self {
            HttpVersion::Http1 => "HTTP/1.0",
            HttpVersion::Http1_1 => "HTTP/1.1",
            HttpVersion::Http2 => "HTTP/2",
            HttpVersion::Http3 => "HTTP/3",
        }
    }

    /// The version as UTF-8 bytes.
    pub fn to_bytes(&self) -> (r: &'static [u8])
        ensures
            r@ == utf8(version_text(*self)),
    {
        self.to_str().as_bytes()
    }
}

/// A status code and its reason phrase.
pub struct HttpStatus {
    pub code: u16,
    pub value: String,
}

/// The version and the status of a response.
pub struct FirstLine {
    pub http_version: HttpVersion,
    pub status: HttpStatus,
}

/// The bytes of a status line: version, code and reason, then CR LF.
pub open spec fn first_line_bytes(f: FirstLine) -> Seq<u8> {
    utf8(version_text(f.http_version)) + utf8(" "@) + utf8(decimal_text(f.status.code as nat)) + utf8(" "@)
        + utf8(f.status.value@) + utf8("\r\n"@)
}

/// The bytes of one header line: `key: value` and CR LF.
pub open spec fn header_line_bytes(key: Seq<char>, value: Seq<char>) -> Seq<u8> {
    utf8(key) + utf8(": "@) + utf8(value) + utf8("\r\n"@)
}

impl FirstLine {
    /// The status line as bytes.
    pub fn to_bytes(&self) -> (r: Vec<u8>)
        ensures
            r@ == first_line_bytes(*self),
    {
        let mut bytes: Vec<u8> = Vec::new();
        extend_bytes(&mut bytes, self.http_version.to_bytes());
        extend_str(&mut bytes, " ");
        let code = decimal_string(self.status.code as u64);
        extend_str(&mut bytes, code.as_str());
        extend_str(&mut bytes, " ");
        extend_str(&mut bytes, self.status.value.as_str());
        extend_str(&mut bytes, "\r\n");
        bytes
    }
}

/// A first line with the given version, code and reason.
fn status_line(http_version: HttpVersion, code: u16, value: &str) -> (r: FirstLine)
    ensures
        r.http_version == http_version,
        r.status.code == code,
        r.status.value@ == value@,
{
    FirstLine { http_version, status: HttpStatus { code, value: value.to_string() } }
}

/// A response head kept as a first line and the header lines already
/// written, in order.
pub struct HeaderResponseBuilder {
    first_line: FirstLine,
    data: Vec<u8>,
}

impl HeaderResponseBuilder {
    /// The status line.
    pub closed spec fn line(&self) -> FirstLine {
        self.first_line
    }

    /// The header lines written so far.
    pub closed spec fn fields(&self) -> Seq<u8> {
        self.data@
    }

    /// A head with the given first line and no header line.
    pub fn custom(first_line: FirstLine) -> (r: Self)
        ensures
            r.line() == first_line,
            r.fields() == Seq::<u8>::empty(),
    {
        HeaderResponseBuilder { first_line, data: Vec::new() }
    }

    /// The status line, the header lines and the blank line.
    pub fn to_bytes(&self) -> (r: Vec<u8>)
        ensures
            r@ == first_line_bytes(self.line()) + self.fields() + utf8("\r\n"@),
    {
        let mut f = self.first_line.to_bytes();
        extend_bytes(&mut f, self.data.as_slice());
        extend_str(&mut f, "\r\n");
        f
    }

    /// Appends the header line `key: value`. A key written twice appears
    /// twice.
    pub fn set_header_key_value(&mut self, key: &str, value: &str)
        ensures
            final(self).line() == old(self).line(),
            final(self).fields() == old(self).fields() + header_line_bytes(key@, value@),
    {
        extend_str(&mut self.data, key);
        extend_str(&mut self.data, ": ");
        extend_str(&mut self.data, value);
        extend_str(&mut self.data, "\r\n");
    }

    /// `101 Switching Protocols`, HTTP/1.0.
    pub fn switching_protocols_headers() -> (r: Self)
        ensures
            r.line().http_version == HttpVersion::Http1,
            r.line().status.code == 101,
            r.line().status.value@ == "Switching Protocols"@,
            r.fields() == Seq::<u8>::empty(),
    {
        Self::custom(status_line(HttpVersion::Http1, 101, "Switching Protocols"))
    }

    /// `426 Upgrade Required`, HTTP/1.0.
    pub fn required_h2_protocol_headers() -> (r: Self)
        ensures
            r.line().http_version == HttpVersion::Http1,
            r.line().status.code == 426,
            r.line().status.value@ == "Upgrade Required"@,
            r.fields() == Seq::<u8>::empty(),
    {
        Self::custom(status_line(HttpVersion::Http1, 426, "Upgrade Required"))
    }

    /// `307 Internal Redirect` to `url`, HTTP/1.0.
    pub fn temporary_redirect_header(url: &str) -> (r: Self)
        ensures
            r.line().http_version == HttpVersion::Http1,
            r.line().status.code == 307,
            r.line().status.value@ == "Internal Redirect"@,
            r.fields() == header_line_bytes("Location"@, url@),
    {
        let mut headers = Self::custom(status_line(HttpVersion::Http1, 307, "Internal Redirect"));
        headers.set_header_key_value("Location", url);
        headers
    }

    /// `301 Permanently Redirect` to `url`, HTTP/1.0.
    pub fn permanent_redirect_header(url: &str) -> (r: Self)
        ensures
            r.line().http_version == HttpVersion::Http1,
            r.line().status.code == 301,
            r.line().status.value@ == "Permanently Redirect"@,
            r.fields() == header_line_bytes("Location"@, url@),
    {
        let mut headers = Self::custom(status_line(HttpVersion::Http1, 301, "Permanently Redirect"));
        headers.set_header_key_value("Location", url);
        headers
    }

    /// `302 Found Redirect` to `url`, HTTP/1.0.
    pub fn found_redirect_header(url: &str) -> (r: Self)
        ensures
            r.line().http_version == HttpVersion::Http1,
            r.line().status.code == 302,
            r.line().status.value@ == "Found Redirect"@,
            r.fields() == header_line_bytes("Location"@, url@),
    {
        let mut headers = Self::custom(status_line(HttpVersion::Http1, 302, "Found Redirect"));
        headers.set_header_key_value("Location", url);
        headers
    }

    /// `426 Upgrade Required` asking for an upgrade to h2c.
    pub fn required_h2() -> (r: Self)
        ensures
            r.line().http_version == HttpVersion::Http1,
            r.line().status.code == 426,
            r.line().status.value@ == "Upgrade Required"@,
            r.fields() == header_line_bytes("connection"@, "Upgrade"@) + header_line_bytes("Upgrade"@, "h2c"@),
    {
        let mut headers = Self::required_h2_protocol_headers();
        headers.set_header_key_value("connection", "Upgrade");
        headers.set_header_key_value("Upgrade", "h2c");
        headers
    }

    /// `101 Switching Protocols` to h2c, with an empty body.
    pub fn switch_to_h2c_headers() -> (r: Self)
        ensures
            r.line().http_version == HttpVersion::Http1,
            r.line().status.code == 101,
            r.line().status.value@ == "Switching Protocols"@,
            r.fields() == header_line_bytes("connection"@, "Upgrade"@) + header_line_bytes("Upgrade"@, "h2c"@)
                + header_line_bytes("Content-Length"@, "0"@),
    {
        let mut headers = Self::switching_protocols_headers();
        headers.set_header_key_value("connection", "Upgrade");
        headers.set_header_key_value("Upgrade", "h2c");
        headers.set_header_key_value("Content-Length", "0");
        headers
    }

    /// `400 Bad Request`, HTTP/1.1.
    pub fn bad_request_headers() -> (r: Self)
        ensures
            r.line().http_version == HttpVersion::Http1_1,
            r.line().status.code == 400,
            r.line().status.value@ == "Bad Request"@,
            r.fields() == Seq::<u8>::empty(),
    {
        Self::custom(status_line(HttpVersion::Http1_1, 400, "Bad Request"))
    }

    /// `404 Not Found`, HTTP/1.1.
    pub fn not_found_headers() -> (r: Self)
        ensures
            r.line().http_version == HttpVersion::Http1_1,
            r.line().status.code == 404,
            r.line().status.value@ == "Not Found"@,
            r.fields() == Seq::<u8>::empty(),
    {
        Self::custom(status_line(HttpVersion::Http1_1, 404, "Not Found"))
    }

    /// Replaces the first line; the header lines stay.
    pub fn change_first_line(&mut self, first_line: FirstLine)
        ensures
            final(self).line() == first_line,
            final(self).fields() == old(self).fields(),
    {
        self.first_line = first_line;
    }

    /// Makes the first line `206 Partial`, HTTP/1.1; the header lines stay.
    pub fn change_first_line_to_partial_content(&mut self)
        ensures
            final(self).line().http_version == HttpVersion::Http1_1,
            final(self).line().status.code == 206,
            final(self).line().status.value@ == "Partial"@,
            final(self).fields() == old(self).fields(),
    {
        self.change_first_line(status_line(HttpVersion::Http1_1, 206, "Partial"));
    }

    /// `206 Partial`, HTTP/1.1.
    pub fn success_partial_content() -> (r: Self)
        ensures
            r.line().http_version == HttpVersion::Http1_1,
            r.line().status.code == 206,
            r.line().status.value@ == "Partial"@,
            r.fields() == Seq::<u8>::empty(),
    {
        Self::custom(status_line(HttpVersion::Http1_1, 206, "Partial"))
    }

    /// `200 OK`, HTTP/1.1.
    pub fn success() -> (r: Self)
        ensures
            r.line().http_version == HttpVersion::Http1_1,
            r.line().status.code == 200,
            r.line().status.value@ == "OK"@,
            r.fields() == Seq::<u8>::empty(),
    {
        Self::custom(status_line(HttpVersion::Http1_1, 200, "OK"))
    }
}

/// Where the body of a response comes from.
pub enum HandlingResponseMechanism<'a> {
    /// Files, sent by a file sender rather than as bytes.
    File(&'a [&'a str]),
    /// These bytes.
    NormalResponse(&'a [u8]),
    /// No body.
    NoBody,
}

/// The body part of a response.
pub struct BodyResponseBuilder<'a> {
    mechanism: HandlingResponseMechanism<'a>,
}

impl<'a> BodyResponseBuilder<'a> {
    /// Where the body comes from.
    pub closed spec fn source(&self) -> HandlingResponseMechanism<'a> {
        self.mechanism
    }

    /// A body taken from `mechanism`.
    pub fn new(mechanism: HandlingResponseMechanism<'a>) -> (r: Self)
        ensures
            r.source() == mechanism,
    {
        BodyResponseBuilder { mechanism }
    }
}

/// A whole response: head and body.
pub struct ResponseBuilder<'a> {
    pub headers: HeaderResponseBuilder,
    body: BodyResponseBuilder<'a>,
}

impl<'a> ResponseBuilder<'a> {
    /// The head.
    pub closed spec fn head(&self) -> HeaderResponseBuilder {
        self.headers
    }

    /// Where the body comes from.
    pub closed spec fn body_source(&self) -> HandlingResponseMechanism<'a> {
        self.body.source()
    }

    /// `200 OK` with an empty body and no header line.
    pub fn empty() -> (r: ResponseBuilder<'a>)
        ensures
            r.head().line().status.code == 200,
            r.head().line().status.value@ == "OK"@,
            r.head().line().http_version == HttpVersion::Http1_1,
            r.head().fields() == Seq::<u8>::empty(),
            r.body_source() matches HandlingResponseMechanism::NormalResponse(b) && b@.len() == 0,
    {
        let empty: &[u8] = &[];
        ResponseBuilder {
            headers: HeaderResponseBuilder::success(),
            body: BodyResponseBuilder::new(HandlingResponseMechanism::NormalResponse(empty)),
        }
    }

    /// `200 OK` with `bytes` as body and its `Content-Length`.
    pub fn from_bytes_response(bytes: &'a [u8]) -> (r: ResponseBuilder<'a>)
        ensures
            r.head().line().status.code == 200,
            r.head().line().status.value@ == "OK"@,
            r.head().line().http_version == HttpVersion::Http1_1,
            r.head().fields() == header_line_bytes("Content-Length"@, decimal_text(bytes@.len())),
            r.body_source() == HandlingResponseMechanism::NormalResponse(bytes),
    {
        let mut headers = HeaderResponseBuilder::success();
        let length = decimal_string(bytes.len() as u64);
        headers.set_header_key_value("Content-Length", length.as_str());
        let body = BodyResponseBuilder::new(HandlingResponseMechanism::NormalResponse(bytes));
        ResponseBuilder { headers, body }
    }

    /// `200 OK` with the UTF-8 bytes of `s` as body.
    pub fn from_str(s: &'a str) -> (r: ResponseBuilder<'a>)
        ensures
            r.head().line().status.code == 200,
            r.head().line().status.value@ == "OK"@,
            r.head().line().http_version == HttpVersion::Http1_1,
            r.head().fields() == header_line_bytes("Content-Length"@, decimal_text(utf8(s@).len())),
            r.body_source() matches HandlingResponseMechanism::NormalResponse(b) && b@ == utf8(s@),
    {
        Self::from_bytes_response(s.as_bytes())
    }

    /// `200 OK` with the UTF-8 bytes of `data` as body.
    pub fn from_string_ref(data: &'a String) -> (r: ResponseBuilder<'a>)
        ensures
            r.head().line().status.code == 200,
            r.head().line().status.value@ == "OK"@,
            r.head().line().http_version == HttpVersion::Http1_1,
            r.head().fields() == header_line_bytes("Content-Length"@, decimal_text(utf8(data@).len())),
            r.body_source() matches HandlingResponseMechanism::NormalResponse(b) && b@ == utf8(data@),
    {
        Self::from_bytes_response(data.as_str().as_bytes())
    }

    /// The response as bytes when its body is bytes; `None` for a file or
    /// no body.
    pub fn to_bytes(&self) -> (r: Option<Vec<u8>>)
        ensures
            match self.body_source() {
                HandlingResponseMechanism::NormalResponse(b) => r matches Some(v) && v@ == first_line_bytes(
                    self.head().line(),
                ) + self.head().fields() + utf8("\r\n"@) + b@,
                _ => r is None,
            },
    {
        match &self.body.mechanism {
            HandlingResponseMechanism::NormalResponse(bytes) => {
                let mut res = self.headers.first_line.to_bytes();
                extend_bytes(&mut res, self.headers.data.as_slice());
                extend_str(&mut res, "\r\n");
                extend_bytes(&mut res, bytes);
                Some(res)
            },
            _ => None,
        }
    }
}

} // verus!
