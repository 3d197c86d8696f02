//! Response headers: status lines, header maps, cookies and content types.

use vstd::prelude::*;
use crate::assoc::{assoc_insert, assoc_get, lemma_assoc_insert};
use crate::text::{str_eq, decimal_string, decimal_text, extend_str, extend_bytes, to_lowercase, lowercase_text};

verus! {

broadcast use vstd::string::group_string_axioms;

/// The HTTP version of a response.
pub enum HttpVersion {
    Http1,
    Http1_1,
    Http2,
    Http3,
}

/// A status code and its reason phrase.
pub struct HttpStatus {
    pub code: u16,
    pub value: String,
}

/// The version and the status of a response.
pub struct FirstLine {
    pub http_version: HttpVersion,
    pub status: HttpStatus,
}

/// The header map of a response, as (name, value) character sequences.
pub open spec fn header_views(h: Seq<(String, String)>) -> Seq<(Seq<char>, Seq<char>)> {
    h.map_values(|p: (String, String)| (p.0@, p.1@))
}

/// One `Set-Cookie` header for each cookie, in order.
pub open spec fn cookie_lines(cookies: Seq<HttpRequestCookie>) -> Seq<(Seq<char>, Seq<char>)> {
    cookies.map_values(|c: HttpRequestCookie| ("Set-Cookie"@, c.text()))
}

/// The header lines: `name: value` and CR LF for each header, in order.
pub open spec fn header_lines_bytes(h: Seq<(Seq<char>, Seq<char>)>) -> Seq<u8>
    decreases h.len(),
{
    if h.len() == 0 {
        Seq::empty()
    } else {
        header_lines_bytes(h.drop_last()) + vstd::utf8::encode_utf8(h.last().0)
            + vstd::utf8::encode_utf8(": "@) + vstd::utf8::encode_utf8(h.last().1)
            + vstd::utf8::encode_utf8("\r\n"@)
    }
}

/// The bytes of a response head: an HTTP/1.1 status line, the header
/// lines, and the blank line.
pub open spec fn response_head_bytes(code: u16, reason: Seq<char>, h: Seq<(Seq<char>, Seq<char>)>) -> Seq<u8> {
    vstd::utf8::encode_utf8("HTTP/1.1 "@) + vstd::utf8::encode_utf8(decimal_text(code as nat))
        + vstd::utf8::encode_utf8(" "@) + vstd::utf8::encode_utf8(reason)
        + vstd::utf8::encode_utf8("\r\n"@) + header_lines_bytes(h) + vstd::utf8::encode_utf8("\r\n"@)
}

/// Response headers: a first line and a header map. A name set twice keeps
/// its first place and its last value.
pub struct ResponseHeadersBuilder {
    /// The version, status code and reason phrase.
    pub first_line: FirstLine,
    /// The header names and values.
    pub headers: Vec<(String, String)>,
}

/// A first line with the given version, code and reason.
fn status_line(http_version: HttpVersion, code: u16, value: &str) -> (r: FirstLine)
    ensures
        r.http_version == http_version,
        r.status.code == code,
        r.status.value@ == value@,
{
    FirstLine { http_version, status: HttpStatus { code, value: value.to_string() } }
}

impl ResponseHeadersBuilder {
    /// The headers as (name, value) character sequences.
    pub open spec fn header_map(&self) -> Seq<(Seq<char>, Seq<char>)> {
        header_views(self.headers@)
    }

    /// Headers with the given first line and no header fields.
    pub fn custom(first_line: FirstLine) -> (r: Self)
        ensures
            r.first_line == first_line,
            r.headers@.len() == 0,
    {
        ResponseHeadersBuilder { first_line, headers: Vec::new() }
    }

    /// `101 Switching Protocols`, HTTP/1.0.
    pub fn switching_protocols_headers() -> (r: Self)
        ensures
            r.first_line.http_version == HttpVersion::Http1,
            r.first_line.status.code == 101,
            r.first_line.status.value@ == "Switching Protocols"@,
            r.headers@.len() == 0,
    {
        Self::custom(status_line(HttpVersion::Http1, 101, "Switching Protocols"))
    }

    /// `426 Upgrade Required`, HTTP/1.0.
    pub fn required_h2_protocol_headers() -> (r: Self)
        ensures
            r.first_line.http_version == HttpVersion::Http1,
            r.first_line.status.code == 426,
            r.first_line.status.value@ == "Upgrade Required"@,
            r.headers@.len() == 0,
    {
        Self::custom(status_line(HttpVersion::Http1, 426, "Upgrade Required"))
    }

    /// `307 Internal Redirect` to `url`.
    pub fn temporary_redirect_header(url: &str) -> (r: Self)
        ensures
            r.first_line.http_version == HttpVersion::Http1,
            r.first_line.status.code == 307,
            r.first_line.status.value@ == "Internal Redirect"@,
            r.header_map() == seq![("Location"@, url@)],
    {
        let mut headers = Self::custom(status_line(HttpVersion::Http1, 307, "Internal Redirect"));
        headers.set_header_key_value("Location", url);
        headers
    }

    /// `301 Permanently Redirect` to `url`.
    pub fn permanent_redirect_header(url: &str) -> (r: Self)
        ensures
            r.first_line.http_version == HttpVersion::Http1,
            r.first_line.status.code == 301,
            r.first_line.status.value@ == "Permanently Redirect"@,
            r.header_map() == seq![("Location"@, url@)],
    {
        let mut headers = Self::custom(status_line(HttpVersion::Http1, 301, "Permanently Redirect"));
        headers.set_header_key_value("Location", url);
        headers
    }

    /// `302 Found Redirect` to `url`.
    pub fn found_redirect_header(url: &str) -> (r: Self)
        ensures
            r.first_line.http_version == HttpVersion::Http1,
            r.first_line.status.code == 302,
            r.first_line.status.value@ == "Found Redirect"@,
            r.header_map() == seq![("Location"@, url@)],
    {
        let mut headers = Self::custom(status_line(HttpVersion::Http1, 302, "Found Redirect"));
        headers.set_header_key_value("Location", url);
        headers
    }

    /// `426 Upgrade Required` asking for an upgrade to h2c.
    pub fn required_h2() -> (r: Self)
        ensures
            r.first_line.http_version == HttpVersion::Http1,
            r.first_line.status.code == 426,
            r.first_line.status.value@ == "Upgrade Required"@,
            r.header_map() == assoc_insert(
                seq![("Connection"@, "Upgrade"@)],
                "Upgrade"@,
                "h2c"@,
            ),
    {
        let mut headers = Self::required_h2_protocol_headers();
        headers.set_header_key_value("Connection", "Upgrade");
        headers.set_header_key_value("Upgrade", "h2c");
        headers
    }

    /// `101 Switching Protocols` to h2c, with an empty body.
    pub fn switch_to_h2c_headers() -> (r: Self)
        ensures
            r.first_line.http_version == HttpVersion::Http1,
            r.first_line.status.code == 101,
            r.first_line.status.value@ == "Switching Protocols"@,
            r.header_map() == assoc_insert(
                assoc_insert(seq![("Connection"@, "Upgrade"@)], "Upgrade"@, "h2c"@),
                "Content-Length"@,
                "0"@,
            ),
    {
        let mut headers = Self::switching_protocols_headers();
        headers.set_header_key_value("Connection", "Upgrade");
        headers.set_header_key_value("Upgrade", "h2c");
        headers.set_header_key_value("Content-Length", "0");
        headers
    }

    /// `400 Bad Request`, HTTP/1.1.
    pub fn bad_request_headers() -> (r: Self)
        ensures
            r.first_line.http_version == HttpVersion::Http1_1,
            r.first_line.status.code == 400,
            r.first_line.status.value@ == "Bad Request"@,
            r.headers@.len() == 0,
    {
        Self::custom(status_line(HttpVersion::Http1_1, 400, "Bad Request"))
    }

    /// `404 Not Found`, HTTP/1.1.
    pub fn not_found_headers() -> (r: Self)
        ensures
            r.first_line.http_version == HttpVersion::Http1_1,
            r.first_line.status.code == 404,
            r.first_line.status.value@ == "Not Found"@,
            r.headers@.len() == 0,
    {
        Self::custom(status_line(HttpVersion::Http1_1, 404, "Not Found"))
    }

    /// Replaces the first line, keeping the headers.
    pub fn change_first_line(&mut self, first_line: FirstLine)
        ensures
            final(self).first_line == first_line,
            final(self).headers@ == old(self).headers@,
    {
        self.first_line = first_line;
    }

    /// Makes the status `206 Partial`, HTTP/1.1, keeping the headers.
    pub fn change_first_line_to_partial_content(&mut self)
        ensures
            final(self).first_line.http_version == HttpVersion::Http1_1,
            final(self).first_line.status.code == 206,
            final(self).first_line.status.value@ == "Partial"@,
            final(self).headers@ == old(self).headers@,
    {
        self.change_first_line(status_line(HttpVersion::Http1_1, 206, "Partial"));
    }

    /// `206 Partial`, HTTP/1.1.
    pub fn success_partial_content() -> (r: Self)
        ensures
            r.first_line.http_version == HttpVersion::Http1_1,
            r.first_line.status.code == 206,
            r.first_line.status.value@ == "Partial"@,
            r.headers@.len() == 0,
    {
        Self::custom(status_line(HttpVersion::Http1_1, 206, "Partial"))
    }

    /// `200 OK`, HTTP/1.1.
    pub fn success() -> (r: Self)
        ensures
            r.first_line.http_version == HttpVersion::Http1_1,
            r.first_line.status.code == 200,
            r.first_line.status.value@ == "OK"@,
            r.headers@.len() == 0,
    {
        Self::custom(status_line(HttpVersion::Http1_1, 200, "OK"))
    }

    /// `200 OK` with a Content-Length header.
    pub fn success_with_content_length(content_length: usize) -> (r: Self)
        ensures
            r.first_line.http_version == HttpVersion::Http1_1,
            r.first_line.status.code == 200,
            r.first_line.status.value@ == "OK"@,
            r.header_map() == seq![("Content-Length"@, decimal_text(content_length as nat))],
    {
        let mut headers = Self::success();
        let length = decimal_string(content_length as u64);
        headers.set_header_key_value("Content-Length", length.as_str());
        headers
    }

    /// Sets header `k` to `v`, giving back its previous value. A header
    /// already present keeps its place.
    pub fn set_header_key_value(&mut self, k: &str, v: &str) -> (r: Option<String>)
        ensures
            final(self).first_line == old(self).first_line,
            final(self).header_map() == assoc_insert(old(self).header_map(), k@, v@),
            match r {
                Some(s) => assoc_get(old(self).header_map(), k@) == Some(s@),
                None => assoc_get(old(self).header_map(), k@) is None,
            },
    {
        let ghost m = self.header_map();
        let mut j: usize = 0;
        assert(m.skip(0) =~= m);
        while j < self.headers.len()
            invariant
                j <= self.headers@.len(),
                self.headers@ == old(self).headers@,
                self.first_line == old(self).first_line,
                m == header_views(self.headers@),
                m.len() == self.headers@.len(),
                forall|x: int| 0 <= x < j ==> m[x].0 != k@,
                assoc_get(m, k@) == assoc_get(m.skip(j as int), k@),
            decreases self.headers@.len() - j,
        {
            assert(m.skip(j as int)[0] == m[j as int]);
            if str_eq(self.headers[j].0.as_str(), k) {
                let previous = self.headers[j].1.clone();
                proof { lemma_assoc_insert(m, k@, v@, j as int); }
                self.headers.set(j, (k.to_string(), v.to_string()));
                assert(header_views(self.headers@) =~= m.update(j as int, (k@, v@)));
                return Some(previous);
            }
            assert(m.skip(j as int).drop_first() =~= m.skip(j + 1));
            j = j + 1;
        }
        proof { lemma_assoc_insert(m, k@, v@, j as int); }
        assert(m.skip(j as int).len() == 0);
        self.headers.push((k.to_string(), v.to_string()));
        assert(header_views(self.headers@) =~= m.push((k@, v@)));
        None
    }

    /// Sets the `Set-Cookie` header to the cookie.
    pub fn set_cookie(&mut self, cookie: HttpRequestCookie)
        ensures
            final(self).first_line == old(self).first_line,
            final(self).header_map() == assoc_insert(old(self).header_map(), "Set-Cookie"@, cookie.text()),
    {
        let value = cookie.value();
        self.set_header_key_value("Set-Cookie", value.as_str());
    }

    /// Appends a header line, whatever lines are there already.
    fn append_header(&mut self, k: &str, v: &str)
        ensures
            final(self).first_line == old(self).first_line,
            final(self).header_map() == old(self).header_map().push((k@, v@)),
    {
        let ghost m = self.header_map();
        self.headers.push((k.to_string(), v.to_string()));
        assert(header_views(self.headers@) =~= m.push((k@, v@)));
    }

    /// Sets several cookies: each gives a `Set-Cookie` line of its own,
    /// after the headers already there, in order.
    pub fn set_cookies(&mut self, cookies: Vec<HttpRequestCookie>)
        ensures
            final(self).first_line == old(self).first_line,
            final(self).header_map() == old(self).header_map() + cookie_lines(cookies@),
    {
        let ghost start = self.header_map();
        let ghost all = cookies@;
        let mut i: usize = 0;
        assert(start + cookie_lines(all.take(0)) =~= start);
        while i < cookies.len()
            invariant
                all == cookies@,
                i <= all.len(),
                self.first_line == old(self).first_line,
                start == old(self).header_map(),
                self.header_map() == start + cookie_lines(all.take(i as int)),
            decreases all.len() - i,
        {
            let value = cookies[i].value();
            self.append_header("Set-Cookie", value.as_str());
            assert(cookie_lines(all.take(i + 1)) =~= cookie_lines(all.take(i as int)).push(("Set-Cookie"@, all[i as int].text())));
            assert(start + cookie_lines(all.take(i + 1)) =~= (start + cookie_lines(all.take(i as int))).push(("Set-Cookie"@, all[i as int].text())));
            i = i + 1;
        }
        assert(all.take(all.len() as int) =~= all);
    }

    /// The head bytes: status line, header lines and the blank line. The
    /// status line always says HTTP/1.1.
    pub fn to_bytes(&self) -> (r: Vec<u8>)
        ensures
            r@ == response_head_bytes(self.first_line.status.code, self.first_line.status.value@, self.header_map()),
    {
        let mut bytes: Vec<u8> = Vec::new();
        extend_str(&mut bytes, "HTTP/1.1 ");
        let code = decimal_string(self.first_line.status.code as u64);
        extend_str(&mut bytes, code.as_str());
        extend_str(&mut bytes, " ");
        extend_str(&mut bytes, self.first_line.status.value.as_str());
        extend_str(&mut bytes, "\r\n");
        self.build_headers(&mut bytes);
        extend_str(&mut bytes, "\r\n");
        bytes
    }

    fn build_headers(&self, bytes: &mut Vec<u8>)
        ensures
            final(bytes)@ == old(bytes)@ + header_lines_bytes(self.header_map()),
    {
        let ghost m = self.header_map();
        let mut i: usize = 0;
        assert(m.take(0) =~= Seq::<(Seq<char>, Seq<char>)>::empty());
        assert(old(bytes)@ + header_lines_bytes(m.take(0)) =~= old(bytes)@);
        while i < self.headers.len()
            invariant
                i <= self.headers@.len(),
                m == header_views(self.headers@),
                m.len() == self.headers@.len(),
                bytes@ == old(bytes)@ + header_lines_bytes(m.take(i as int)),
            decreases self.headers@.len() - i,
        {
            extend_str(bytes, self.headers[i].0.as_str());
            extend_str(bytes, ": ");
            extend_str(bytes, self.headers[i].1.as_str());
            extend_str(bytes, "\r\n");
            assert(m.take(i + 1).drop_last() =~= m.take(i as int));
            assert(m.take(i + 1).last() == m[i as int]);
            i = i + 1;
            assert(bytes@ =~= old(bytes)@ + header_lines_bytes(m.take(i as int)));
        }
        assert(m.take(i as int) =~= m);
    }

    /// The head bytes followed by `bytes`.
    pub fn with_body(&self, bytes: &[u8]) -> (r: Vec<u8>)
        ensures
            r@ == response_head_bytes(self.first_line.status.code, self.first_line.status.value@, self.header_map()) + bytes@,
    {
        let mut out = self.to_bytes();
        extend_bytes(&mut out, bytes);
        out
    }
}

/// The text of a cookie: `key=value`, then `; ` and each property.
pub open spec fn cookie_text(key: Seq<char>, value: Seq<char>, children: Seq<Seq<char>>) -> Seq<char>
    decreases children.len(),
{
    if children.len() == 0 {
        key + "="@ + value
    } else {
        cookie_text(key, value, children.drop_last()) + "; "@ + children.last()
    }
}

/// A cookie to send to the client: a key, a value and its properties.
pub struct HttpRequestCookie<'a> {
    key: &'a str,
    value: &'a str,
    children: Vec<&'a str>,
}

impl<'a> HttpRequestCookie<'a> {
    /// The cookie as it goes into a `Set-Cookie` header.
    pub closed spec fn text(&self) -> Seq<char> {
        cookie_text(self.key@, self.value@, self.children@.map_values(|c: &'a str| c@))
    }

    /// `Max-Age=7200`, `path=/`, `httponly` and `samesite=lax`.
    pub fn default_cookies_properties() -> (r: Vec<&'a str>)
        ensures
            r@.len() == 4,
            r@[0]@ == "Max-Age=7200"@,
            r@[1]@ == "path=/"@,
            r@[2]@ == "httponly"@,
            r@[3]@ == "samesite=lax"@,
    {
        vec!["Max-Age=7200", "path=/", "httponly", "samesite=lax"]
    }

    /// A cookie with the default properties.
    pub fn from_key_value(key: &'a str, value: &'a str) -> (r: Self)
        ensures
            r.text() == cookie_text(
                key@,
                value@,
                seq!["Max-Age=7200"@, "path=/"@, "httponly"@, "samesite=lax"@],
            ),
    {
        let r = HttpRequestCookie { key, value, children: Self::default_cookies_properties() };
        assert(r.children@.map_values(|c: &'a str| c@) =~= seq!["Max-Age=7200"@, "path=/"@, "httponly"@, "samesite=lax"@]);
        r
    }

    /// The cookie text: `key=value` followed by `; ` and each property.
    pub fn value(&self) -> (r: String)
        ensures
            r@ == self.text(),
    {
        let ghost cs = self.children@.map_values(|c: &'a str| c@);
        let mut result = String::from_str(self.key);
        result.append("=");
        result.append(self.value);
        let mut i: usize = 0;
        assert(cs.take(0).len() == 0);
        while i < self.children.len()
            invariant
                i <= self.children@.len(),
                cs == self.children@.map_values(|c: &'a str| c@),
                cs.len() == self.children@.len(),
                result@ == cookie_text(self.key@, self.value@, cs.take(i as int)),
            decreases self.children@.len() - i,
        {
            result.append("; ");
            result.append(self.children[i]);
            assert(cs.take(i + 1).drop_last() =~= cs.take(i as int));
            assert(cs.take(i + 1).last() == cs[i as int]);
            i = i + 1;
        }
        assert(cs.take(i as int) =~= cs);
        result
    }
}

/// The content type for a lower-case file extension.
pub open spec fn mime_for_extension(ext: Seq<char>) -> Option<Seq<char>> {
    if ext == "ico"@ {
        Some("image/x-icon"@)
    } else if ext == "txt"@ {
        Some("text/plain"@)
    } else if ext == "html"@ {
        Some("text/html"@)
    } else if ext == "htm"@ {
        Some("text/html"@)
    } else if ext == "css"@ {
        Some("text/css"@)
    } else if ext == "js"@ {
        Some("application/javascript"@)
    } else if ext == "xml"@ {
        Some("application/xml"@)
    } else if ext == "jpeg"@ {
        Some("image/jpeg"@)
    } else if ext == "jpg"@ {
        Some("image/jpeg"@)
    } else if ext == "png"@ {
        Some("image/png"@)
    } else if ext == "gif"@ {
        Some("image/gif"@)
    } else if ext == "bmp"@ {
        Some("image/bmp"@)
    } else if ext == "webp"@ {
        Some("image/webp"@)
    } else if ext == "svg"@ {
        Some("image/svg+xml"@)
    } else if ext == "mp3"@ {
        Some("audio/mpeg"@)
    } else if ext == "wav"@ {
        Some("audio/wav"@)
    } else if ext == "ogg"@ {
        Some("audio/ogg"@)
    } else if ext == "aac"@ {
        Some("audio/aac"@)
    } else if ext == "midi"@ {
        Some("audio/midi"@)
    } else if ext == "mp4"@ {
        Some("video/mp4"@)
    } else if ext == "webm"@ {
        Some("video/webm"@)
    } else if ext == "avi"@ {
        Some("video/x-msvideo"@)
    } else if ext == "mpeg"@ {
        Some("video/mpeg"@)
    } else if ext == "json"@ {
        Some("application/json"@)
    } else if ext == "pdf"@ {
        Some("application/pdf"@)
    } else if ext == "zip"@ {
        Some("application/zip"@)
    } else if ext == "gz"@ {
        Some("application/gzip"@)
    } else if ext == "gzip"@ {
        Some("application/gzip"@)
    } else if ext == "bin"@ {
        Some("application/octet-stream"@)
    } else if ext == "docx"@ {
        Some("application/vnd.openxmlformats-officedocument.wordprocessingml.document"@)
    } else if ext == "xlsx"@ {
        Some("application/vnd.openxmlformats-officedocument.spreadsheetml.sheet"@)
    } else if ext == "pptx"@ {
        Some("application/vnd.openxmlformats-officedocument.presentationml.presentation"@)
    } else if ext == "rtf"@ {
        Some("application/rtf"@)
    } else if ext == "ttf"@ {
        Some("font/ttf"@)
    } else if ext == "otf"@ {
        Some("font/otf"@)
    } else if ext == "woff"@ {
        Some("font/woff"@)
    } else if ext == "woff2"@ {
        Some("font/woff2"@)
    } else if ext == "tar"@ {
        Some("application/x-tar"@)
    } else if ext == "rar"@ {
        Some("application/vnd.rar"@)
    } else {
        None
    }
}

/// Each file extension names its standard content type: `css` is
/// `text/css`, `html` and `htm` are `text/html`, `js` is
/// `application/javascript`, `png` is `image/png`, and so on for every
/// extension listed; any other extension names none.
pub proof fn law_mime_table(ext: Seq<char>)
    ensures
        ext == "ico"@ ==> mime_for_extension(ext) == Some("image/x-icon"@),
        ext == "txt"@ ==> mime_for_extension(ext) == Some("text/plain"@),
        ext == "html"@ ==> mime_for_extension(ext) == Some("text/html"@),
        ext == "htm"@ ==> mime_for_extension(ext) == Some("text/html"@),
        ext == "css"@ ==> mime_for_extension(ext) == Some("text/css"@),
        ext == "js"@ ==> mime_for_extension(ext) == Some("application/javascript"@),
        ext == "xml"@ ==> mime_for_extension(ext) == Some("application/xml"@),
        ext == "jpeg"@ ==> mime_for_extension(ext) == Some("image/jpeg"@),
        ext == "jpg"@ ==> mime_for_extension(ext) == Some("image/jpeg"@),
        ext == "png"@ ==> mime_for_extension(ext) == Some("image/png"@),
        ext == "gif"@ ==> mime_for_extension(ext) == Some("image/gif"@),
        ext == "bmp"@ ==> mime_for_extension(ext) == Some("image/bmp"@),
        ext == "webp"@ ==> mime_for_extension(ext) == Some("image/webp"@),
        ext == "svg"@ ==> mime_for_extension(ext) == Some("image/svg+xml"@),
        ext == "mp3"@ ==> mime_for_extension(ext) == Some("audio/mpeg"@),
        ext == "wav"@ ==> mime_for_extension(ext) == Some("audio/wav"@),
        ext == "ogg"@ ==> mime_for_extension(ext) == Some("audio/ogg"@),
        ext == "aac"@ ==> mime_for_extension(ext) == Some("audio/aac"@),
        ext == "midi"@ ==> mime_for_extension(ext) == Some("audio/midi"@),
        ext == "mp4"@ ==> mime_for_extension(ext) == Some("video/mp4"@),
        ext == "webm"@ ==> mime_for_extension(ext) == Some("video/webm"@),
        ext == "avi"@ ==> mime_for_extension(ext) == Some("video/x-msvideo"@),
        ext == "mpeg"@ ==> mime_for_extension(ext) == Some("video/mpeg"@),
        ext == "json"@ ==> mime_for_extension(ext) == Some("application/json"@),
        ext == "pdf"@ ==> mime_for_extension(ext) == Some("application/pdf"@),
        ext == "zip"@ ==> mime_for_extension(ext) == Some("application/zip"@),
        ext == "gz"@ ==> mime_for_extension(ext) == Some("application/gzip"@),
        ext == "gzip"@ ==> mime_for_extension(ext) == Some("application/gzip"@),
        ext == "bin"@ ==> mime_for_extension(ext) == Some("application/octet-stream"@),
        ext == "docx"@ ==> mime_for_extension(ext) == Some("application/vnd.openxmlformats-officedocument.wordprocessingml.document"@),
        ext == "xlsx"@ ==> mime_for_extension(ext) == Some("application/vnd.openxmlformats-officedocument.spreadsheetml.sheet"@),
        ext == "pptx"@ ==> mime_for_extension(ext) == Some("application/vnd.openxmlformats-officedocument.presentationml.presentation"@),
        ext == "rtf"@ ==> mime_for_extension(ext) == Some("application/rtf"@),
        ext == "ttf"@ ==> mime_for_extension(ext) == Some("font/ttf"@),
        ext == "otf"@ ==> mime_for_extension(ext) == Some("font/otf"@),
        ext == "woff"@ ==> mime_for_extension(ext) == Some("font/woff"@),
        ext == "woff2"@ ==> mime_for_extension(ext) == Some("font/woff2"@),
        ext == "tar"@ ==> mime_for_extension(ext) == Some("application/x-tar"@),
        ext == "rar"@ ==> mime_for_extension(ext) == Some("application/vnd.rar"@),
        !(ext == "ico"@ || ext == "txt"@ || ext == "html"@ || ext == "htm"@ || ext == "css"@ || ext == "js"@ || ext == "xml"@ || ext == "jpeg"@ || ext == "jpg"@ || ext == "png"@ || ext == "gif"@ || ext == "bmp"@ || ext == "webp"@ || ext == "svg"@ || ext == "mp3"@ || ext == "wav"@ || ext == "ogg"@ || ext == "aac"@ || ext == "midi"@ || ext == "mp4"@ || ext == "webm"@ || ext == "avi"@ || ext == "mpeg"@ || ext == "json"@ || ext == "pdf"@ || ext == "zip"@ || ext == "gz"@ || ext == "gzip"@ || ext == "bin"@ || ext == "docx"@ || ext == "xlsx"@ || ext == "pptx"@ || ext == "rtf"@ || ext == "ttf"@ || ext == "otf"@ || ext == "woff"@ || ext == "woff2"@ || ext == "tar"@ || ext == "rar"@) ==> mime_for_extension(ext) is None,
{
    if ext == "ico"@ {
        reveal_strlit("ico");
    }
    if ext == "txt"@ {
        reveal_strlit("txt");
        reveal_strlit("ico");
        assert("txt"@[0] != "ico"@[0]);
    }
    if ext == "html"@ {
        reveal_strlit("html");
        reveal_strlit("ico");
        assert("html"@.len() != "ico"@.len());
        reveal_strlit("txt");
        assert("html"@.len() != "txt"@.len());
    }
    if ext == "htm"@ {
        reveal_strlit("htm");
        reveal_strlit("ico");
        assert("htm"@[0] != "ico"@[0]);
        reveal_strlit("txt");
        assert("htm"@[0] != "txt"@[0]);
        reveal_strlit("html");
        assert("htm"@.len() != "html"@.len());
    }
    if ext == "css"@ {
        reveal_strlit("css");
        reveal_strlit("ico");
        assert("css"@[0] != "ico"@[0]);
        reveal_strlit("txt");
        assert("css"@[0] != "txt"@[0]);
        reveal_strlit("html");
        assert("css"@.len() != "html"@.len());
        reveal_strlit("htm");
        assert("css"@[0] != "htm"@[0]);
    }
    if ext == "js"@ {
        reveal_strlit("js");
        reveal_strlit("ico");
        assert("js"@.len() != "ico"@.len());
        reveal_strlit("txt");
        assert("js"@.len() != "txt"@.len());
        reveal_strlit("html");
        assert("js"@.len() != "html"@.len());
        reveal_strlit("htm");
        assert("js"@.len() != "htm"@.len());
        reveal_strlit("css");
        assert("js"@.len() != "css"@.len());
    }
    if ext == "xml"@ {
        reveal_strlit("xml");
        reveal_strlit("ico");
        assert("xml"@[0] != "ico"@[0]);
        reveal_strlit("txt");
        assert("xml"@[0] != "txt"@[0]);
        reveal_strlit("html");
        assert("xml"@.len() != "html"@.len());
        reveal_strlit("htm");
        assert("xml"@[0] != "htm"@[0]);
        reveal_strlit("css");
        assert("xml"@[0] != "css"@[0]);
        reveal_strlit("js");
        assert("xml"@.len() != "js"@.len());
    }
    if ext == "jpeg"@ {
        reveal_strlit("jpeg");
        reveal_strlit("ico");
        assert("jpeg"@.len() != "ico"@.len());
        reveal_strlit("txt");
        assert("jpeg"@.len() != "txt"@.len());
        reveal_strlit("html");
        assert("jpeg"@[0] != "html"@[0]);
        reveal_strlit("htm");
        assert("jpeg"@.len() != "htm"@.len());
        reveal_strlit("css");
        assert("jpeg"@.len() != "css"@.len());
        reveal_strlit("js");
        assert("jpeg"@.len() != "js"@.len());
        reveal_strlit("xml");
        assert("jpeg"@.len() != "xml"@.len());
    }
    if ext == "jpg"@ {
        reveal_strlit("jpg");
        reveal_strlit("ico");
        assert("jpg"@[0] != "ico"@[0]);
        reveal_strlit("txt");
        assert("jpg"@[0] != "txt"@[0]);
        reveal_strlit("html");
        assert("jpg"@.len() != "html"@.len());
        reveal_strlit("htm");
        assert("jpg"@[0] != "htm"@[0]);
        reveal_strlit("css");
        assert("jpg"@[0] != "css"@[0]);
        reveal_strlit("js");
        assert("jpg"@.len() != "js"@.len());
        reveal_strlit("xml");
        assert("jpg"@[0] != "xml"@[0]);
        reveal_strlit("jpeg");
        assert("jpg"@.len() != "jpeg"@.len());
    }
    if ext == "png"@ {
        reveal_strlit("png");
        reveal_strlit("ico");
        assert("png"@[0] != "ico"@[0]);
        reveal_strlit("txt");
        assert("png"@[0] != "txt"@[0]);
        reveal_strlit("html");
        assert("png"@.len() != "html"@.len());
        reveal_strlit("htm");
        assert("png"@[0] != "htm"@[0]);
        reveal_strlit("css");
        assert("png"@[0] != "css"@[0]);
        reveal_strlit("js");
        assert("png"@.len() != "js"@.len());
        reveal_strlit("xml");
        assert("png"@[0] != "xml"@[0]);
        reveal_strlit("jpeg");
        assert("png"@.len() != "jpeg"@.len());
        reveal_strlit("jpg");
        assert("png"@[0] != "jpg"@[0]);
    }
    if ext == "gif"@ {
        reveal_strlit("gif");
        reveal_strlit("ico");
        assert("gif"@[0] != "ico"@[0]);
        reveal_strlit("txt");
        assert("gif"@[0] != "txt"@[0]);
        reveal_strlit("html");
        assert("gif"@.len() != "html"@.len());
        reveal_strlit("htm");
        assert("gif"@[0] != "htm"@[0]);
        reveal_strlit("css");
        assert("gif"@[0] != "css"@[0]);
        reveal_strlit("js");
        assert("gif"@.len() != "js"@.len());
        reveal_strlit("xml");
        assert("gif"@[0] != "xml"@[0]);
        reveal_strlit("jpeg");
        assert("gif"@.len() != "jpeg"@.len());
        reveal_strlit("jpg");
        assert("gif"@[0] != "jpg"@[0]);
        reveal_strlit("png");
        assert("gif"@[0] != "png"@[0]);
    }
    if ext == "bmp"@ {
        reveal_strlit("bmp");
        reveal_strlit("ico");
        assert("bmp"@[0] != "ico"@[0]);
        reveal_strlit("txt");
        assert("bmp"@[0] != "txt"@[0]);
        reveal_strlit("html");
        assert("bmp"@.len() != "html"@.len());
        reveal_strlit("htm");
        assert("bmp"@[0] != "htm"@[0]);
        reveal_strlit("css");
        assert("bmp"@[0] != "css"@[0]);
        reveal_strlit("js");
        assert("bmp"@.len() != "js"@.len());
        reveal_strlit("xml");
        assert("bmp"@[0] != "xml"@[0]);
        reveal_strlit("jpeg");
        assert("bmp"@.len() != "jpeg"@.len());
        reveal_strlit("jpg");
        assert("bmp"@[0] != "jpg"@[0]);
        reveal_strlit("png");
        assert("bmp"@[0] != "png"@[0]);
        reveal_strlit("gif");
        assert("bmp"@[0] != "gif"@[0]);
    }
    if ext == "webp"@ {
        reveal_strlit("webp");
        reveal_strlit("ico");
        assert("webp"@.len() != "ico"@.len());
        reveal_strlit("txt");
        assert("webp"@.len() != "txt"@.len());
        reveal_strlit("html");
        assert("webp"@[0] != "html"@[0]);
        reveal_strlit("htm");
        assert("webp"@.len() != "htm"@.len());
        reveal_strlit("css");
        assert("webp"@.len() != "css"@.len());
        reveal_strlit("js");
        assert("webp"@.len() != "js"@.len());
        reveal_strlit("xml");
        assert("webp"@.len() != "xml"@.len());
        reveal_strlit("jpeg");
        assert("webp"@[0] != "jpeg"@[0]);
        reveal_strlit("jpg");
        assert("webp"@.len() != "jpg"@.len());
        reveal_strlit("png");
        assert("webp"@.len() != "png"@.len());
        reveal_strlit("gif");
        assert("webp"@.len() != "gif"@.len());
        reveal_strlit("bmp");
        assert("webp"@.len() != "bmp"@.len());
    }
    if ext == "svg"@ {
        reveal_strlit("svg");
        reveal_strlit("ico");
        assert("svg"@[0] != "ico"@[0]);
        reveal_strlit("txt");
        assert("svg"@[0] != "txt"@[0]);
        reveal_strlit("html");
        assert("svg"@.len() != "html"@.len());
        reveal_strlit("htm");
        assert("svg"@[0] != "htm"@[0]);
        reveal_strlit("css");
        assert("svg"@[0] != "css"@[0]);
        reveal_strlit("js");
        assert("svg"@.len() != "js"@.len());
        reveal_strlit("xml");
        assert("svg"@[0] != "xml"@[0]);
        reveal_strlit("jpeg");
        assert("svg"@.len() != "jpeg"@.len());
        reveal_strlit("jpg");
        assert("svg"@[0] != "jpg"@[0]);
        reveal_strlit("png");
        assert("svg"@[0] != "png"@[0]);
        reveal_strlit("gif");
        assert("svg"@[0] != "gif"@[0]);
        reveal_strlit("bmp");
        assert("svg"@[0] != "bmp"@[0]);
        reveal_strlit("webp");
        assert("svg"@.len() != "webp"@.len());
    }
    if ext == "mp3"@ {
        reveal_strlit("mp3");
        reveal_strlit("ico");
        assert("mp3"@[0] != "ico"@[0]);
        reveal_strlit("txt");
        assert("mp3"@[0] != "txt"@[0]);
        reveal_strlit("html");
        assert("mp3"@.len() != "html"@.len());
        reveal_strlit("htm");
        assert("mp3"@[0] != "htm"@[0]);
        reveal_strlit("css");
        assert("mp3"@[0] != "css"@[0]);
        reveal_strlit("js");
        assert("mp3"@.len() != "js"@.len());
        reveal_strlit("xml");
        assert("mp3"@[0] != "xml"@[0]);
        reveal_strlit("jpeg");
        assert("mp3"@.len() != "jpeg"@.len());
        reveal_strlit("jpg");
        assert("mp3"@[0] != "jpg"@[0]);
        reveal_strlit("png");
        assert("mp3"@[0] != "png"@[0]);
        reveal_strlit("gif");
        assert("mp3"@[0] != "gif"@[0]);
        reveal_strlit("bmp");
        assert("mp3"@[0] != "bmp"@[0]);
        reveal_strlit("webp");
        assert("mp3"@.len() != "webp"@.len());
        reveal_strlit("svg");
        assert("mp3"@[0] != "svg"@[0]);
    }
    if ext == "wav"@ {
        reveal_strlit("wav");
        reveal_strlit("ico");
        assert("wav"@[0] != "ico"@[0]);
        reveal_strlit("txt");
        assert("wav"@[0] != "txt"@[0]);
        reveal_strlit("html");
        assert("wav"@.len() != "html"@.len());
        reveal_strlit("htm");
        assert("wav"@[0] != "htm"@[0]);
        reveal_strlit("css");
        assert("wav"@[0] != "css"@[0]);
        reveal_strlit("js");
        assert("wav"@.len() != "js"@.len());
        reveal_strlit("xml");
        assert("wav"@[0] != "xml"@[0]);
        reveal_strlit("jpeg");
        assert("wav"@.len() != "jpeg"@.len());
        reveal_strlit("jpg");
        assert("wav"@[0] != "jpg"@[0]);
        reveal_strlit("png");
        assert("wav"@[0] != "png"@[0]);
        reveal_strlit("gif");
        assert("wav"@[0] != "gif"@[0]);
        reveal_strlit("bmp");
        assert("wav"@[0] != "bmp"@[0]);
        reveal_strlit("webp");
        assert("wav"@.len() != "webp"@.len());
        reveal_strlit("svg");
        assert("wav"@[0] != "svg"@[0]);
        reveal_strlit("mp3");
        assert("wav"@[0] != "mp3"@[0]);
    }
    if ext == "ogg"@ {
        reveal_strlit("ogg");
        reveal_strlit("ico");
        assert("ogg"@[0] != "ico"@[0]);
        reveal_strlit("txt");
        assert("ogg"@[0] != "txt"@[0]);
        reveal_strlit("html");
        assert("ogg"@.len() != "html"@.len());
        reveal_strlit("htm");
        assert("ogg"@[0] != "htm"@[0]);
        reveal_strlit("css");
        assert("ogg"@[0] != "css"@[0]);
        reveal_strlit("js");
        assert("ogg"@.len() != "js"@.len());
        reveal_strlit("xml");
        assert("ogg"@[0] != "xml"@[0]);
        reveal_strlit("jpeg");
        assert("ogg"@.len() != "jpeg"@.len());
        reveal_strlit("jpg");
        assert("ogg"@[0] != "jpg"@[0]);
        reveal_strlit("png");
        assert("ogg"@[0] != "png"@[0]);
        reveal_strlit("gif");
        assert("ogg"@[0] != "gif"@[0]);
        reveal_strlit("bmp");
        assert("ogg"@[0] != "bmp"@[0]);
        reveal_strlit("webp");
        assert("ogg"@.len() != "webp"@.len());
        reveal_strlit("svg");
        assert("ogg"@[0] != "svg"@[0]);
        reveal_strlit("mp3");
        assert("ogg"@[0] != "mp3"@[0]);
        reveal_strlit("wav");
        assert("ogg"@[0] != "wav"@[0]);
    }
    if ext == "aac"@ {
        reveal_strlit("aac");
        reveal_strlit("ico");
        assert("aac"@[0] != "ico"@[0]);
        reveal_strlit("txt");
        assert("aac"@[0] != "txt"@[0]);
        reveal_strlit("html");
        assert("aac"@.len() != "html"@.len());
        reveal_strlit("htm");
        assert("aac"@[0] != "htm"@[0]);
        reveal_strlit("css");
        assert("aac"@[0] != "css"@[0]);
        reveal_strlit("js");
        assert("aac"@.len() != "js"@.len());
        reveal_strlit("xml");
        assert("aac"@[0] != "xml"@[0]);
        reveal_strlit("jpeg");
        assert("aac"@.len() != "jpeg"@.len());
        reveal_strlit("jpg");
        assert("aac"@[0] != "jpg"@[0]);
        reveal_strlit("png");
        assert("aac"@[0] != "png"@[0]);
        reveal_strlit("gif");
        assert("aac"@[0] != "gif"@[0]);
        reveal_strlit("bmp");
        assert("aac"@[0] != "bmp"@[0]);
        reveal_strlit("webp");
        assert("aac"@.len() != "webp"@.len());
        reveal_strlit("svg");
        assert("aac"@[0] != "svg"@[0]);
        reveal_strlit("mp3");
        assert("aac"@[0] != "mp3"@[0]);
        reveal_strlit("wav");
        assert("aac"@[0] != "wav"@[0]);
        reveal_strlit("ogg");
        assert("aac"@[0] != "ogg"@[0]);
    }
    if ext == "midi"@ {
        reveal_strlit("midi");
        reveal_strlit("ico");
        assert("midi"@.len() != "ico"@.len());
        reveal_strlit("txt");
        assert("midi"@.len() != "txt"@.len());
        reveal_strlit("html");
        assert("midi"@[0] != "html"@[0]);
        reveal_strlit("htm");
        assert("midi"@.len() != "htm"@.len());
        reveal_strlit("css");
        assert("midi"@.len() != "css"@.len());
        reveal_strlit("js");
        assert("midi"@.len() != "js"@.len());
        reveal_strlit("xml");
        assert("midi"@.len() != "xml"@.len());
        reveal_strlit("jpeg");
        assert("midi"@[0] != "jpeg"@[0]);
        reveal_strlit("jpg");
        assert("midi"@.len() != "jpg"@.len());
        reveal_strlit("png");
        assert("midi"@.len() != "png"@.len());
        reveal_strlit("gif");
        assert("midi"@.len() != "gif"@.len());
        reveal_strlit("bmp");
        assert("midi"@.len() != "bmp"@.len());
        reveal_strlit("webp");
        assert("midi"@[0] != "webp"@[0]);
        reveal_strlit("svg");
        assert("midi"@.len() != "svg"@.len());
        reveal_strlit("mp3");
        assert("midi"@.len() != "mp3"@.len());
        reveal_strlit("wav");
        assert("midi"@.len() != "wav"@.len());
        reveal_strlit("ogg");
        assert("midi"@.len() != "ogg"@.len());
        reveal_strlit("aac");
        assert("midi"@.len() != "aac"@.len());
    }
    if ext == "mp4"@ {
        reveal_strlit("mp4");
        reveal_strlit("ico");
        assert("mp4"@[0] != "ico"@[0]);
        reveal_strlit("txt");
        assert("mp4"@[0] != "txt"@[0]);
        reveal_strlit("html");
        assert("mp4"@.len() != "html"@.len());
        reveal_strlit("htm");
        assert("mp4"@[0] != "htm"@[0]);
        reveal_strlit("css");
        assert("mp4"@[0] != "css"@[0]);
        reveal_strlit("js");
        assert("mp4"@.len() != "js"@.len());
        reveal_strlit("xml");
        assert("mp4"@[0] != "xml"@[0]);
        reveal_strlit("jpeg");
        assert("mp4"@.len() != "jpeg"@.len());
        reveal_strlit("jpg");
        assert("mp4"@[0] != "jpg"@[0]);
        reveal_strlit("png");
        assert("mp4"@[0] != "png"@[0]);
        reveal_strlit("gif");
        assert("mp4"@[0] != "gif"@[0]);
        reveal_strlit("bmp");
        assert("mp4"@[0] != "bmp"@[0]);
        reveal_strlit("webp");
        assert("mp4"@.len() != "webp"@.len());
        reveal_strlit("svg");
        assert("mp4"@[0] != "svg"@[0]);
        reveal_strlit("mp3");
        assert("mp4"@[2] != "mp3"@[2]);
        reveal_strlit("wav");
        assert("mp4"@[0] != "wav"@[0]);
        reveal_strlit("ogg");
        assert("mp4"@[0] != "ogg"@[0]);
        reveal_strlit("aac");
        assert("mp4"@[0] != "aac"@[0]);
        reveal_strlit("midi");
        assert("mp4"@.len() != "midi"@.len());
    }
    if ext == "webm"@ {
        reveal_strlit("webm");
        reveal_strlit("ico");
        assert("webm"@.len() != "ico"@.len());
        reveal_strlit("txt");
        assert("webm"@.len() != "txt"@.len());
        reveal_strlit("html");
        assert("webm"@[0] != "html"@[0]);
        reveal_strlit("htm");
        assert("webm"@.len() != "htm"@.len());
        reveal_strlit("css");
        assert("webm"@.len() != "css"@.len());
        reveal_strlit("js");
        assert("webm"@.len() != "js"@.len());
        reveal_strlit("xml");
        assert("webm"@.len() != "xml"@.len());
        reveal_strlit("jpeg");
        assert("webm"@[0] != "jpeg"@[0]);
        reveal_strlit("jpg");
        assert("webm"@.len() != "jpg"@.len());
        reveal_strlit("png");
        assert("webm"@.len() != "png"@.len());
        reveal_strlit("gif");
        assert("webm"@.len() != "gif"@.len());
        reveal_strlit("bmp");
        assert("webm"@.len() != "bmp"@.len());
        reveal_strlit("webp");
        assert("webm"@[3] != "webp"@[3]);
        reveal_strlit("svg");
        assert("webm"@.len() != "svg"@.len());
        reveal_strlit("mp3");
        assert("webm"@.len() != "mp3"@.len());
        reveal_strlit("wav");
        assert("webm"@.len() != "wav"@.len());
        reveal_strlit("ogg");
        assert("webm"@.len() != "ogg"@.len());
        reveal_strlit("aac");
        assert("webm"@.len() != "aac"@.len());
        reveal_strlit("midi");
        assert("webm"@[0] != "midi"@[0]);
        reveal_strlit("mp4");
        assert("webm"@.len() != "mp4"@.len());
    }
    if ext == "avi"@ {
        reveal_strlit("avi");
        reveal_strlit("ico");
        assert("avi"@[0] != "ico"@[0]);
        reveal_strlit("txt");
        assert("avi"@[0] != "txt"@[0]);
        reveal_strlit("html");
        assert("avi"@.len() != "html"@.len());
        reveal_strlit("htm");
        assert("avi"@[0] != "htm"@[0]);
        reveal_strlit("css");
        assert("avi"@[0] != "css"@[0]);
        reveal_strlit("js");
        assert("avi"@.len() != "js"@.len());
        reveal_strlit("xml");
        assert("avi"@[0] != "xml"@[0]);
        reveal_strlit("jpeg");
        assert("avi"@.len() != "jpeg"@.len());
        reveal_strlit("jpg");
        assert("avi"@[0] != "jpg"@[0]);
        reveal_strlit("png");
        assert("avi"@[0] != "png"@[0]);
        reveal_strlit("gif");
        assert("avi"@[0] != "gif"@[0]);
        reveal_strlit("bmp");
        assert("avi"@[0] != "bmp"@[0]);
        reveal_strlit("webp");
        assert("avi"@.len() != "webp"@.len());
        reveal_strlit("svg");
        assert("avi"@[0] != "svg"@[0]);
        reveal_strlit("mp3");
        assert("avi"@[0] != "mp3"@[0]);
        reveal_strlit("wav");
        assert("avi"@[0] != "wav"@[0]);
        reveal_strlit("ogg");
        assert("avi"@[0] != "ogg"@[0]);
        reveal_strlit("aac");
        assert("avi"@[1] != "aac"@[1]);
        reveal_strlit("midi");
        assert("avi"@.len() != "midi"@.len());
        reveal_strlit("mp4");
        assert("avi"@[0] != "mp4"@[0]);
        reveal_strlit("webm");
        assert("avi"@.len() != "webm"@.len());
    }
    if ext == "mpeg"@ {
        reveal_strlit("mpeg");
        reveal_strlit("ico");
        assert("mpeg"@.len() != "ico"@.len());
        reveal_strlit("txt");
        assert("mpeg"@.len() != "txt"@.len());
        reveal_strlit("html");
        assert("mpeg"@[0] != "html"@[0]);
        reveal_strlit("htm");
        assert("mpeg"@.len() != "htm"@.len());
        reveal_strlit("css");
        assert("mpeg"@.len() != "css"@.len());
        reveal_strlit("js");
        assert("mpeg"@.len() != "js"@.len());
        reveal_strlit("xml");
        assert("mpeg"@.len() != "xml"@.len());
        reveal_strlit("jpeg");
        assert("mpeg"@[0] != "jpeg"@[0]);
        reveal_strlit("jpg");
        assert("mpeg"@.len() != "jpg"@.len());
        reveal_strlit("png");
        assert("mpeg"@.len() != "png"@.len());
        reveal_strlit("gif");
        assert("mpeg"@.len() != "gif"@.len());
        reveal_strlit("bmp");
        assert("mpeg"@.len() != "bmp"@.len());
        reveal_strlit("webp");
        assert("mpeg"@[0] != "webp"@[0]);
        reveal_strlit("svg");
        assert("mpeg"@.len() != "svg"@.len());
        reveal_strlit("mp3");
        assert("mpeg"@.len() != "mp3"@.len());
        reveal_strlit("wav");
        assert("mpeg"@.len() != "wav"@.len());
        reveal_strlit("ogg");
        assert("mpeg"@.len() != "ogg"@.len());
        reveal_strlit("aac");
        assert("mpeg"@.len() != "aac"@.len());
        reveal_strlit("midi");
        assert("mpeg"@[1] != "midi"@[1]);
        reveal_strlit("mp4");
        assert("mpeg"@.len() != "mp4"@.len());
        reveal_strlit("webm");
        assert("mpeg"@[0] != "webm"@[0]);
        reveal_strlit("avi");
        assert("mpeg"@.len() != "avi"@.len());
    }
    if ext == "json"@ {
        reveal_strlit("json");
        reveal_strlit("ico");
        assert("json"@.len() != "ico"@.len());
        reveal_strlit("txt");
        assert("json"@.len() != "txt"@.len());
        reveal_strlit("html");
        assert("json"@[0] != "html"@[0]);
        reveal_strlit("htm");
        assert("json"@.len() != "htm"@.len());
        reveal_strlit("css");
        assert("json"@.len() != "css"@.len());
        reveal_strlit("js");
        assert("json"@.len() != "js"@.len());
        reveal_strlit("xml");
        assert("json"@.len() != "xml"@.len());
        reveal_strlit("jpeg");
        assert("json"@[1] != "jpeg"@[1]);
        reveal_strlit("jpg");
        assert("json"@.len() != "jpg"@.len());
        reveal_strlit("png");
        assert("json"@.len() != "png"@.len());
        reveal_strlit("gif");
        assert("json"@.len() != "gif"@.len());
        reveal_strlit("bmp");
        assert("json"@.len() != "bmp"@.len());
        reveal_strlit("webp");
        assert("json"@[0] != "webp"@[0]);
        reveal_strlit("svg");
        assert("json"@.len() != "svg"@.len());
        reveal_strlit("mp3");
        assert("json"@.len() != "mp3"@.len());
        reveal_strlit("wav");
        assert("json"@.len() != "wav"@.len());
        reveal_strlit("ogg");
        assert("json"@.len() != "ogg"@.len());
        reveal_strlit("aac");
        assert("json"@.len() != "aac"@.len());
        reveal_strlit("midi");
        assert("json"@[0] != "midi"@[0]);
        reveal_strlit("mp4");
        assert("json"@.len() != "mp4"@.len());
        reveal_strlit("webm");
        assert("json"@[0] != "webm"@[0]);
        reveal_strlit("avi");
        assert("json"@.len() != "avi"@.len());
        reveal_strlit("mpeg");
        assert("json"@[0] != "mpeg"@[0]);
    }
    if ext == "pdf"@ {
        reveal_strlit("pdf");
        reveal_strlit("ico");
        assert("pdf"@[0] != "ico"@[0]);
        reveal_strlit("txt");
        assert("pdf"@[0] != "txt"@[0]);
        reveal_strlit("html");
        assert("pdf"@.len() != "html"@.len());
        reveal_strlit("htm");
        assert("pdf"@[0] != "htm"@[0]);
        reveal_strlit("css");
        assert("pdf"@[0] != "css"@[0]);
        reveal_strlit("js");
        assert("pdf"@.len() != "js"@.len());
        reveal_strlit("xml");
        assert("pdf"@[0] != "xml"@[0]);
        reveal_strlit("jpeg");
        assert("pdf"@.len() != "jpeg"@.len());
        reveal_strlit("jpg");
        assert("pdf"@[0] != "jpg"@[0]);
        reveal_strlit("png");
        assert("pdf"@[1] != "png"@[1]);
        reveal_strlit("gif");
        assert("pdf"@[0] != "gif"@[0]);
        reveal_strlit("bmp");
        assert("pdf"@[0] != "bmp"@[0]);
        reveal_strlit("webp");
        assert("pdf"@.len() != "webp"@.len());
        reveal_strlit("svg");
        assert("pdf"@[0] != "svg"@[0]);
        reveal_strlit("mp3");
        assert("pdf"@[0] != "mp3"@[0]);
        reveal_strlit("wav");
        assert("pdf"@[0] != "wav"@[0]);
        reveal_strlit("ogg");
        assert("pdf"@[0] != "ogg"@[0]);
        reveal_strlit("aac");
        assert("pdf"@[0] != "aac"@[0]);
        reveal_strlit("midi");
        assert("pdf"@.len() != "midi"@.len());
        reveal_strlit("mp4");
        assert("pdf"@[0] != "mp4"@[0]);
        reveal_strlit("webm");
        assert("pdf"@.len() != "webm"@.len());
        reveal_strlit("avi");
        assert("pdf"@[0] != "avi"@[0]);
        reveal_strlit("mpeg");
        assert("pdf"@.len() != "mpeg"@.len());
        reveal_strlit("json");
        assert("pdf"@.len() != "json"@.len());
    }
    if ext == "zip"@ {
        reveal_strlit("zip");
        reveal_strlit("ico");
        assert("zip"@[0] != "ico"@[0]);
        reveal_strlit("txt");
        assert("zip"@[0] != "txt"@[0]);
        reveal_strlit("html");
        assert("zip"@.len() != "html"@.len());
        reveal_strlit("htm");
        assert("zip"@[0] != "htm"@[0]);
        reveal_strlit("css");
        assert("zip"@[0] != "css"@[0]);
        reveal_strlit("js");
        assert("zip"@.len() != "js"@.len());
        reveal_strlit("xml");
        assert("zip"@[0] != "xml"@[0]);
        reveal_strlit("jpeg");
        assert("zip"@.len() != "jpeg"@.len());
        reveal_strlit("jpg");
        assert("zip"@[0] != "jpg"@[0]);
        reveal_strlit("png");
        assert("zip"@[0] != "png"@[0]);
        reveal_strlit("gif");
        assert("zip"@[0] != "gif"@[0]);
        reveal_strlit("bmp");
        assert("zip"@[0] != "bmp"@[0]);
        reveal_strlit("webp");
        assert("zip"@.len() != "webp"@.len());
        reveal_strlit("svg");
        assert("zip"@[0] != "svg"@[0]);
        reveal_strlit("mp3");
        assert("zip"@[0] != "mp3"@[0]);
        reveal_strlit("wav");
        assert("zip"@[0] != "wav"@[0]);
        reveal_strlit("ogg");
        assert("zip"@[0] != "ogg"@[0]);
        reveal_strlit("aac");
        assert("zip"@[0] != "aac"@[0]);
        reveal_strlit("midi");
        assert("zip"@.len() != "midi"@.len());
        reveal_strlit("mp4");
        assert("zip"@[0] != "mp4"@[0]);
        reveal_strlit("webm");
        assert("zip"@.len() != "webm"@.len());
        reveal_strlit("avi");
        assert("zip"@[0] != "avi"@[0]);
        reveal_strlit("mpeg");
        assert("zip"@.len() != "mpeg"@.len());
        reveal_strlit("json");
        assert("zip"@.len() != "json"@.len());
        reveal_strlit("pdf");
        assert("zip"@[0] != "pdf"@[0]);
    }
    if ext == "gz"@ {
        reveal_strlit("gz");
        reveal_strlit("ico");
        assert("gz"@.len() != "ico"@.len());
        reveal_strlit("txt");
        assert("gz"@.len() != "txt"@.len());
        reveal_strlit("html");
        assert("gz"@.len() != "html"@.len());
        reveal_strlit("htm");
        assert("gz"@.len() != "htm"@.len());
        reveal_strlit("css");
        assert("gz"@.len() != "css"@.len());
        reveal_strlit("js");
        assert("gz"@[0] != "js"@[0]);
        reveal_strlit("xml");
        assert("gz"@.len() != "xml"@.len());
        reveal_strlit("jpeg");
        assert("gz"@.len() != "jpeg"@.len());
        reveal_strlit("jpg");
        assert("gz"@.len() != "jpg"@.len());
        reveal_strlit("png");
        assert("gz"@.len() != "png"@.len());
        reveal_strlit("gif");
        assert("gz"@.len() != "gif"@.len());
        reveal_strlit("bmp");
        assert("gz"@.len() != "bmp"@.len());
        reveal_strlit("webp");
        assert("gz"@.len() != "webp"@.len());
        reveal_strlit("svg");
        assert("gz"@.len() != "svg"@.len());
        reveal_strlit("mp3");
        assert("gz"@.len() != "mp3"@.len());
        reveal_strlit("wav");
        assert("gz"@.len() != "wav"@.len());
        reveal_strlit("ogg");
        assert("gz"@.len() != "ogg"@.len());
        reveal_strlit("aac");
        assert("gz"@.len() != "aac"@.len());
        reveal_strlit("midi");
        assert("gz"@.len() != "midi"@.len());
        reveal_strlit("mp4");
        assert("gz"@.len() != "mp4"@.len());
        reveal_strlit("webm");
        assert("gz"@.len() != "webm"@.len());
        reveal_strlit("avi");
        assert("gz"@.len() != "avi"@.len());
        reveal_strlit("mpeg");
        assert("gz"@.len() != "mpeg"@.len());
        reveal_strlit("json");
        assert("gz"@.len() != "json"@.len());
        reveal_strlit("pdf");
        assert("gz"@.len() != "pdf"@.len());
        reveal_strlit("zip");
        assert("gz"@.len() != "zip"@.len());
    }
    if ext == "gzip"@ {
        reveal_strlit("gzip");
        reveal_strlit("ico");
        assert("gzip"@.len() != "ico"@.len());
        reveal_strlit("txt");
        assert("gzip"@.len() != "txt"@.len());
        reveal_strlit("html");
        assert("gzip"@[0] != "html"@[0]);
        reveal_strlit("htm");
        assert("gzip"@.len() != "htm"@.len());
        reveal_strlit("css");
        assert("gzip"@.len() != "css"@.len());
        reveal_strlit("js");
        assert("gzip"@.len() != "js"@.len());
        reveal_strlit("xml");
        assert("gzip"@.len() != "xml"@.len());
        reveal_strlit("jpeg");
        assert("gzip"@[0] != "jpeg"@[0]);
        reveal_strlit("jpg");
        assert("gzip"@.len() != "jpg"@.len());
        reveal_strlit("png");
        assert("gzip"@.len() != "png"@.len());
        reveal_strlit("gif");
        assert("gzip"@.len() != "gif"@.len());
        reveal_strlit("bmp");
        assert("gzip"@.len() != "bmp"@.len());
        reveal_strlit("webp");
        assert("gzip"@[0] != "webp"@[0]);
        reveal_strlit("svg");
        assert("gzip"@.len() != "svg"@.len());
        reveal_strlit("mp3");
        assert("gzip"@.len() != "mp3"@.len());
        reveal_strlit("wav");
        assert("gzip"@.len() != "wav"@.len());
        reveal_strlit("ogg");
        assert("gzip"@.len() != "ogg"@.len());
        reveal_strlit("aac");
        assert("gzip"@.len() != "aac"@.len());
        reveal_strlit("midi");
        assert("gzip"@[0] != "midi"@[0]);
        reveal_strlit("mp4");
        assert("gzip"@.len() != "mp4"@.len());
        reveal_strlit("webm");
        assert("gzip"@[0] != "webm"@[0]);
        reveal_strlit("avi");
        assert("gzip"@.len() != "avi"@.len());
        reveal_strlit("mpeg");
        assert("gzip"@[0] != "mpeg"@[0]);
        reveal_strlit("json");
        assert("gzip"@[0] != "json"@[0]);
        reveal_strlit("pdf");
        assert("gzip"@.len() != "pdf"@.len());
        reveal_strlit("zip");
        assert("gzip"@.len() != "zip"@.len());
        reveal_strlit("gz");
        assert("gzip"@.len() != "gz"@.len());
    }
    if ext == "bin"@ {
        reveal_strlit("bin");
        reveal_strlit("ico");
        assert("bin"@[0] != "ico"@[0]);
        reveal_strlit("txt");
        assert("bin"@[0] != "txt"@[0]);
        reveal_strlit("html");
        assert("bin"@.len() != "html"@.len());
        reveal_strlit("htm");
        assert("bin"@[0] != "htm"@[0]);
        reveal_strlit("css");
        assert("bin"@[0] != "css"@[0]);
        reveal_strlit("js");
        assert("bin"@.len() != "js"@.len());
        reveal_strlit("xml");
        assert("bin"@[0] != "xml"@[0]);
        reveal_strlit("jpeg");
        assert("bin"@.len() != "jpeg"@.len());
        reveal_strlit("jpg");
        assert("bin"@[0] != "jpg"@[0]);
        reveal_strlit("png");
        assert("bin"@[0] != "png"@[0]);
        reveal_strlit("gif");
        assert("bin"@[0] != "gif"@[0]);
        reveal_strlit("bmp");
        assert("bin"@[1] != "bmp"@[1]);
        reveal_strlit("webp");
        assert("bin"@.len() != "webp"@.len());
        reveal_strlit("svg");
        assert("bin"@[0] != "svg"@[0]);
        reveal_strlit("mp3");
        assert("bin"@[0] != "mp3"@[0]);
        reveal_strlit("wav");
        assert("bin"@[0] != "wav"@[0]);
        reveal_strlit("ogg");
        assert("bin"@[0] != "ogg"@[0]);
        reveal_strlit("aac");
        assert("bin"@[0] != "aac"@[0]);
        reveal_strlit("midi");
        assert("bin"@.len() != "midi"@.len());
        reveal_strlit("mp4");
        assert("bin"@[0] != "mp4"@[0]);
        reveal_strlit("webm");
        assert("bin"@.len() != "webm"@.len());
        reveal_strlit("avi");
        assert("bin"@[0] != "avi"@[0]);
        reveal_strlit("mpeg");
        assert("bin"@.len() != "mpeg"@.len());
        reveal_strlit("json");
        assert("bin"@.len() != "json"@.len());
        reveal_strlit("pdf");
        assert("bin"@[0] != "pdf"@[0]);
        reveal_strlit("zip");
        assert("bin"@[0] != "zip"@[0]);
        reveal_strlit("gz");
        assert("bin"@.len() != "gz"@.len());
        reveal_strlit("gzip");
        assert("bin"@.len() != "gzip"@.len());
    }
    if ext == "docx"@ {
        reveal_strlit("docx");
        reveal_strlit("ico");
        assert("docx"@.len() != "ico"@.len());
        reveal_strlit("txt");
        assert("docx"@.len() != "txt"@.len());
        reveal_strlit("html");
        assert("docx"@[0] != "html"@[0]);
        reveal_strlit("htm");
        assert("docx"@.len() != "htm"@.len());
        reveal_strlit("css");
        assert("docx"@.len() != "css"@.len());
        reveal_strlit("js");
        assert("docx"@.len() != "js"@.len());
        reveal_strlit("xml");
        assert("docx"@.len() != "xml"@.len());
        reveal_strlit("jpeg");
        assert("docx"@[0] != "jpeg"@[0]);
        reveal_strlit("jpg");
        assert("docx"@.len() != "jpg"@.len());
        reveal_strlit("png");
        assert("docx"@.len() != "png"@.len());
        reveal_strlit("gif");
        assert("docx"@.len() != "gif"@.len());
        reveal_strlit("bmp");
        assert("docx"@.len() != "bmp"@.len());
        reveal_strlit("webp");
        assert("docx"@[0] != "webp"@[0]);
        reveal_strlit("svg");
        assert("docx"@.len() != "svg"@.len());
        reveal_strlit("mp3");
        assert("docx"@.len() != "mp3"@.len());
        reveal_strlit("wav");
        assert("docx"@.len() != "wav"@.len());
        reveal_strlit("ogg");
        assert("docx"@.len() != "ogg"@.len());
        reveal_strlit("aac");
        assert("docx"@.len() != "aac"@.len());
        reveal_strlit("midi");
        assert("docx"@[0] != "midi"@[0]);
        reveal_strlit("mp4");
        assert("docx"@.len() != "mp4"@.len());
        reveal_strlit("webm");
        assert("docx"@[0] != "webm"@[0]);
        reveal_strlit("avi");
        assert("docx"@.len() != "avi"@.len());
        reveal_strlit("mpeg");
        assert("docx"@[0] != "mpeg"@[0]);
        reveal_strlit("json");
        assert("docx"@[0] != "json"@[0]);
        reveal_strlit("pdf");
        assert("docx"@.len() != "pdf"@.len());
        reveal_strlit("zip");
        assert("docx"@.len() != "zip"@.len());
        reveal_strlit("gz");
        assert("docx"@.len() != "gz"@.len());
        reveal_strlit("gzip");
        assert("docx"@[0] != "gzip"@[0]);
        reveal_strlit("bin");
        assert("docx"@.len() != "bin"@.len());
    }
    if ext == "xlsx"@ {
        reveal_strlit("xlsx");
        reveal_strlit("ico");
        assert("xlsx"@.len() != "ico"@.len());
        reveal_strlit("txt");
        assert("xlsx"@.len() != "txt"@.len());
        reveal_strlit("html");
        assert("xlsx"@[0] != "html"@[0]);
        reveal_strlit("htm");
        assert("xlsx"@.len() != "htm"@.len());
        reveal_strlit("css");
        assert("xlsx"@.len() != "css"@.len());
        reveal_strlit("js");
        assert("xlsx"@.len() != "js"@.len());
        reveal_strlit("xml");
        assert("xlsx"@.len() != "xml"@.len());
        reveal_strlit("jpeg");
        assert("xlsx"@[0] != "jpeg"@[0]);
        reveal_strlit("jpg");
        assert("xlsx"@.len() != "jpg"@.len());
        reveal_strlit("png");
        assert("xlsx"@.len() != "png"@.len());
        reveal_strlit("gif");
        assert("xlsx"@.len() != "gif"@.len());
        reveal_strlit("bmp");
        assert("xlsx"@.len() != "bmp"@.len());
        reveal_strlit("webp");
        assert("xlsx"@[0] != "webp"@[0]);
        reveal_strlit("svg");
        assert("xlsx"@.len() != "svg"@.len());
        reveal_strlit("mp3");
        assert("xlsx"@.len() != "mp3"@.len());
        reveal_strlit("wav");
        assert("xlsx"@.len() != "wav"@.len());
        reveal_strlit("ogg");
        assert("xlsx"@.len() != "ogg"@.len());
        reveal_strlit("aac");
        assert("xlsx"@.len() != "aac"@.len());
        reveal_strlit("midi");
        assert("xlsx"@[0] != "midi"@[0]);
        reveal_strlit("mp4");
        assert("xlsx"@.len() != "mp4"@.len());
        reveal_strlit("webm");
        assert("xlsx"@[0] != "webm"@[0]);
        reveal_strlit("avi");
        assert("xlsx"@.len() != "avi"@.len());
        reveal_strlit("mpeg");
        assert("xlsx"@[0] != "mpeg"@[0]);
        reveal_strlit("json");
        assert("xlsx"@[0] != "json"@[0]);
        reveal_strlit("pdf");
        assert("xlsx"@.len() != "pdf"@.len());
        reveal_strlit("zip");
        assert("xlsx"@.len() != "zip"@.len());
        reveal_strlit("gz");
        assert("xlsx"@.len() != "gz"@.len());
        reveal_strlit("gzip");
        assert("xlsx"@[0] != "gzip"@[0]);
        reveal_strlit("bin");
        assert("xlsx"@.len() != "bin"@.len());
        reveal_strlit("docx");
        assert("xlsx"@[0] != "docx"@[0]);
    }
    if ext == "pptx"@ {
        reveal_strlit("pptx");
        reveal_strlit("ico");
        assert("pptx"@.len() != "ico"@.len());
        reveal_strlit("txt");
        assert("pptx"@.len() != "txt"@.len());
        reveal_strlit("html");
        assert("pptx"@[0] != "html"@[0]);
        reveal_strlit("htm");
        assert("pptx"@.len() != "htm"@.len());
        reveal_strlit("css");
        assert("pptx"@.len() != "css"@.len());
        reveal_strlit("js");
        assert("pptx"@.len() != "js"@.len());
        reveal_strlit("xml");
        assert("pptx"@.len() != "xml"@.len());
        reveal_strlit("jpeg");
        assert("pptx"@[0] != "jpeg"@[0]);
        reveal_strlit("jpg");
        assert("pptx"@.len() != "jpg"@.len());
        reveal_strlit("png");
        assert("pptx"@.len() != "png"@.len());
        reveal_strlit("gif");
        assert("pptx"@.len() != "gif"@.len());
        reveal_strlit("bmp");
        assert("pptx"@.len() != "bmp"@.len());
        reveal_strlit("webp");
        assert("pptx"@[0] != "webp"@[0]);
        reveal_strlit("svg");
        assert("pptx"@.len() != "svg"@.len());
        reveal_strlit("mp3");
        assert("pptx"@.len() != "mp3"@.len());
        reveal_strlit("wav");
        assert("pptx"@.len() != "wav"@.len());
        reveal_strlit("ogg");
        assert("pptx"@.len() != "ogg"@.len());
        reveal_strlit("aac");
        assert("pptx"@.len() != "aac"@.len());
        reveal_strlit("midi");
        assert("pptx"@[0] != "midi"@[0]);
        reveal_strlit("mp4");
        assert("pptx"@.len() != "mp4"@.len());
        reveal_strlit("webm");
        assert("pptx"@[0] != "webm"@[0]);
        reveal_strlit("avi");
        assert("pptx"@.len() != "avi"@.len());
        reveal_strlit("mpeg");
        assert("pptx"@[0] != "mpeg"@[0]);
        reveal_strlit("json");
        assert("pptx"@[0] != "json"@[0]);
        reveal_strlit("pdf");
        assert("pptx"@.len() != "pdf"@.len());
        reveal_strlit("zip");
        assert("pptx"@.len() != "zip"@.len());
        reveal_strlit("gz");
        assert("pptx"@.len() != "gz"@.len());
        reveal_strlit("gzip");
        assert("pptx"@[0] != "gzip"@[0]);
        reveal_strlit("bin");
        assert("pptx"@.len() != "bin"@.len());
        reveal_strlit("docx");
        assert("pptx"@[0] != "docx"@[0]);
        reveal_strlit("xlsx");
        assert("pptx"@[0] != "xlsx"@[0]);
    }
    if ext == "rtf"@ {
        reveal_strlit("rtf");
        reveal_strlit("ico");
        assert("rtf"@[0] != "ico"@[0]);
        reveal_strlit("txt");
        assert("rtf"@[0] != "txt"@[0]);
        reveal_strlit("html");
        assert("rtf"@.len() != "html"@.len());
        reveal_strlit("htm");
        assert("rtf"@[0] != "htm"@[0]);
        reveal_strlit("css");
        assert("rtf"@[0] != "css"@[0]);
        reveal_strlit("js");
        assert("rtf"@.len() != "js"@.len());
        reveal_strlit("xml");
        assert("rtf"@[0] != "xml"@[0]);
        reveal_strlit("jpeg");
        assert("rtf"@.len() != "jpeg"@.len());
        reveal_strlit("jpg");
        assert("rtf"@[0] != "jpg"@[0]);
        reveal_strlit("png");
        assert("rtf"@[0] != "png"@[0]);
        reveal_strlit("gif");
        assert("rtf"@[0] != "gif"@[0]);
        reveal_strlit("bmp");
        assert("rtf"@[0] != "bmp"@[0]);
        reveal_strlit("webp");
        assert("rtf"@.len() != "webp"@.len());
        reveal_strlit("svg");
        assert("rtf"@[0] != "svg"@[0]);
        reveal_strlit("mp3");
        assert("rtf"@[0] != "mp3"@[0]);
        reveal_strlit("wav");
        assert("rtf"@[0] != "wav"@[0]);
        reveal_strlit("ogg");
        assert("rtf"@[0] != "ogg"@[0]);
        reveal_strlit("aac");
        assert("rtf"@[0] != "aac"@[0]);
        reveal_strlit("midi");
        assert("rtf"@.len() != "midi"@.len());
        reveal_strlit("mp4");
        assert("rtf"@[0] != "mp4"@[0]);
        reveal_strlit("webm");
        assert("rtf"@.len() != "webm"@.len());
        reveal_strlit("avi");
        assert("rtf"@[0] != "avi"@[0]);
        reveal_strlit("mpeg");
        assert("rtf"@.len() != "mpeg"@.len());
        reveal_strlit("json");
        assert("rtf"@.len() != "json"@.len());
        reveal_strlit("pdf");
        assert("rtf"@[0] != "pdf"@[0]);
        reveal_strlit("zip");
        assert("rtf"@[0] != "zip"@[0]);
        reveal_strlit("gz");
        assert("rtf"@.len() != "gz"@.len());
        reveal_strlit("gzip");
        assert("rtf"@.len() != "gzip"@.len());
        reveal_strlit("bin");
        assert("rtf"@[0] != "bin"@[0]);
        reveal_strlit("docx");
        assert("rtf"@.len() != "docx"@.len());
        reveal_strlit("xlsx");
        assert("rtf"@.len() != "xlsx"@.len());
        reveal_strlit("pptx");
        assert("rtf"@.len() != "pptx"@.len());
    }
    if ext == "ttf"@ {
        reveal_strlit("ttf");
        reveal_strlit("ico");
        assert("ttf"@[0] != "ico"@[0]);
        reveal_strlit("txt");
        assert("ttf"@[1] != "txt"@[1]);
        reveal_strlit("html");
        assert("ttf"@.len() != "html"@.len());
        reveal_strlit("htm");
        assert("ttf"@[0] != "htm"@[0]);
        reveal_strlit("css");
        assert("ttf"@[0] != "css"@[0]);
        reveal_strlit("js");
        assert("ttf"@.len() != "js"@.len());
        reveal_strlit("xml");
        assert("ttf"@[0] != "xml"@[0]);
        reveal_strlit("jpeg");
        assert("ttf"@.len() != "jpeg"@.len());
        reveal_strlit("jpg");
        assert("ttf"@[0] != "jpg"@[0]);
        reveal_strlit("png");
        assert("ttf"@[0] != "png"@[0]);
        reveal_strlit("gif");
        assert("ttf"@[0] != "gif"@[0]);
        reveal_strlit("bmp");
        assert("ttf"@[0] != "bmp"@[0]);
        reveal_strlit("webp");
        assert("ttf"@.len() != "webp"@.len());
        reveal_strlit("svg");
        assert("ttf"@[0] != "svg"@[0]);
        reveal_strlit("mp3");
        assert("ttf"@[0] != "mp3"@[0]);
        reveal_strlit("wav");
        assert("ttf"@[0] != "wav"@[0]);
        reveal_strlit("ogg");
        assert("ttf"@[0] != "ogg"@[0]);
        reveal_strlit("aac");
        assert("ttf"@[0] != "aac"@[0]);
        reveal_strlit("midi");
        assert("ttf"@.len() != "midi"@.len());
        reveal_strlit("mp4");
        assert("ttf"@[0] != "mp4"@[0]);
        reveal_strlit("webm");
        assert("ttf"@.len() != "webm"@.len());
        reveal_strlit("avi");
        assert("ttf"@[0] != "avi"@[0]);
        reveal_strlit("mpeg");
        assert("ttf"@.len() != "mpeg"@.len());
        reveal_strlit("json");
        assert("ttf"@.len() != "json"@.len());
        reveal_strlit("pdf");
        assert("ttf"@[0] != "pdf"@[0]);
        reveal_strlit("zip");
        assert("ttf"@[0] != "zip"@[0]);
        reveal_strlit("gz");
        assert("ttf"@.len() != "gz"@.len());
        reveal_strlit("gzip");
        assert("ttf"@.len() != "gzip"@.len());
        reveal_strlit("bin");
        assert("ttf"@[0] != "bin"@[0]);
        reveal_strlit("docx");
        assert("ttf"@.len() != "docx"@.len());
        reveal_strlit("xlsx");
        assert("ttf"@.len() != "xlsx"@.len());
        reveal_strlit("pptx");
        assert("ttf"@.len() != "pptx"@.len());
        reveal_strlit("rtf");
        assert("ttf"@[0] != "rtf"@[0]);
    }
    if ext == "otf"@ {
        reveal_strlit("otf");
        reveal_strlit("ico");
        assert("otf"@[0] != "ico"@[0]);
        reveal_strlit("txt");
        assert("otf"@[0] != "txt"@[0]);
        reveal_strlit("html");
        assert("otf"@.len() != "html"@.len());
        reveal_strlit("htm");
        assert("otf"@[0] != "htm"@[0]);
        reveal_strlit("css");
        assert("otf"@[0] != "css"@[0]);
        reveal_strlit("js");
        assert("otf"@.len() != "js"@.len());
        reveal_strlit("xml");
        assert("otf"@[0] != "xml"@[0]);
        reveal_strlit("jpeg");
        assert("otf"@.len() != "jpeg"@.len());
        reveal_strlit("jpg");
        assert("otf"@[0] != "jpg"@[0]);
        reveal_strlit("png");
        assert("otf"@[0] != "png"@[0]);
        reveal_strlit("gif");
        assert("otf"@[0] != "gif"@[0]);
        reveal_strlit("bmp");
        assert("otf"@[0] != "bmp"@[0]);
        reveal_strlit("webp");
        assert("otf"@.len() != "webp"@.len());
        reveal_strlit("svg");
        assert("otf"@[0] != "svg"@[0]);
        reveal_strlit("mp3");
        assert("otf"@[0] != "mp3"@[0]);
        reveal_strlit("wav");
        assert("otf"@[0] != "wav"@[0]);
        reveal_strlit("ogg");
        assert("otf"@[1] != "ogg"@[1]);
        reveal_strlit("aac");
        assert("otf"@[0] != "aac"@[0]);
        reveal_strlit("midi");
        assert("otf"@.len() != "midi"@.len());
        reveal_strlit("mp4");
        assert("otf"@[0] != "mp4"@[0]);
        reveal_strlit("webm");
        assert("otf"@.len() != "webm"@.len());
        reveal_strlit("avi");
        assert("otf"@[0] != "avi"@[0]);
        reveal_strlit("mpeg");
        assert("otf"@.len() != "mpeg"@.len());
        reveal_strlit("json");
        assert("otf"@.len() != "json"@.len());
        reveal_strlit("pdf");
        assert("otf"@[0] != "pdf"@[0]);
        reveal_strlit("zip");
        assert("otf"@[0] != "zip"@[0]);
        reveal_strlit("gz");
        assert("otf"@.len() != "gz"@.len());
        reveal_strlit("gzip");
        assert("otf"@.len() != "gzip"@.len());
        reveal_strlit("bin");
        assert("otf"@[0] != "bin"@[0]);
        reveal_strlit("docx");
        assert("otf"@.len() != "docx"@.len());
        reveal_strlit("xlsx");
        assert("otf"@.len() != "xlsx"@.len());
        reveal_strlit("pptx");
        assert("otf"@.len() != "pptx"@.len());
        reveal_strlit("rtf");
        assert("otf"@[0] != "rtf"@[0]);
        reveal_strlit("ttf");
        assert("otf"@[0] != "ttf"@[0]);
    }
    if ext == "woff"@ {
        reveal_strlit("woff");
        reveal_strlit("ico");
        assert("woff"@.len() != "ico"@.len());
        reveal_strlit("txt");
        assert("woff"@.len() != "txt"@.len());
        reveal_strlit("html");
        assert("woff"@[0] != "html"@[0]);
        reveal_strlit("htm");
        assert("woff"@.len() != "htm"@.len());
        reveal_strlit("css");
        assert("woff"@.len() != "css"@.len());
        reveal_strlit("js");
        assert("woff"@.len() != "js"@.len());
        reveal_strlit("xml");
        assert("woff"@.len() != "xml"@.len());
        reveal_strlit("jpeg");
        assert("woff"@[0] != "jpeg"@[0]);
        reveal_strlit("jpg");
        assert("woff"@.len() != "jpg"@.len());
        reveal_strlit("png");
        assert("woff"@.len() != "png"@.len());
        reveal_strlit("gif");
        assert("woff"@.len() != "gif"@.len());
        reveal_strlit("bmp");
        assert("woff"@.len() != "bmp"@.len());
        reveal_strlit("webp");
        assert("woff"@[1] != "webp"@[1]);
        reveal_strlit("svg");
        assert("woff"@.len() != "svg"@.len());
        reveal_strlit("mp3");
        assert("woff"@.len() != "mp3"@.len());
        reveal_strlit("wav");
        assert("woff"@.len() != "wav"@.len());
        reveal_strlit("ogg");
        assert("woff"@.len() != "ogg"@.len());
        reveal_strlit("aac");
        assert("woff"@.len() != "aac"@.len());
        reveal_strlit("midi");
        assert("woff"@[0] != "midi"@[0]);
        reveal_strlit("mp4");
        assert("woff"@.len() != "mp4"@.len());
        reveal_strlit("webm");
        assert("woff"@[1] != "webm"@[1]);
        reveal_strlit("avi");
        assert("woff"@.len() != "avi"@.len());
        reveal_strlit("mpeg");
        assert("woff"@[0] != "mpeg"@[0]);
        reveal_strlit("json");
        assert("woff"@[0] != "json"@[0]);
        reveal_strlit("pdf");
        assert("woff"@.len() != "pdf"@.len());
        reveal_strlit("zip");
        assert("woff"@.len() != "zip"@.len());
        reveal_strlit("gz");
        assert("woff"@.len() != "gz"@.len());
        reveal_strlit("gzip");
        assert("woff"@[0] != "gzip"@[0]);
        reveal_strlit("bin");
        assert("woff"@.len() != "bin"@.len());
        reveal_strlit("docx");
        assert("woff"@[0] != "docx"@[0]);
        reveal_strlit("xlsx");
        assert("woff"@[0] != "xlsx"@[0]);
        reveal_strlit("pptx");
        assert("woff"@[0] != "pptx"@[0]);
        reveal_strlit("rtf");
        assert("woff"@.len() != "rtf"@.len());
        reveal_strlit("ttf");
        assert("woff"@.len() != "ttf"@.len());
        reveal_strlit("otf");
        assert("woff"@.len() != "otf"@.len());
    }
    if ext == "woff2"@ {
        reveal_strlit("woff2");
        reveal_strlit("ico");
        assert("woff2"@.len() != "ico"@.len());
        reveal_strlit("txt");
        assert("woff2"@.len() != "txt"@.len());
        reveal_strlit("html");
        assert("woff2"@.len() != "html"@.len());
        reveal_strlit("htm");
        assert("woff2"@.len() != "htm"@.len());
        reveal_strlit("css");
        assert("woff2"@.len() != "css"@.len());
        reveal_strlit("js");
        assert("woff2"@.len() != "js"@.len());
        reveal_strlit("xml");
        assert("woff2"@.len() != "xml"@.len());
        reveal_strlit("jpeg");
        assert("woff2"@.len() != "jpeg"@.len());
        reveal_strlit("jpg");
        assert("woff2"@.len() != "jpg"@.len());
        reveal_strlit("png");
        assert("woff2"@.len() != "png"@.len());
        reveal_strlit("gif");
        assert("woff2"@.len() != "gif"@.len());
        reveal_strlit("bmp");
        assert("woff2"@.len() != "bmp"@.len());
        reveal_strlit("webp");
        assert("woff2"@.len() != "webp"@.len());
        reveal_strlit("svg");
        assert("woff2"@.len() != "svg"@.len());
        reveal_strlit("mp3");
        assert("woff2"@.len() != "mp3"@.len());
        reveal_strlit("wav");
        assert("woff2"@.len() != "wav"@.len());
        reveal_strlit("ogg");
        assert("woff2"@.len() != "ogg"@.len());
        reveal_strlit("aac");
        assert("woff2"@.len() != "aac"@.len());
        reveal_strlit("midi");
        assert("woff2"@.len() != "midi"@.len());
        reveal_strlit("mp4");
        assert("woff2"@.len() != "mp4"@.len());
        reveal_strlit("webm");
        assert("woff2"@.len() != "webm"@.len());
        reveal_strlit("avi");
        assert("woff2"@.len() != "avi"@.len());
        reveal_strlit("mpeg");
        assert("woff2"@.len() != "mpeg"@.len());
        reveal_strlit("json");
        assert("woff2"@.len() != "json"@.len());
        reveal_strlit("pdf");
        assert("woff2"@.len() != "pdf"@.len());
        reveal_strlit("zip");
        assert("woff2"@.len() != "zip"@.len());
        reveal_strlit("gz");
        assert("woff2"@.len() != "gz"@.len());
        reveal_strlit("gzip");
        assert("woff2"@.len() != "gzip"@.len());
        reveal_strlit("bin");
        assert("woff2"@.len() != "bin"@.len());
        reveal_strlit("docx");
        assert("woff2"@.len() != "docx"@.len());
        reveal_strlit("xlsx");
        assert("woff2"@.len() != "xlsx"@.len());
        reveal_strlit("pptx");
        assert("woff2"@.len() != "pptx"@.len());
        reveal_strlit("rtf");
        assert("woff2"@.len() != "rtf"@.len());
        reveal_strlit("ttf");
        assert("woff2"@.len() != "ttf"@.len());
        reveal_strlit("otf");
        assert("woff2"@.len() != "otf"@.len());
        reveal_strlit("woff");
        assert("woff2"@.len() != "woff"@.len());
    }
    if ext == "tar"@ {
        reveal_strlit("tar");
        reveal_strlit("ico");
        assert("tar"@[0] != "ico"@[0]);
        reveal_strlit("txt");
        assert("tar"@[1] != "txt"@[1]);
        reveal_strlit("html");
        assert("tar"@.len() != "html"@.len());
        reveal_strlit("htm");
        assert("tar"@[0] != "htm"@[0]);
        reveal_strlit("css");
        assert("tar"@[0] != "css"@[0]);
        reveal_strlit("js");
        assert("tar"@.len() != "js"@.len());
        reveal_strlit("xml");
        assert("tar"@[0] != "xml"@[0]);
        reveal_strlit("jpeg");
        assert("tar"@.len() != "jpeg"@.len());
        reveal_strlit("jpg");
        assert("tar"@[0] != "jpg"@[0]);
        reveal_strlit("png");
        assert("tar"@[0] != "png"@[0]);
        reveal_strlit("gif");
        assert("tar"@[0] != "gif"@[0]);
        reveal_strlit("bmp");
        assert("tar"@[0] != "bmp"@[0]);
        reveal_strlit("webp");
        assert("tar"@.len() != "webp"@.len());
        reveal_strlit("svg");
        assert("tar"@[0] != "svg"@[0]);
        reveal_strlit("mp3");
        assert("tar"@[0] != "mp3"@[0]);
        reveal_strlit("wav");
        assert("tar"@[0] != "wav"@[0]);
        reveal_strlit("ogg");
        assert("tar"@[0] != "ogg"@[0]);
        reveal_strlit("aac");
        assert("tar"@[0] != "aac"@[0]);
        reveal_strlit("midi");
        assert("tar"@.len() != "midi"@.len());
        reveal_strlit("mp4");
        assert("tar"@[0] != "mp4"@[0]);
        reveal_strlit("webm");
        assert("tar"@.len() != "webm"@.len());
        reveal_strlit("avi");
        assert("tar"@[0] != "avi"@[0]);
        reveal_strlit("mpeg");
        assert("tar"@.len() != "mpeg"@.len());
        reveal_strlit("json");
        assert("tar"@.len() != "json"@.len());
        reveal_strlit("pdf");
        assert("tar"@[0] != "pdf"@[0]);
        reveal_strlit("zip");
        assert("tar"@[0] != "zip"@[0]);
        reveal_strlit("gz");
        assert("tar"@.len() != "gz"@.len());
        reveal_strlit("gzip");
        assert("tar"@.len() != "gzip"@.len());
        reveal_strlit("bin");
        assert("tar"@[0] != "bin"@[0]);
        reveal_strlit("docx");
        assert("tar"@.len() != "docx"@.len());
        reveal_strlit("xlsx");
        assert("tar"@.len() != "xlsx"@.len());
        reveal_strlit("pptx");
        assert("tar"@.len() != "pptx"@.len());
        reveal_strlit("rtf");
        assert("tar"@[0] != "rtf"@[0]);
        reveal_strlit("ttf");
        assert("tar"@[1] != "ttf"@[1]);
        reveal_strlit("otf");
        assert("tar"@[0] != "otf"@[0]);
        reveal_strlit("woff");
        assert("tar"@.len() != "woff"@.len());
        reveal_strlit("woff2");
        assert("tar"@.len() != "woff2"@.len());
    }
    if ext == "rar"@ {
        reveal_strlit("rar");
        reveal_strlit("ico");
        assert("rar"@[0] != "ico"@[0]);
        reveal_strlit("txt");
        assert("rar"@[0] != "txt"@[0]);
        reveal_strlit("html");
        assert("rar"@.len() != "html"@.len());
        reveal_strlit("htm");
        assert("rar"@[0] != "htm"@[0]);
        reveal_strlit("css");
        assert("rar"@[0] != "css"@[0]);
        reveal_strlit("js");
        assert("rar"@.len() != "js"@.len());
        reveal_strlit("xml");
        assert("rar"@[0] != "xml"@[0]);
        reveal_strlit("jpeg");
        assert("rar"@.len() != "jpeg"@.len());
        reveal_strlit("jpg");
        assert("rar"@[0] != "jpg"@[0]);
        reveal_strlit("png");
        assert("rar"@[0] != "png"@[0]);
        reveal_strlit("gif");
        assert("rar"@[0] != "gif"@[0]);
        reveal_strlit("bmp");
        assert("rar"@[0] != "bmp"@[0]);
        reveal_strlit("webp");
        assert("rar"@.len() != "webp"@.len());
        reveal_strlit("svg");
        assert("rar"@[0] != "svg"@[0]);
        reveal_strlit("mp3");
        assert("rar"@[0] != "mp3"@[0]);
        reveal_strlit("wav");
        assert("rar"@[0] != "wav"@[0]);
        reveal_strlit("ogg");
        assert("rar"@[0] != "ogg"@[0]);
        reveal_strlit("aac");
        assert("rar"@[0] != "aac"@[0]);
        reveal_strlit("midi");
        assert("rar"@.len() != "midi"@.len());
        reveal_strlit("mp4");
        assert("rar"@[0] != "mp4"@[0]);
        reveal_strlit("webm");
        assert("rar"@.len() != "webm"@.len());
        reveal_strlit("avi");
        assert("rar"@[0] != "avi"@[0]);
        reveal_strlit("mpeg");
        assert("rar"@.len() != "mpeg"@.len());
        reveal_strlit("json");
        assert("rar"@.len() != "json"@.len());
        reveal_strlit("pdf");
        assert("rar"@[0] != "pdf"@[0]);
        reveal_strlit("zip");
        assert("rar"@[0] != "zip"@[0]);
        reveal_strlit("gz");
        assert("rar"@.len() != "gz"@.len());
        reveal_strlit("gzip");
        assert("rar"@.len() != "gzip"@.len());
        reveal_strlit("bin");
        assert("rar"@[0] != "bin"@[0]);
        reveal_strlit("docx");
        assert("rar"@.len() != "docx"@.len());
        reveal_strlit("xlsx");
        assert("rar"@.len() != "xlsx"@.len());
        reveal_strlit("pptx");
        assert("rar"@.len() != "pptx"@.len());
        reveal_strlit("rtf");
        assert("rar"@[1] != "rtf"@[1]);
        reveal_strlit("ttf");
        assert("rar"@[0] != "ttf"@[0]);
        reveal_strlit("otf");
        assert("rar"@[0] != "otf"@[0]);
        reveal_strlit("woff");
        assert("rar"@.len() != "woff"@.len());
        reveal_strlit("woff2");
        assert("rar"@.len() != "woff2"@.len());
        reveal_strlit("tar");
        assert("rar"@[0] != "tar"@[0]);
    }
}

fn mime_lookup(ext: &str) -> (r: Option<&'static str>)
    ensures
        match r {
            Some(m) => mime_for_extension(ext@) == Some(m@),
            None => mime_for_extension(ext@) is None,
        },
{
    if str_eq(ext, "ico") {
        return Some("image/x-icon");
    }
    if str_eq(ext, "txt") {
        return Some("text/plain");
    }
    if str_eq(ext, "html") {
        return Some("text/html");
    }
    if str_eq(ext, "htm") {
        return Some("text/html");
    }
    if str_eq(ext, "css") {
        return Some("text/css");
    }
    if str_eq(ext, "js") {
        return Some("application/javascript");
    }
    if str_eq(ext, "xml") {
        return Some("application/xml");
    }
    if str_eq(ext, "jpeg") {
        return Some("image/jpeg");
    }
    if str_eq(ext, "jpg") {
        return Some("image/jpeg");
    }
    if str_eq(ext, "png") {
        return Some("image/png");
    }
    if str_eq(ext, "gif") {
        return Some("image/gif");
    }
    if str_eq(ext, "bmp") {
        return Some("image/bmp");
    }
    if str_eq(ext, "webp") {
        return Some("image/webp");
    }
    if str_eq(ext, "svg") {
        return Some("image/svg+xml");
    }
    if str_eq(ext, "mp3") {
        return Some("audio/mpeg");
    }
    if str_eq(ext, "wav") {
        return Some("audio/wav");
    }
    if str_eq(ext, "ogg") {
        return Some("audio/ogg");
    }
    if str_eq(ext, "aac") {
        return Some("audio/aac");
    }
    if str_eq(ext, "midi") {
        return Some("audio/midi");
    }
    if str_eq(ext, "mp4") {
        return Some("video/mp4");
    }
    if str_eq(ext, "webm") {
        return Some("video/webm");
    }
    if str_eq(ext, "avi") {
        return Some("video/x-msvideo");
    }
    if str_eq(ext, "mpeg") {
        return Some("video/mpeg");
    }
    if str_eq(ext, "json") {
        return Some("application/json");
    }
    if str_eq(ext, "pdf") {
        return Some("application/pdf");
    }
    if str_eq(ext, "zip") {
        return Some("application/zip");
    }
    if str_eq(ext, "gz") {
        return Some("application/gzip");
    }
    if str_eq(ext, "gzip") {
        return Some("application/gzip");
    }
    if str_eq(ext, "bin") {
        return Some("application/octet-stream");
    }
    if str_eq(ext, "docx") {
        return Some("application/vnd.openxmlformats-officedocument.wordprocessingml.document");
    }
    if str_eq(ext, "xlsx") {
        return Some("application/vnd.openxmlformats-officedocument.spreadsheetml.sheet");
    }
    if str_eq(ext, "pptx") {
        return Some("application/vnd.openxmlformats-officedocument.presentationml.presentation");
    }
    if str_eq(ext, "rtf") {
        return Some("application/rtf");
    }
    if str_eq(ext, "ttf") {
        return Some("font/ttf");
    }
    if str_eq(ext, "otf") {
        return Some("font/otf");
    }
    if str_eq(ext, "woff") {
        return Some("font/woff");
    }
    if str_eq(ext, "woff2") {
        return Some("font/woff2");
    }
    if str_eq(ext, "tar") {
        return Some("application/x-tar");
    }
    if str_eq(ext, "rar") {
        return Some("application/vnd.rar");
    }
    None
}

/// The extension that `Path::extension` finds in a path, if any.
pub uninterp spec fn path_extension_text(path: Seq<char>) -> Option<Seq<char>>;

/// `Path::extension`, as text: the part of the file name after its last
/// dot, if the name has a dot that is not its first character. The path
/// rules themselves are not stated; the result is named by
/// `path_extension_text`.
#[verifier::external_body]
pub(crate) fn path_extension(path: &str) -> (r: Option<String>)
    ensures
        match r {
            Some(e) => path_extension_text(path@) == Some(e@),
            None => path_extension_text(path@) is None,
        },
{
    std::path::Path::new(path).extension().and_then(|e| e.to_str()).map(|e| e.to_string())
}

/// The content type that a file path's extension (lower-cased) calls for.
pub fn content_type_from_file_path(path: &str) -> (r: Option<&'static str>)
    ensures
        ({
            let ext = match path_extension_text(path@) { Some(e) => e, None => Seq::empty() };
            match r {
                Some(m) => mime_for_extension(lowercase_text(ext)) == Some(m@),
                None => mime_for_extension(lowercase_text(ext)) is None,
            }
        }),
{
    let extension = match path_extension(path) {
        Some(e) => e,
        None => String::new(),
    };
    let lower = to_lowercase(extension.as_str());
    mime_lookup(lower.as_str())
}

} // verus!
