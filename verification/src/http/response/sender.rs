//! Writing an HTTP/1 response into a buffer: status line, header lines,
//! body, and the head of a file response with its byte range.

use vstd::prelude::*;
use crate::text::{utf8, decimal_text, decimal_string, extend_str, extend_bytes};
use crate::http::response::writer::{ResponseData, response_data_bytes};
use crate::http::response::file_response::FileRSender;
use crate::framework_http::response::{content_type_from_file_path, mime_for_extension, path_extension_text};
use crate::text::lowercase_text;
use crate::assoc::assoc_insert;

verus! {

broadcast use vstd::string::group_string_axioms;

/// How sending a file ended.
pub enum SendingFileResults {
    /// The path names no file.
    FileNotFound,
    /// Reading the file failed.
    ReadingFileBytesError,
    /// Opening the file failed.
    ErrorWhileOpeningTheFile,
    /// Writing to the client failed.
    ErrorWhileSendingBytesToClient,
    /// The requested range holds no byte of the file.
    RangesNotSatisfied,
    /// The file was sent.
    Success,
}

impl SendingFileResults {
    /// Whether the file was sent.
    pub fn is_success(&self) -> (r: bool)
        ensures
            r == (*self is Success),
    {
        match self {
            SendingFileResults::Success => true,
            _ => false,
        }
    }
}

/// Bytes, text or a number to write into a response.
pub enum WaterBytes<'a> {
    Str(&'static str),
    StringSlice(&'a str),
    Slice(&'a [u8]),
    String(String),
    Usize(usize),
    Vec(Vec<u8>),
    Nothing,
}

/// The bytes that a value writes: text as UTF-8, a number in decimal.
pub open spec fn water_bytes_text(w: WaterBytes) -> Seq<u8> {
    match w {
        WaterBytes::Str(s) => utf8(s@),
        WaterBytes::StringSlice(s) => utf8(s@),
        WaterBytes::Slice(s) => s@,
        WaterBytes::String(s) => utf8(s@),
        WaterBytes::Usize(u) => utf8(decimal_text(u as nat)),
        WaterBytes::Vec(v) => v@,
        WaterBytes::Nothing => Seq::empty(),
    }
}

impl<'a> WaterBytes<'a> {
    /// The bytes of a text or byte value; a number or `Nothing` has none to
    /// lend.
    pub fn as_bytes(&self) -> (r: &[u8])
        requires
            !(*self is Usize),
            !(*self is Nothing),
        ensures
            r@ == water_bytes_text(*self),
    {
        match self {
            WaterBytes::Str(s) => s.as_bytes(),
            WaterBytes::Slice(s) => *s,
            WaterBytes::String(s) => s.as_str().as_bytes(),
            WaterBytes::StringSlice(a) => a.as_bytes(),
            WaterBytes::Vec(r) => r.as_slice(),
            _ => {
                assert(false);
                &[]
            },
        }
    }

    /// Appends the value to `buf`: a number in decimal, anything else as its
    /// bytes.
    pub fn push_to(&self, buf: &mut Vec<u8>)
        requires
            !(*self is Nothing),
        ensures
            final(buf)@ == old(buf)@ + water_bytes_text(*self),
    {
        if let WaterBytes::Usize(u) = self {
            let digits = decimal_string(*u as u64);
            extend_str(buf, digits.as_str());
            return ;
        }
        extend_bytes(buf, self.as_bytes());
    }
}

/// The bytes of an HTTP/1.1 status line.
pub open spec fn status_line_bytes(code: u16, label: Seq<char>) -> Seq<u8> {
    utf8("HTTP/1.1 "@) + utf8(decimal_text(code as nat)) + utf8(" "@) + utf8(label) + utf8("\r\n"@)
}

/// The bytes of one header line.
pub open spec fn field_bytes(key: Seq<u8>, value: Seq<u8>) -> Seq<u8> {
    key + utf8(": "@) + value + utf8("\r\n"@)
}

/// A response being written into a buffer, and whether its status line is
/// written yet.
pub struct Http1Sender {
    response_buffer: Vec<u8>,
    is_status_written: bool,
}

impl Http1Sender {
    /// The bytes written so far.
    pub closed spec fn written(&self) -> Seq<u8> {
        self.response_buffer@
    }

    /// Whether the status line is written.
    pub closed spec fn status_written(&self) -> bool {
        self.is_status_written
    }

    /// The bytes after a status line is asked for: unchanged when one is
    /// already written.
    pub open spec fn with_status(&self, code: u16, label: Seq<char>) -> Seq<u8> {
        if self.status_written() {
            self.written()
        } else {
            self.written() + status_line_bytes(code, label)
        }
    }

    /// A sender writing after the bytes already in `response_buffer`.
    pub fn new(response_buffer: Vec<u8>) -> (r: Self)
        ensures
            r.written() == response_buffer@,
            !r.status_written(),
    {
        Http1Sender { response_buffer, is_status_written: false }
    }

    /// The bytes written so far.
    pub fn response_buffer(&self) -> (r: &Vec<u8>)
        ensures
            r@ == self.written(),
    {
        &self.response_buffer
    }

    /// Writes the status line, once: later calls change nothing.
    pub fn send_status_code(&mut self, code: u16, label: &str)
        ensures
            final(self).written() == old(self).with_status(code, label@),
            final(self).status_written(),
    {
        if self.is_status_written {
            return ;
        }
        extend_str(&mut self.response_buffer, "HTTP/1.1 ");
        let digits = decimal_string(code as u64);
        extend_str(&mut self.response_buffer, digits.as_str());
        extend_str(&mut self.response_buffer, " ");
        extend_str(&mut self.response_buffer, label);
        extend_str(&mut self.response_buffer, "\r\n");
        self.is_status_written = true;
    }

    /// Writes a header line, after a `200 OK` status line if none is
    /// written yet.
    pub fn set_header(&mut self, key: &str, value: &str)
        ensures
            final(self).written() == old(self).with_status(200, "OK"@) + field_bytes(utf8(key@), utf8(value@)),
            final(self).status_written(),
    {
        if !self.is_status_written {
            self.send_status_code(200, "OK");
        }
        extend_str(&mut self.response_buffer, key);
        extend_str(&mut self.response_buffer, ": ");
        extend_str(&mut self.response_buffer, value);
        extend_str(&mut self.response_buffer, "\r\n");
    }

    /// Writes a header line from bytes, text or numbers, after a `200 OK`
    /// status line if none is written yet.
    pub fn set_header_ef(&mut self, key: WaterBytes, value: WaterBytes)
        requires
            !(key is Nothing),
            !(value is Nothing),
        ensures
            final(self).written() == old(self).with_status(200, "OK"@) + field_bytes(
                water_bytes_text(key),
                water_bytes_text(value),
            ),
            final(self).status_written(),
    {
        if !self.is_status_written {
            self.send_status_code(200, "OK");
        }
        key.push_to(&mut self.response_buffer);
        extend_str(&mut self.response_buffer, ": ");
        value.push_to(&mut self.response_buffer);
        extend_str(&mut self.response_buffer, "\r\n");
    }

    /// Appends raw bytes.
    pub fn extend_write_buffer(&mut self, bytes: &[u8])
        ensures
            final(self).written() == old(self).written() + bytes@,
            final(self).status_written() == old(self).status_written(),
    {
        extend_bytes(&mut self.response_buffer, bytes);
    }

    /// Ends the head and writes `data` as body.
    pub fn send_data_partial(&mut self, data: ResponseData)
        ensures
            final(self).written() == old(self).written() + utf8("\r\n"@) + response_data_bytes(data),
            final(self).status_written() == old(self).status_written(),
    {
        let bytes = data.as_bytes();
        extend_str(&mut self.response_buffer, "\r\n");
        extend_bytes(&mut self.response_buffer, bytes);
    }

    /// Writes the `Content-Length` of `data`, ends the head and writes
    /// `data` as the whole body.
    pub fn send_data_as_final_response(&mut self, data: ResponseData) -> (r: Result<(), ()>)
        ensures
            r is Ok,
            final(self).written() == old(self).written() + field_bytes(
                utf8("Content-Length"@),
                utf8(decimal_text(response_data_bytes(data).len())),
            ) + utf8("\r\n"@) + response_data_bytes(data),
            final(self).status_written() == old(self).status_written(),
    {
        let bytes = data.as_bytes();
        extend_str(&mut self.response_buffer, "Content-Length");
        extend_str(&mut self.response_buffer, ": ");
        let digits = decimal_string(bytes.len() as u64);
        extend_str(&mut self.response_buffer, digits.as_str());
        extend_str(&mut self.response_buffer, "\r\n");
        extend_str(&mut self.response_buffer, "\r\n");
        extend_bytes(&mut self.response_buffer, bytes);
        Ok(())
    }

    /// A `200 OK` response whose whole body is `data`.
    pub fn send_str(&mut self, data: &str) -> (r: Result<(), ()>)
        ensures
            r is Ok,
            final(self).written() == old(self).with_status(200, "OK"@) + field_bytes(
                utf8("Content-Length"@),
                utf8(decimal_text(utf8(data@).len())),
            ) + utf8("\r\n"@) + utf8(data@),
            final(self).status_written(),
    {
        self.send_status_code(200, "OK");
        self.send_data_as_final_response(ResponseData::Str(data))
    }
}


/// The first byte of a requested range: 0 unless given.
pub open spec fn file_range_start(range: Option<(Option<usize>, Option<usize>)>) -> int {
    match range {
        None => 0,
        Some((s, _)) => match s {
            Some(v) => v as int,
            None => 0,
        },
    }
}

/// The smaller of two integers.
pub open spec fn min_int(a: int, b: int) -> int {
    if a <= b { a } else { b }
}

/// The end of a requested range as asked: the whole file without a range,
/// else the given end, else one buffer past the start (at most the file
/// size).
pub open spec fn file_range_asked_end(range: Option<(Option<usize>, Option<usize>)>, buffer: int, file_size: int) -> int {
    match range {
        None => file_size,
        Some((_, e)) => match e {
            Some(v) => v as int,
            None => min_int(file_range_start(range) + buffer, file_size),
        },
    }
}

/// Whether a range asks for the file in a way that overflows or runs
/// backwards: its start plus a buffer past `usize`, or an end before its
/// start.
pub open spec fn file_range_is_malformed(range: Option<(Option<usize>, Option<usize>)>, buffer: int, file_size: int) -> bool {
    range is Some && (file_range_start(range) + buffer > usize::MAX || file_range_asked_end(range, buffer, file_size)
        < file_range_start(range))
}

/// Whether the response is `200 OK` rather than `206`: no range, or a
/// range as long as the file.
pub open spec fn file_range_is_whole(range: Option<(Option<usize>, Option<usize>)>, buffer: int, file_size: int) -> bool {
    range is None || file_range_asked_end(range, buffer, file_size) - file_range_start(range) == file_size
}

/// The end (exclusive) of the bytes sent: the asked end cut to the file
/// size, or one buffer past the start when that cut falls before it.
pub open spec fn file_range_end(range: Option<(Option<usize>, Option<usize>)>, buffer: int, file_size: int) -> int {
    let e0 = file_range_asked_end(range, buffer, file_size);
    let e1 = if e0 >= file_size { file_size } else { e0 };
    if e1 < file_range_start(range) {
        min_int(file_range_start(range) + buffer, file_size)
    } else {
        e1
    }
}

/// Whether a file sender's range overflows or runs backwards for a file of
/// `file_size` bytes (a range `write_file_head` and `h2_file_head` do not
/// take).
pub fn file_range_rejected(sender: &FileRSender, file_size: usize) -> (r: bool)
    ensures
        r == file_range_is_malformed(
            sender.range,
            sender.buffer_size_for_reading_from_file_and_writing_to_stream as int,
            file_size as int,
        ),
{
    let buffer = sender.buffer_size_for_reading_from_file_and_writing_to_stream;
    match sender.range {
        None => false,
        Some((s, e)) => {
            let start: usize = match s {
                Some(v) => v,
                None => 0,
            };
            if start > usize::MAX - buffer {
                return true;
            }
            let end: usize = match e {
                Some(v) => v,
                None => if start + buffer <= file_size {
                    start + buffer
                } else {
                    file_size
                },
            };
            end < start
        },
    }
}

/// The status line of a file response.
pub open spec fn file_status_bytes(whole: bool) -> Seq<u8> {
    if whole {
        status_line_bytes(200, "OK"@)
    } else {
        status_line_bytes(206, "Partial Content"@)
    }
}

/// The content headers of a file response: a given disposition alone, or
/// the content type (octet-stream when unknown) and an attachment
/// disposition naming the file.
pub open spec fn file_content_fields(content_type: Option<Seq<char>>, file_name: Seq<char>, disposition: Option<Seq<char>>) -> Seq<u8> {
    match disposition {
        Some(d) => field_bytes(utf8("Content-Disposition"@), utf8(d)),
        None => field_bytes(
            utf8("Content-Type"@),
            utf8(
                match content_type {
                    Some(c) => c,
                    None => "Application/octet-stream"@,
                },
            ),
        ) + field_bytes(utf8("Content-Disposition"@), utf8("attachment; filename=\""@ + file_name + "\""@)),
    }
}

/// The range headers of a file response: `Content-Range` when only part
/// of the file goes, then `Content-Length`.
pub open spec fn file_range_fields(start: int, end: int, file_size: int) -> Seq<u8> {
    let length_field = field_bytes(utf8("Content-Length"@), utf8(decimal_text((end - start) as nat)));
    if end - start != file_size {
        field_bytes(
            utf8("Content-Range"@),
            utf8(
                "bytes "@ + decimal_text(start as nat) + "-"@ + decimal_text((end - 1) as nat) + "/"@ + decimal_text(
                    file_size as nat,
                ),
            ),
        ) + length_field
    } else {
        length_field
    }
}

/// The file name that `Path::file_name` finds in a path, if any.
pub uninterp spec fn path_file_name_text(path: Seq<char>) -> Option<Seq<char>>;

/// `Path::file_name`, as text: the last component of the path unless it
/// is `..`. The path rules themselves are not stated; the result is named
/// by `path_file_name_text`.
#[verifier::external_body]
pub(crate) fn path_file_name(path: &str) -> (r: Option<String>)
    ensures
        match r {
            Some(n) => path_file_name_text(path@) == Some(n@),
            None => path_file_name_text(path@) is None,
        },
{
    std::path::Path::new(path).file_name().and_then(|n| n.to_str()).map(|n| n.to_string())
}

/// The content type of a path, as the content-type lookup gives it.
pub open spec fn path_content_type(path: Seq<char>) -> Option<Seq<char>> {
    let ext = match path_extension_text(path) {
        Some(e) => e,
        None => Seq::empty(),
    };
    mime_for_extension(lowercase_text(ext))
}

/// Joins text pieces into one string.
fn concat3(a: &str, b: &str, c: &str) -> (r: String)
    ensures
        r@ == a@ + b@ + c@,
{
    let mut s = a.to_string();
    s.append(b);
    s.append(c);
    s
}

/// The start, the end (exclusive) and the wholeness of the bytes to send.
fn plan_file_range(range: Option<(Option<usize>, Option<usize>)>, buffer: usize, file_size: usize) -> (r: (
    usize,
    usize,
    bool,
))
    requires
        !file_range_is_malformed(range, buffer as int, file_size as int),
    ensures
        r.0 == file_range_start(range),
        r.1 == file_range_end(range, buffer as int, file_size as int),
        r.2 == file_range_is_whole(range, buffer as int, file_size as int),
        r.1 <= file_size,
{
    let mut start: usize = 0;
    let mut end: usize = file_size;
    let mut whole = true;
    match range {
        None => {},
        Some(ranges) => {
            start = match ranges.0 {
                Some(v) => v,
                None => 0,
            };
            let fallback = if start + buffer <= file_size { start + buffer } else { file_size };
            end = match ranges.1 {
                Some(v) => v,
                None => fallback,
            };
            whole = end - start == file_size;
        },
    }
    if end >= file_size {
        end = file_size;
    }
    if end < start {
        end = if start + buffer <= file_size { start + buffer } else { file_size };
    }
    (start, end, whole)
}

/// `bytes start-last/size`.
fn content_range_text(start: usize, last: usize, size: usize) -> (r: String)
    ensures
        r@ == "bytes "@ + decimal_text(start as nat) + "-"@ + decimal_text(last as nat) + "/"@ + decimal_text(
            size as nat,
        ),
{
    let mut value = "bytes ".to_string();
    let a = decimal_string(start as u64);
    let b = decimal_string(last as u64);
    let c = decimal_string(size as u64);
    value.append(a.as_str());
    value.append("-");
    value.append(b.as_str());
    value.append("/");
    value.append(c.as_str());
    value
}

impl Http1Sender {
    fn handle_content_type_while_sending_file(
        &mut self,
        file_content_type: Option<&str>,
        file_name: &str,
        content_disposition: Option<&str>,
    )
        requires
            old(self).status_written(),
        ensures
            final(self).status_written(),
            final(self).written() == old(self).written() + file_content_fields(
                match file_content_type {
                    Some(c) => Some(c@),
                    None => None,
                },
                file_name@,
                match content_disposition {
                    Some(d) => Some(d@),
                    None => None,
                },
            ),
    {
        match content_disposition {
            None => {
                match file_content_type {
                    None => self.set_header("Content-Type", "Application/octet-stream"),
                    Some(content_type) => self.set_header("Content-Type", content_type),
                }
                let disposition = concat3("attachment; filename=\"", file_name, "\"");
                self.set_header("Content-Disposition", disposition.as_str());
            },
            Some(d) => {
                self.set_header("Content-Disposition", d);
            },
        }
    }

    /// Writes the head of a file response for a file of `file_size` bytes:
    /// the status line (`200 OK` for the whole file, `206 Partial Content`
    /// for a part), the content headers, and, when the range holds a byte,
    /// the range headers and the blank line. Gives back the first byte and
    /// the number of bytes to send, or `FileNotFound` when the path names
    /// no file, or `RangesNotSatisfied` when the range holds no byte.
    pub fn write_file_head(&mut self, sender: &FileRSender, file_size: usize, content_disposition: Option<&str>) -> (r:
        Result<(usize, usize), SendingFileResults>)
        requires
            !file_range_is_malformed(
                sender.range,
                sender.buffer_size_for_reading_from_file_and_writing_to_stream as int,
                file_size as int,
            ),
        ensures
            ({
                let buffer = sender.buffer_size_for_reading_from_file_and_writing_to_stream as int;
                let start = file_range_start(sender.range);
                let end = file_range_end(sender.range, buffer, file_size as int);
                let head = (if old(self).status_written() { old(self).written() } else { old(self).written()
                    + file_status_bytes(file_range_is_whole(sender.range, buffer, file_size as int)) })
                    + file_content_fields(
                    path_content_type(sender.path@),
                    path_file_name_text(sender.path@).unwrap(),
                    match content_disposition {
                        Some(d) => Some(d@),
                        None => None,
                    },
                );
                match r {
                    Ok((s, n)) => {
                        &&& path_file_name_text(sender.path@) is Some
                        &&& start < end
                        &&& s == start
                        &&& n == end - start
                        &&& final(self).written() == head + file_range_fields(start, end, file_size as int)
                            + utf8("\r\n"@)
                    },
                    Err(e) => {
                        ||| (e is FileNotFound && path_file_name_text(sender.path@) is None && final(self).written()
                            == old(self).written())
                        ||| (e is RangesNotSatisfied && path_file_name_text(sender.path@) is Some && start >= end
                            && final(self).written() == head)
                    },
                }
            }),
    {
        let file_name = match path_file_name(sender.path) {
            None => return Err(SendingFileResults::FileNotFound),
            Some(f) => f,
        };
        let file_content_type = content_type_from_file_path(sender.path);
        let (start, end, whole) = plan_file_range(
            sender.range,
            sender.buffer_size_for_reading_from_file_and_writing_to_stream,
            file_size,
        );
        if whole {
            self.send_status_code(200, "OK");
        } else {
            self.send_status_code(206, "Partial Content");
        }
        self.handle_content_type_while_sending_file(file_content_type, file_name.as_str(), content_disposition);
        if start == end || start > end || end > file_size {
            return Err(SendingFileResults::RangesNotSatisfied);
        }
        let to_send = end - start;
        if to_send != file_size {
            let value = content_range_text(start, end - 1, file_size);
            self.set_header("Content-Range", value.as_str());
        }
        let length = decimal_string(to_send as u64);
        self.set_header("Content-Length", length.as_str());
        self.extend_write_buffer("\r\n".as_bytes());
        Ok((start, to_send))
    }
}

/// The content headers an HTTP/2 file response starts with: for an
/// unknown type, octet-stream and an attachment disposition naming the
/// file; for a known type, the type and, when a disposition is given, that
/// disposition naming the file.
pub open spec fn h2_content_fields(content_type: Option<Seq<char>>, file_name: Seq<char>, disposition: Option<Seq<char>>) -> Seq<(Seq<char>, Seq<char>)> {
    match content_type {
        None => assoc_insert(
            seq![("Content-Type"@, "Application/octet-stream"@)],
            "Content-Disposition"@,
            "attachment; filename=\""@ + file_name + "\""@,
        ),
        Some(c) => match disposition {
            Some(d) => assoc_insert(
                seq![("Content-Type"@, c)],
                "Content-Disposition"@,
                d + "; filename=\""@ + file_name + "\""@,
            ),
            None => seq![("Content-Type"@, c)],
        },
    }
}

/// The headers of an HTTP/2 file response for the bytes `start` to `end`
/// (exclusive) of the file: the content headers, the range when only part
/// goes, the length, and a given disposition as it is.
pub open spec fn h2_file_fields(
    content_type: Option<Seq<char>>,
    file_name: Seq<char>,
    disposition: Option<Seq<char>>,
    start: int,
    end: int,
    file_size: int,
) -> Seq<(Seq<char>, Seq<char>)> {
    let m0 = h2_content_fields(content_type, file_name, disposition);
    let m1 = if end - start != file_size {
        assoc_insert(
            m0,
            "Content-Range"@,
            "bytes "@ + decimal_text(start as nat) + "-"@ + decimal_text((end - 1) as nat) + "/"@ + decimal_text(
                file_size as nat,
            ),
        )
    } else {
        m0
    };
    let m2 = assoc_insert(m1, "Content-Length"@, decimal_text((end - start) as nat));
    match disposition {
        Some(d) => assoc_insert(m2, "Content-Disposition"@, d),
        None => m2,
    }
}

/// The head of an HTTP/2 file response: its status, its headers, the first
/// byte to send and how many.
pub struct H2FileHead {
    pub status: u16,
    pub headers: Vec<(String, String)>,
    pub start: usize,
    pub to_send: usize,
}

fn push_pair(m: &mut Vec<(String, String)>, k: &str, v: &str)
    ensures
        crate::framework_http::request::string_pairs_view(final(m)@) == assoc_insert(
            crate::framework_http::request::string_pairs_view(old(m)@),
            k@,
            v@,
        ),
{
    let ghost before = old(m)@;
    let value = v.to_string();
    crate::assoc::insert_by_key(m, k.to_string(), value);
    proof {
        let g = |s: String| s@;
        crate::assoc::lemma_assoc_insert_map_values(crate::assoc::keyed(before), k@, value, g);
        assert(crate::framework_http::request::string_pairs_view(before) =~= crate::assoc::keyed(before).map_values(
            |p: (Seq<char>, String)| (p.0, g(p.1)),
        ));
        assert(crate::framework_http::request::string_pairs_view(m@) =~= crate::assoc::keyed(m@).map_values(
            |p: (Seq<char>, String)| (p.0, g(p.1)),
        ));
    }
}

/// Plans the head of an HTTP/2 file response for a file of `file_size`
/// bytes: `200` for the whole file, `206` for a part, and its headers.
/// `FileNotFound` when the path names no file, `RangesNotSatisfied` when
/// the range holds no byte.
pub fn h2_file_head(sender: &FileRSender, file_size: usize, content_disposition: Option<&str>) -> (r: Result<
    H2FileHead,
    SendingFileResults,
>)
    requires
        !file_range_is_malformed(
            sender.range,
            sender.buffer_size_for_reading_from_file_and_writing_to_stream as int,
            file_size as int,
        ),
    ensures
        ({
            let buffer = sender.buffer_size_for_reading_from_file_and_writing_to_stream as int;
            let start = file_range_start(sender.range);
            let end = file_range_end(sender.range, buffer, file_size as int);
            let cd = match content_disposition {
                Some(d) => Some(d@),
                None => None,
            };
            match r {
                Ok(h) => {
                    &&& path_file_name_text(sender.path@) is Some
                    &&& start < end
                    &&& h.status == (if file_range_is_whole(sender.range, buffer, file_size as int) { 200u16 } else { 206u16 })
                    &&& h.start == start
                    &&& h.to_send == end - start
                    &&& crate::framework_http::request::string_pairs_view(h.headers@) == h2_file_fields(
                        path_content_type(sender.path@),
                        path_file_name_text(sender.path@).unwrap(),
                        cd,
                        start,
                        end,
                        file_size as int,
                    )
                },
                Err(e) => (e is FileNotFound && path_file_name_text(sender.path@) is None) || (e is RangesNotSatisfied
                    && path_file_name_text(sender.path@) is Some && start >= end),
            }
        }),
{
    let file_name = match path_file_name(sender.path) {
        None => return Err(SendingFileResults::FileNotFound),
        Some(f) => f,
    };
    let file_content_type = content_type_from_file_path(sender.path);
    let (start, end, whole) = plan_file_range(
        sender.range,
        sender.buffer_size_for_reading_from_file_and_writing_to_stream,
        file_size,
    );
    let status: u16 = if whole { 200 } else { 206 };
    if start == end || start > end || end > file_size {
        return Err(SendingFileResults::RangesNotSatisfied);
    }
    let mut headers: Vec<(String, String)> = Vec::new();
    match file_content_type {
        None => {
            push_pair(&mut headers, "Content-Type", "Application/octet-stream");
            let value = concat3("attachment; filename=\"", file_name.as_str(), "\"");
            push_pair(&mut headers, "Content-Disposition", value.as_str());
        },
        Some(ct) => {
            push_pair(&mut headers, "Content-Type", ct);
            match content_disposition {
                Some(d) => {
                    let value = concat3(d, "; filename=\"", file_name.as_str());
                    let mut full = value;
                    full.append("\"");
                    push_pair(&mut headers, "Content-Disposition", full.as_str());
                },
                None => {},
            }
        },
    }
    let to_send = end - start;
    if to_send != file_size {
        let value = content_range_text(start, end - 1, file_size);
        push_pair(&mut headers, "Content-Range", value.as_str());
    }
    let length = decimal_string(to_send as u64);
    push_pair(&mut headers, "Content-Length", length.as_str());
    match content_disposition {
        Some(d) => push_pair(&mut headers, "Content-Disposition", d),
        None => {},
    }
    Ok(H2FileHead { status, headers, start, to_send })
}

} // verus!
