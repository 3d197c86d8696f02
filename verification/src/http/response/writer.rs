//! Data handed to a response writer.

use vstd::prelude::*;
use crate::text::{utf8, decimal_text, decimal_string, extend_str, extend_bytes};

verus! {

/// Body data of a response.
pub enum ResponseData<'a> {
    Str(&'a str),
    Slice(&'a [u8]),
    String(String),
}

/// The bytes that response data stands for.
pub open spec fn response_data_bytes(d: ResponseData) -> Seq<u8> {
    match d {
        ResponseData::Str(s) => utf8(s@),
        ResponseData::Slice(s) => s@,
        ResponseData::String(s) => utf8(s@),
    }
}

impl<'a> ResponseData<'a> {
    /// The data as bytes; text as its UTF-8 bytes.
    pub fn as_bytes(&self) -> (r: &[u8])
        ensures
            r@ == response_data_bytes(*self),
    {
        match self {
            ResponseData::Str(s) => s.as_bytes(),
            ResponseData::Slice(s) => *s,
            ResponseData::String(s) => s.as_str().as_bytes(),
        }
    }
}

/// A response written straight into a buffer.
pub struct HttpResponseBufferWriter {
    write_able_buffer: Vec<u8>,
}

impl HttpResponseBufferWriter {
    /// The bytes written so far.
    pub closed spec fn written(&self) -> Seq<u8> {
        self.write_able_buffer@
    }

    /// A writer going on after the bytes already in `buffer`.
    pub fn new(buffer: Vec<u8>) -> (r: Self)
        ensures
            r.written() == buffer@,
    {
        HttpResponseBufferWriter { write_able_buffer: buffer }
    }

    /// Writes an HTTP/1.1 status line with the code and its label.
    pub fn with_version_and_status(buffer: Vec<u8>, code: u16, label: &str) -> (r: Self)
        ensures
            r.written() == buffer@ + utf8("HTTP/1.1 "@) + utf8(decimal_text(code as nat)) + utf8(" "@) + utf8(label@)
                + utf8("\r\n"@),
    {
        let mut buffer = buffer;
        extend_str(&mut buffer, "HTTP/1.1 ");
        let digits = decimal_string(code as u64);
        extend_str(&mut buffer, digits.as_str());
        extend_str(&mut buffer, " ");
        extend_str(&mut buffer, label);
        extend_str(&mut buffer, "\r\n");
        HttpResponseBufferWriter { write_able_buffer: buffer }
    }

    /// Writes a `200 OK` status line.
    pub fn success(buffer: Vec<u8>) -> (r: Self)
        ensures
            r.written() == buffer@ + utf8("HTTP/1.1 "@) + utf8(decimal_text(200)) + utf8(" "@) + utf8("OK"@)
                + utf8("\r\n"@),
    {
        Self::with_version_and_status(buffer, 200, "OK")
    }

    /// Writes the header line `key: value`.
    pub fn set_header_pair(&mut self, key: &str, value: &str)
        ensures
            final(self).written() == old(self).written() + utf8(key@) + utf8(": "@) + utf8(value@) + utf8("\r\n"@),
    {
        extend_str(&mut self.write_able_buffer, key);
        extend_str(&mut self.write_able_buffer, ": ");
        extend_str(&mut self.write_able_buffer, value);
        extend_str(&mut self.write_able_buffer, "\r\n");
    }

    /// Writes the data's `Content-Length`, ends the head and writes the
    /// data.
    pub fn send_data_with_content_length(&mut self, data: ResponseData)
        ensures
            final(self).written() == old(self).written() + utf8("Content-Length: "@) + utf8(
                decimal_text(response_data_bytes(data).len()),
            ) + utf8("\r\n\r\n"@) + response_data_bytes(data),
    {
        let bytes = data.as_bytes();
        extend_str(&mut self.write_able_buffer, "Content-Length: ");
        let digits = decimal_string(bytes.len() as u64);
        extend_str(&mut self.write_able_buffer, digits.as_str());
        extend_str(&mut self.write_able_buffer, "\r\n\r\n");
        extend_bytes(&mut self.write_able_buffer, bytes);
    }

    /// Writes the data as it is.
    pub fn send_data(&mut self, data: ResponseData)
        ensures
            final(self).written() == old(self).written() + response_data_bytes(data),
    {
        extend_bytes(&mut self.write_able_buffer, data.as_bytes());
    }

    /// The bytes written.
    pub fn into_buffer(self) -> (r: Vec<u8>)
        ensures
            r@ == self.written(),
    {
        self.write_able_buffer
    }
}

} // verus!
