//! Request bodies: multipart fields, url-encoded forms and chunked framing.

pub mod multipartformdata;
pub mod xwwwformurlencoded;
pub mod chunked;
pub mod multer;
pub mod bytes_puller;
pub mod form_data;

pub use multipartformdata::MultiPartFormDataField;
pub use xwwwformurlencoded::XWWWFormUrlEncoded;
pub use chunked::{Chunk, find_new_line};
pub use bytes_puller::BytesPuller;
pub use form_data::{DynamicBodyMapTrait, HeapXWWWFormUrlEncoded, FormDataAll, HeapFormField, DynamicBodyMap};

use vstd::prelude::*;

verus! {

/// A request body read whole.
#[derive(Debug)]
pub enum IBody<'a> {
    /// The bytes, as they came.
    Bytes(&'a [u8]),
    /// Multipart form fields.
    MultiPartFormData(FormDataAll),
    /// An url-encoded form.
    XWWWFormUrlEncoded(XWWWFormUrlEncoded<'a>),
}

/// How the incoming body bytes should be parsed.
pub enum ParsingBodyMechanism {
    /// Decide from the Content-Type header.
    Default,
    /// Keep the raw bytes.
    JustBytes,
    /// Parse multipart form fields.
    FormData,
    /// Parse an url-encoded form.
    XWWWFormData,
}

/// What to do after one multipart form field was handled.
pub enum HandlingFormDataResult {
    /// Go on with the next field.
    Pass,
    /// Stop parsing fields but keep the connection.
    Stop,
    /// Stop and close the connection.
    Shutdown,
}

/// Whether one body chunk was handled.
pub enum HandlingChunkResult<'a> {
    /// The chunk was handled.
    Consumed,
    /// The chunk could not be handled.
    Error(&'a str),
}

} // verus!
