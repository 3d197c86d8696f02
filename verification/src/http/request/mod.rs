//! Incoming request pieces: header lists, header values and bodies.

pub mod header;
pub mod body;
pub mod getter;
pub mod incoming;

pub use header::{KeyValueList, KeyValuePair, HeaderValue};
pub use body::{MultiPartFormDataField, XWWWFormUrlEncoded, Chunk, ParsingBodyMechanism, HandlingFormDataResult, HandlingChunkResult};
