//! The request/response layer of the framework: header maps, forms,
//! multipart fields, response headers and encodings.

pub mod request;
pub mod response;
pub mod util;
pub mod chose_encoding_algorithm;
pub mod context;

pub use response::{ResponseHeadersBuilder, HttpRequestCookie, HttpVersion, HttpStatus, FirstLine};
