//! A small HTTP framework: request parsing, header and form decoding,
//! multipart handling and response building, with verified contracts.

pub mod text;
pub mod chars;
pub mod assoc;
pub mod http;
pub mod framework_http;
pub mod configurations;
