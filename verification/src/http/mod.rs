//! Request parsing and response building for the HTTP/1 and HTTP/2 front ends.

pub mod request;
pub mod response;
