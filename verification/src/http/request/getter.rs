//! How an incoming body is to be handled, from what the request says of it.

use vstd::prelude::*;
use crate::http::request::body::ParsingBodyMechanism;
use crate::chars::{contains_text, contains_chars, split_text, split_chars};
use crate::text::{chars_of, utf8_lossy, utf8_lossy_text, to_lowercase, lowercase_text, bytes_eq};

verus! {

broadcast use vstd::string::group_string_axioms;

/// What to do with a request body.
pub enum BodyHandling {
    /// Nothing: there is no body, or nothing handles this one.
    NoBody,
    /// Stream it as multipart form fields.
    StreamMultipart,
    /// Stream it as raw bytes.
    StreamBytes,
    /// Read the rest of it, then parse it as an url-encoded form.
    ReadRestThenForm,
    /// Parse the buffered bytes as an url-encoded form.
    WholeForm,
    /// Hand on the buffered bytes.
    WholeBytes,
    /// Answer `400 Bad Request`.
    BadRequest,
}

/// The handling a body gets: by the mechanism asked for, whether the body
/// is all buffered already (its `Content-Length` at most the bytes
/// buffered), and the `Content-Type`. Only a type exactly
/// `multipart/form-data` streams as a form by default while bytes are
/// still to come; once all is buffered the type is matched in lower case
/// and by containment.
pub open spec fn body_handling(mechanism: ParsingBodyMechanism, content_length: Option<usize>, buffered: nat, content_type: Option<Seq<u8>>) -> BodyHandling {
    match content_length {
        None => BodyHandling::NoBody,
        Some(length) => if buffered < length {
            match mechanism {
                ParsingBodyMechanism::Default => match content_type {
                    Some(ct) => if ct == crate::text::utf8("multipart/form-data"@) {
                        BodyHandling::StreamMultipart
                    } else {
                        BodyHandling::NoBody
                    },
                    None => BodyHandling::NoBody,
                },
                ParsingBodyMechanism::JustBytes => BodyHandling::StreamBytes,
                ParsingBodyMechanism::FormData => if content_type is Some {
                    BodyHandling::StreamMultipart
                } else {
                    BodyHandling::NoBody
                },
                ParsingBodyMechanism::XWWWFormData => BodyHandling::ReadRestThenForm,
            }
        } else {
            match mechanism {
                ParsingBodyMechanism::Default => match content_type {
                    None => BodyHandling::BadRequest,
                    Some(ct) => {
                        let lower = lowercase_text(utf8_lossy_text(ct));
                        if contains_text(lower, "application/x-www-form-urlencoded"@) {
                            BodyHandling::WholeForm
                        } else if contains_text(lower, "multipart/form-data"@) {
                            BodyHandling::StreamMultipart
                        } else {
                            BodyHandling::WholeBytes
                        }
                    },
                },
                ParsingBodyMechanism::JustBytes => BodyHandling::WholeBytes,
                ParsingBodyMechanism::FormData => if content_type is Some {
                    BodyHandling::StreamMultipart
                } else {
                    BodyHandling::BadRequest
                },
                ParsingBodyMechanism::XWWWFormData => BodyHandling::WholeForm,
            }
        },
    }
}

/// Decides how to handle a request body.
pub fn choose_body_handling(
    mechanism: &ParsingBodyMechanism,
    content_length: Option<usize>,
    buffered: usize,
    content_type: Option<&[u8]>,
) -> (r: BodyHandling)
    ensures
        r == body_handling(*mechanism, content_length, buffered as nat, match content_type {
            Some(c) => Some(c@),
            None => None,
        }),
{
    let length = match content_length {
        None => return BodyHandling::NoBody,
        Some(l) => l,
    };
    if buffered < length {
        match mechanism {
            ParsingBodyMechanism::Default => match content_type {
                Some(ct) => {
                    if bytes_eq(ct, "multipart/form-data".as_bytes()) {
                        BodyHandling::StreamMultipart
                    } else {
                        BodyHandling::NoBody
                    }
                },
                None => BodyHandling::NoBody,
            },
            ParsingBodyMechanism::JustBytes => BodyHandling::StreamBytes,
            ParsingBodyMechanism::FormData => match content_type {
                Some(_) => BodyHandling::StreamMultipart,
                None => BodyHandling::NoBody,
            },
            ParsingBodyMechanism::XWWWFormData => BodyHandling::ReadRestThenForm,
        }
    } else {
        match mechanism {
            ParsingBodyMechanism::Default => match content_type {
                None => BodyHandling::BadRequest,
                Some(ct) => {
                    let text = utf8_lossy(ct);
                    let lower = to_lowercase(text.as_str());
                    let cs = chars_of(lower.as_str());
                    let form = chars_of("application/x-www-form-urlencoded");
                    let multipart = chars_of("multipart/form-data");
                    if contains_chars(cs.as_slice(), form.as_slice()) {
                        BodyHandling::WholeForm
                    } else if contains_chars(cs.as_slice(), multipart.as_slice()) {
                        BodyHandling::StreamMultipart
                    } else {
                        BodyHandling::WholeBytes
                    }
                },
            },
            ParsingBodyMechanism::JustBytes => BodyHandling::WholeBytes,
            ParsingBodyMechanism::FormData => match content_type {
                Some(_) => BodyHandling::StreamMultipart,
                None => BodyHandling::BadRequest,
            },
            ParsingBodyMechanism::XWWWFormData => BodyHandling::WholeForm,
        }
    }
}

/// What to do with the body of an HTTP/2 request, whose data frames are
/// read as they come.
pub enum H2BodyHandling {
    /// Stream it as multipart form fields with this boundary.
    StreamMultipart(String),
    /// Read all frames, then parse them as an url-encoded form.
    ReadForm,
    /// Stream it as raw bytes.
    StreamBytes,
    /// Answer `400 Bad Request`.
    BadRequest,
}

/// Whether header value bytes are all visible ASCII (or tabs), the bytes a
/// header value reads as text.
pub open spec fn visible_ascii(b: Seq<u8>) -> bool {
    forall|i: int| 0 <= i < b.len() ==> (b[i] == 9 || (32 <= #[trigger] b[i] && b[i] < 127))
}

/// The text after the last `boundary=` in a header value (all of it when
/// there is none).
pub open spec fn boundary_after(t: Seq<char>) -> Seq<char> {
    split_text(t, "boundary="@).last()
}

fn is_visible_ascii(b: &[u8]) -> (r: bool)
    ensures
        r == visible_ascii(b@),
{
    let mut i: usize = 0;
    while i < b.len()
        invariant
            i <= b@.len(),
            forall|j: int| 0 <= j < i ==> (b@[j] == 9 || (32 <= #[trigger] b@[j] && b@[j] < 127)),
        decreases b@.len() - i,
    {
        let c = b[i];
        if !(c == 9 || (32 <= c && c < 127)) {
            return false;
        }
        i = i + 1;
    }
    true
}

fn boundary_of(t: &str) -> (r: String)
    ensures
        r@ == boundary_after(t@),
{
    let cs = chars_of(t);
    let pattern = chars_of("boundary=");
    proof { reveal_strlit("boundary="); }
    let pieces = split_chars(cs.as_slice(), pattern.as_slice());
    proof { crate::chars::lemma_split_text_not_empty(t@, "boundary="@); }
    assert(pieces@.map_values(|v: Vec<char>| v@).last() == pieces@.last()@);
    crate::text::string_from_chars(pieces[pieces.len() - 1].as_slice())
}

/// Decides how to handle an HTTP/2 request body, by the mechanism asked
/// for, the declared length and the `Content-Type` bytes. By default a type
/// that holds `multipart/form-data` streams as a form with the boundary
/// after `boundary=`, one that holds `application/x-www-form-urlencoded`
/// is read as a form, and any other is streamed as bytes; no type is a bad
/// request, and so are bytes of a body declared empty. Asked for form data,
/// the boundary is read from the type only when it is visible ASCII.
pub fn choose_h2_body_handling(mechanism: &ParsingBodyMechanism, content_length: usize, content_type: Option<&[u8]>) -> (r: H2BodyHandling)
    ensures
        match *mechanism {
            ParsingBodyMechanism::Default => match content_type {
                None => r is BadRequest,
                Some(c) => {
                    let t = utf8_lossy_text(c@);
                    if contains_text(t, "multipart/form-data"@) {
                        r matches H2BodyHandling::StreamMultipart(b) && b@ == boundary_after(t)
                    } else if contains_text(t, "application/x-www-form-urlencoded"@) {
                        r is ReadForm
                    } else if content_length == 0 {
                        r is BadRequest
                    } else {
                        r is StreamBytes
                    }
                },
            },
            ParsingBodyMechanism::JustBytes => if content_length == 0 {
                r is BadRequest
            } else {
                r is StreamBytes
            },
            ParsingBodyMechanism::FormData => match content_type {
                None => r is BadRequest,
                Some(c) => r matches H2BodyHandling::StreamMultipart(b) && b@ == boundary_after(
                    if visible_ascii(c@) {
                        utf8_lossy_text(c@)
                    } else {
                        ""@
                    },
                ),
            },
            ParsingBodyMechanism::XWWWFormData => r is ReadForm,
        },
{
    match mechanism {
        ParsingBodyMechanism::Default => match content_type {
            None => H2BodyHandling::BadRequest,
            Some(c) => {
                let text = utf8_lossy(c);
                let cs = chars_of(text.as_str());
                let multipart = chars_of("multipart/form-data");
                let form = chars_of("application/x-www-form-urlencoded");
                if contains_chars(cs.as_slice(), multipart.as_slice()) {
                    H2BodyHandling::StreamMultipart(boundary_of(text.as_str()))
                } else if contains_chars(cs.as_slice(), form.as_slice()) {
                    H2BodyHandling::ReadForm
                } else if content_length == 0 {
                    H2BodyHandling::BadRequest
                } else {
                    H2BodyHandling::StreamBytes
                }
            },
        },
        ParsingBodyMechanism::JustBytes => if content_length == 0 {
            H2BodyHandling::BadRequest
        } else {
            H2BodyHandling::StreamBytes
        },
        ParsingBodyMechanism::FormData => match content_type {
            None => H2BodyHandling::BadRequest,
            Some(c) => {
                if is_visible_ascii(c) {
                    let text = utf8_lossy(c);
                    H2BodyHandling::StreamMultipart(boundary_of(text.as_str()))
                } else {
                    H2BodyHandling::StreamMultipart(boundary_of(""))
                }
            },
        },
        ParsingBodyMechanism::XWWWFormData => H2BodyHandling::ReadForm,
    }
}

/// The multipart boundary an HTTP/1 `Content-Type` value names for a body
/// read whole: the text after its last `boundary=`, read as UTF-8 (invalid
/// sequences replaced); none when that text is empty.
pub fn multipart_boundary(content_type: &[u8]) -> (r: Option<String>)
    ensures
        match r {
            Some(b) => b@ == boundary_after(utf8_lossy_text(content_type@)) && b@.len() > 0,
            None => boundary_after(utf8_lossy_text(content_type@)).len() == 0,
        },
{
    let text = utf8_lossy(content_type);
    let b = boundary_of(text.as_str());
    if b.as_str().is_empty() {
        None
    } else {
        Some(b)
    }
}

} // verus!
