//! The header block of one multipart form field.

use vstd::prelude::*;
use crate::http::request::header::{
    KeyValueList, PairScanOutcome, pair_scan, first_value_where, header_value_entries, header_lookup,
    unquote,
};
use crate::text::utf8_lossy_text;

verus! {

broadcast use vstd::string::group_string_axioms;

/// The parameters of the first `Content-Disposition` header among the slots.
pub open spec fn disposition_params(slots: Seq<(Seq<u8>, Seq<u8>)>) -> Option<Seq<(Seq<u8>, Seq<u8>)>> {
    let cd = vstd::utf8::encode_utf8("Content-Disposition"@);
    match first_value_where(slots, |k: Seq<u8>| k == cd) {
        Some(v) => Some(header_value_entries(v, Some(cd))),
        None => None,
    }
}

/// The header block of a multipart form field.
#[derive(Debug)]
pub struct MultiPartFormDataField<'a> {
    pub headers: KeyValueList<'a, 12>,
    /// How many bytes the header block takes, the blank line included.
    pub field_header_length: usize,
}

impl<'a> MultiPartFormDataField<'a> {
    /// Whether the field is a file: its `Content-Disposition` header has a
    /// `filename` parameter.
    pub fn is_file(&self) -> (r: bool)
        ensures
            r == (disposition_params(self.headers.slots()) matches Some(ps)
                && header_lookup(ps, "filename"@) is Some),
    {
        match self.headers.get_as_header_value("Content-Disposition") {
            Some(v) => v.get_from_values_as_bytes("filename").is_some(),
            None => false,
        }
    }

    /// The `name` parameter of the `Content-Disposition` header, without
    /// surrounding quotes, decoded.
    pub fn content_disposition_name(&self) -> (r: Option<String>)
        ensures
            match r {
                Some(s) => disposition_params(self.headers.slots()) matches Some(ps)
                    && header_lookup(ps, "name"@) matches Some(v) && s@ == utf8_lossy_text(unquote(v)),
                None => !(disposition_params(self.headers.slots()) matches Some(ps)
                    && header_lookup(ps, "name"@) is Some),
            },
            match r {
                Some(s) => crate::http::request::body::form_data::disposition_name(self.headers.slots()) == Some(s@),
                None => crate::http::request::body::form_data::disposition_name(self.headers.slots()) is None,
            },
    {
        match self.headers.get_as_header_value("Content-Disposition") {
            Some(v) => v.get_from_values_as_cow("name"),
            None => None,
        }
    }

    /// The value of the `Content-Type` header.
    pub fn content_type(&self) -> (r: Option<&'a [u8]>)
        ensures
            match r {
                Some(v) => header_lookup(self.headers.slots(), "Content-Type"@) == Some(v@),
                None => header_lookup(self.headers.slots(), "Content-Type"@) is None,
            },
    {
        self.headers.get_as_bytes("Content-Type")
    }

    /// Parses the header block at the start of `payload`; `None` when it does
    /// not end within the payload.
    pub fn new(payload: &'a [u8]) -> (r: Option<MultiPartFormDataField<'a>>)
        requires
            !(pair_scan(payload@, payload@.len(), 12) is Overflowed),
        ensures
            match r {
                Some(f) => f.headers.well_formed() && pair_scan(payload@, payload@.len(), 12)
                    == PairScanOutcome::Finished(f.headers.entries(), f.field_header_length as int),
                None => pair_scan(payload@, payload@.len(), 12) is Scanning,
            },
    {
        match KeyValueList::<'a, 12>::try_parse::<12>(payload) {
            Some((list, length)) => Some(MultiPartFormDataField { field_header_length: length, headers: list }),
            None => None,
        }
    }
}

} // verus!
