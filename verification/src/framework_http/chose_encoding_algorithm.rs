//! Choosing a response encoding from `Accept-Encoding`, and encoding with
//! zstd, brotli, gzip or deflate.

use vstd::prelude::*;
use crate::chars::{contains_text, contains_chars};
use crate::text::{chars_of, to_lowercase, lowercase_text};
use crate::framework_http::request::strings_view;

verus! {

broadcast use vstd::string::group_string_axioms;

/// The encodings a response can have.
pub enum HttpEncodingAlgorithms {
    ZStd,
    Brotli,
    Gzip,
    Deflate,
}

/// The encoding that one `;`-separated part of `Accept-Encoding` asks for,
/// by the first of these that any of its items mentions: `zstd` (in any
/// case), `br` or `brotli`, `gzip`, `deflate`.
pub open spec fn part_encoding(items: Seq<Seq<char>>) -> Option<HttpEncodingAlgorithms> {
    if exists|i: int| 0 <= i < items.len() && contains_text(lowercase_text(items[i]), "zstd"@) {
        Some(HttpEncodingAlgorithms::ZStd)
    } else if exists|i: int| 0 <= i < items.len() && (contains_text(items[i], "br"@) || contains_text(items[i], "brotli"@)) {
        Some(HttpEncodingAlgorithms::Brotli)
    } else if exists|i: int| 0 <= i < items.len() && contains_text(items[i], "gzip"@) {
        Some(HttpEncodingAlgorithms::Gzip)
    } else if exists|i: int| 0 <= i < items.len() && contains_text(items[i], "deflate"@) {
        Some(HttpEncodingAlgorithms::Deflate)
    } else {
        None
    }
}

/// The encoding of the first part of the header that asks for one.
pub open spec fn header_encoding(parts: Seq<Seq<Seq<char>>>) -> Option<HttpEncodingAlgorithms>
    decreases parts.len(),
{
    if parts.len() == 0 {
        None
    } else {
        match part_encoding(parts[0]) {
            Some(a) => Some(a),
            None => header_encoding(parts.drop_first()),
        }
    }
}

/// Whether an `Accept-Encoding` item names the encoding: `zstd` in any
/// case; `br` or `brotli`; `gzip`; `deflate`.
pub open spec fn item_names(item: Seq<char>, a: HttpEncodingAlgorithms) -> bool {
    match a {
        HttpEncodingAlgorithms::ZStd => contains_text(lowercase_text(item), "zstd"@),
        HttpEncodingAlgorithms::Brotli => contains_text(item, "br"@) || contains_text(item, "brotli"@),
        HttpEncodingAlgorithms::Gzip => contains_text(item, "gzip"@),
        HttpEncodingAlgorithms::Deflate => contains_text(item, "deflate"@),
    }
}

/// The preference among encodings: zstd first, then brotli, gzip, deflate.
pub open spec fn preference(a: HttpEncodingAlgorithms) -> int {
    match a {
        HttpEncodingAlgorithms::ZStd => 0,
        HttpEncodingAlgorithms::Brotli => 1,
        HttpEncodingAlgorithms::Gzip => 2,
        HttpEncodingAlgorithms::Deflate => 3,
    }
}

/// Whether some item of a part names some encoding.
pub open spec fn part_asks(items: Seq<Seq<char>>) -> bool {
    exists|i: int, b: HttpEncodingAlgorithms| 0 <= i < items.len() && #[trigger] item_names(items[i], b)
}

proof fn lemma_part_encoding(items: Seq<Seq<char>>)
    ensures
        match part_encoding(items) {
            Some(a) => (exists|i: int| 0 <= i < items.len() && #[trigger] item_names(items[i], a)) && forall|
                i: int,
                b: HttpEncodingAlgorithms,
            | 0 <= i < items.len() && preference(b) < preference(a) ==> !#[trigger] item_names(items[i], b),
            None => !part_asks(items),
        },
{
    match part_encoding(items) {
        Some(a) => {
            let i = match a {
                HttpEncodingAlgorithms::ZStd => choose|i: int|
                    0 <= i < items.len() && contains_text(lowercase_text(items[i]), "zstd"@),
                HttpEncodingAlgorithms::Brotli => choose|i: int|
                    0 <= i < items.len() && (contains_text(items[i], "br"@) || contains_text(items[i], "brotli"@)),
                HttpEncodingAlgorithms::Gzip => choose|i: int| 0 <= i < items.len() && contains_text(items[i], "gzip"@),
                HttpEncodingAlgorithms::Deflate => choose|i: int|
                    0 <= i < items.len() && contains_text(items[i], "deflate"@),
            };
            assert(item_names(items[i], a));
            assert forall|j: int, b: HttpEncodingAlgorithms|
                0 <= j < items.len() && preference(b) < preference(a) implies !#[trigger] item_names(items[j], b) by {
                match b {
                    HttpEncodingAlgorithms::ZStd => {},
                    HttpEncodingAlgorithms::Brotli => {},
                    HttpEncodingAlgorithms::Gzip => {},
                    HttpEncodingAlgorithms::Deflate => {},
                }
            }
        },
        None => {
            assert forall|i: int, b: HttpEncodingAlgorithms| 0 <= i < items.len() implies !#[trigger] item_names(
                items[i],
                b,
            ) by {
                match b {
                    HttpEncodingAlgorithms::ZStd => {},
                    HttpEncodingAlgorithms::Brotli => {},
                    HttpEncodingAlgorithms::Gzip => {},
                    HttpEncodingAlgorithms::Deflate => {},
                }
            }
        },
    }
}

/// Whether `a` is what part `k` of the header asks for, that part being
/// the first that names any encoding: an item of it names `a`, and none
/// names an encoding preferred to `a`.
pub open spec fn asked_by_part(parts: Seq<Seq<Seq<char>>>, k: int, a: HttpEncodingAlgorithms) -> bool {
    &&& 0 <= k < parts.len()
    &&& forall|j: int| 0 <= j < k ==> !#[trigger] part_asks(parts[j])
    &&& exists|i: int| 0 <= i < parts[k].len() && #[trigger] item_names(parts[k][i], a)
    &&& forall|i: int, b: HttpEncodingAlgorithms|
        0 <= i < parts[k].len() && preference(b) < preference(a) ==> !#[trigger] item_names(parts[k][i], b)
}

/// The encoding chosen from `Accept-Encoding` is one that the header
/// names: it comes from the first part whose items name any encoding, an
/// item of that part names it, and no item of that part names an encoding
/// preferred to it (zstd, then brotli, gzip, deflate). When no item names
/// any encoding, none is chosen.
pub proof fn law_encoding_is_named(parts: Seq<Seq<Seq<char>>>)
    ensures
        match header_encoding(parts) {
            Some(a) => exists|k: int| #[trigger] asked_by_part(parts, k, a),
            None => forall|k: int| 0 <= k < parts.len() ==> !#[trigger] part_asks(parts[k]),
        },
    decreases parts.len(),
{
    if parts.len() > 0 {
        lemma_part_encoding(parts[0]);
        law_encoding_is_named(parts.drop_first());
        match part_encoding(parts[0]) {
            Some(a) => {
                assert(asked_by_part(parts, 0, a));
            },
            None => {
                assert(header_encoding(parts) == header_encoding(parts.drop_first()));
                match header_encoding(parts.drop_first()) {
                    Some(a) => {
                        let k = choose|k: int| #[trigger] asked_by_part(parts.drop_first(), k, a);
                        assert(parts.drop_first()[k] == parts[k + 1]);
                        assert forall|j: int| 0 <= j < k + 1 implies !#[trigger] part_asks(parts[j]) by {
                            if j > 0 {
                                assert(parts.drop_first()[j - 1] == parts[j]);
                            }
                        }
                        assert(asked_by_part(parts, k + 1, a));
                    },
                    None => {
                        assert forall|k: int| 0 <= k < parts.len() implies !#[trigger] part_asks(parts[k]) by {
                            if k > 0 {
                                assert(parts.drop_first()[k - 1] == parts[k]);
                            }
                        }
                    },
                }
            },
        }
    }
}

fn any_lower_contains(items: &Vec<String>, needle: &str) -> (r: bool)
    ensures
        r == exists|i: int| 0 <= i < items@.len() && contains_text(lowercase_text(items@[i]@), needle@),
{
    let n = chars_of(needle);
    let mut i: usize = 0;
    while i < items.len()
        invariant
            i <= items@.len(),
            n@ == needle@,
            forall|j: int| 0 <= j < i ==> !contains_text(lowercase_text(items@[j]@), needle@),
        decreases items@.len() - i,
    {
        let lower = to_lowercase(items[i].as_str());
        let cs = chars_of(lower.as_str());
        if contains_chars(cs.as_slice(), n.as_slice()) {
            return true;
        }
        i = i + 1;
    }
    false
}

fn any_contains(items: &Vec<String>, needle: &str) -> (r: bool)
    ensures
        r == exists|i: int| 0 <= i < items@.len() && contains_text(items@[i]@, needle@),
{
    let n = chars_of(needle);
    let mut i: usize = 0;
    while i < items.len()
        invariant
            i <= items@.len(),
            n@ == needle@,
            forall|j: int| 0 <= j < i ==> !contains_text(items@[j]@, needle@),
        decreases items@.len() - i,
    {
        let cs = chars_of(items[i].as_str());
        if contains_chars(cs.as_slice(), n.as_slice()) {
            return true;
        }
        i = i + 1;
    }
    false
}

fn any_contains_either(items: &Vec<String>, a: &str, b: &str) -> (r: bool)
    ensures
        r == exists|i: int| 0 <= i < items@.len() && (contains_text(items@[i]@, a@) || contains_text(items@[i]@, b@)),
{
    let na = chars_of(a);
    let nb = chars_of(b);
    let mut i: usize = 0;
    while i < items.len()
        invariant
            i <= items@.len(),
            na@ == a@,
            nb@ == b@,
            forall|j: int| 0 <= j < i ==> !(contains_text(items@[j]@, a@) || contains_text(items@[j]@, b@)),
        decreases items@.len() - i,
    {
        let cs = chars_of(items[i].as_str());
        if contains_chars(cs.as_slice(), na.as_slice()) || contains_chars(cs.as_slice(), nb.as_slice()) {
            return true;
        }
        i = i + 1;
    }
    false
}

/// Chooses the encoding for a response from the parts and items of the
/// request's `Accept-Encoding` header.
pub fn detect_encoding_algorithm(encoding_header: &Vec<Vec<String>>) -> (r: Option<HttpEncodingAlgorithms>)
    ensures
        r == header_encoding(encoding_header@.map_values(|inner: Vec<String>| strings_view(inner@))),
{
    let ghost parts = encoding_header@.map_values(|inner: Vec<String>| strings_view(inner@));
    let mut k: usize = 0;
    assert(parts.skip(0) =~= parts);
    while k < encoding_header.len()
        invariant
            k <= encoding_header@.len(),
            parts == encoding_header@.map_values(|inner: Vec<String>| strings_view(inner@)),
            header_encoding(parts) == header_encoding(parts.skip(k as int)),
        decreases encoding_header@.len() - k,
    {
        let m = &encoding_header[k];
        let ghost items = strings_view(m@);
        assert(parts.skip(k as int)[0] == items);
        assert(parts.skip(k as int).drop_first() =~= parts.skip(k + 1));
        assert(forall|i: int| 0 <= i < m@.len() ==> items[i] == #[trigger] m@[i]@);
        if any_lower_contains(m, "zstd") {
            return Some(HttpEncodingAlgorithms::ZStd);
        } else if any_contains_either(m, "br", "brotli") {
            return Some(HttpEncodingAlgorithms::Brotli);
        } else if any_contains(m, "gzip") {
            return Some(HttpEncodingAlgorithms::Gzip);
        } else if any_contains(m, "deflate") {
            return Some(HttpEncodingAlgorithms::Deflate);
        }
        k = k + 1;
    }
    None
}

/// What a zstd `Encoder` at level 3, over an empty vector, writes for the
/// bytes once it is finished.
pub uninterp spec fn zstd_compressed(bytes: Seq<u8>) -> Seq<u8>;

/// What a brotli `CompressorWriter` (buffer 4096, quality 11, window 22)
/// writes for the bytes.
pub uninterp spec fn brotli_compressed(bytes: Seq<u8>) -> Seq<u8>;

/// What a `GzEncoder` at the default level writes for the bytes.
pub uninterp spec fn gzip_compressed(bytes: Seq<u8>) -> Seq<u8>;

/// What a `DeflateEncoder` at the default level writes for the bytes.
pub uninterp spec fn deflate_compressed(bytes: Seq<u8>) -> Seq<u8>;

/// `zstd::Encoder::new` over an empty vector at level 3, `write_all` of
/// the bytes, then `finish`. Level 3 with no dictionary is a setting the
/// encoder accepts, and writing into a vector does not fail, so the
/// source leaves no error to come back (running out of memory aside):
/// the result is `Some`, holding the bytes named by `zstd_compressed`.
#[verifier::external_body]
fn zstd_finish(bytes: &[u8]) -> (r: Option<Vec<u8>>)
    ensures
        r is Some,
        r matches Some(v) ==> v@ == zstd_compressed(bytes@),
{
    match zstd::Encoder::new(Vec::new(), 3) {
        Ok(mut encoder) => match std::io::Write::write_all(&mut encoder, bytes) {
            Ok(_) => encoder.finish().ok(),
            Err(_) => None,
        },
        Err(_) => None,
    }
}

/// `brotli::CompressorWriter` over a vector: writes the bytes, and gives
/// the vector once the writer is dropped. Writing into a vector does not
/// fail, so the result is `Some`, holding the bytes named by
/// `brotli_compressed`.
#[verifier::external_body]
fn brotli_write(bytes: &[u8]) -> (r: Option<Vec<u8>>)
    ensures
        r is Some,
        r matches Some(v) ==> v@ == brotli_compressed(bytes@),
{
    let mut compressed = Vec::new();
    let mut compressor = brotli::CompressorWriter::new(&mut compressed, 4096, 11, 22);
    let written = std::io::Write::write_all(&mut compressor, bytes);
    drop(compressor);
    match written {
        Ok(_) => Some(compressed),
        Err(_) => None,
    }
}

/// `flate2::write::GzEncoder` at the default level over a vector: writes
/// the bytes and finishes. Neither step fails on a vector, so the result
/// is `Some`, holding the bytes named by `gzip_compressed`.
#[verifier::external_body]
fn gzip_write(bytes: &[u8]) -> (r: Option<Vec<u8>>)
    ensures
        r is Some,
        r matches Some(v) ==> v@ == gzip_compressed(bytes@),
{
    let mut encoder = flate2::write::GzEncoder::new(Vec::new(), flate2::Compression::default());
    match std::io::Write::write_all(&mut encoder, bytes) {
        Ok(_) => encoder.finish().ok(),
        Err(_) => None,
    }
}

/// `flate2::write::DeflateEncoder` at the default level over a vector:
/// writes the bytes and finishes. Neither step fails on a vector, so the
/// result is `Some`, holding the bytes named by `deflate_compressed`.
#[verifier::external_body]
fn deflate_write(bytes: &[u8]) -> (r: Option<Vec<u8>>)
    ensures
        r is Some,
        r matches Some(v) ==> v@ == deflate_compressed(bytes@),
{
    let mut encoder = flate2::write::DeflateEncoder::new(Vec::new(), flate2::Compression::default());
    match std::io::Write::write_all(&mut encoder, bytes) {
        Ok(_) => encoder.finish().ok(),
        Err(_) => None,
    }
}

/// The "zstd" encoding: `data` becomes the zstd-compressed bytes.
pub fn encode_data_with_z_std(bytes: &[u8], data: &mut Vec<u8>) -> (r: Result<(), ()>)
    ensures
        r is Ok,
        final(data)@ == zstd_compressed(bytes@),
{
    match zstd_finish(bytes) {
        Some(v) => {
            *data = v;
            Ok(())
        },
        None => Err(()),
    }
}

/// Brotli: `data` becomes the compressed bytes.
pub fn encode_data_with_brotli(bytes: &[u8], data: &mut Vec<u8>) -> (r: Result<(), ()>)
    ensures
        r is Ok,
        final(data)@ == brotli_compressed(bytes@),
{
    match brotli_write(bytes) {
        Some(v) => {
            *data = v;
            Ok(())
        },
        None => Err(()),
    }
}

/// Gzip: `data` becomes the compressed bytes.
pub fn encode_data_with_gzip(bytes: &[u8], data: &mut Vec<u8>) -> (r: Result<(), ()>)
    ensures
        r is Ok,
        final(data)@ == gzip_compressed(bytes@),
{
    match gzip_write(bytes) {
        Some(v) => {
            *data = v;
            Ok(())
        },
        None => Err(()),
    }
}

/// Deflate: `data` becomes the compressed bytes.
pub fn encode_data_with_deflate(bytes: &[u8], data: &mut Vec<u8>) -> (r: Result<(), ()>)
    ensures
        r is Ok,
        final(data)@ == deflate_compressed(bytes@),
{
    match deflate_write(bytes) {
        Some(v) => {
            *data = v;
            Ok(())
        },
        None => Err(()),
    }
}

} // verus!
