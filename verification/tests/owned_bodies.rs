use water_http::http::request::body::form_data::{DynamicBodyMap, FormDataAll};
use water_http::http::request::body::{DynamicBodyMapTrait, HeapXWWWFormUrlEncoded, MultiPartFormDataField, XWWWFormUrlEncoded};
use water_http::http::request::header::{KeyValueList, KeyValueMap};

const HEAD_A: &[u8] = b"Content-Disposition: form-data; name=\"a\"\r\n\r\n";
const HEAD_FILE: &[u8] =
    b"Content-Disposition: form-data; name=\"up\"; filename=\"x.png\"\r\nContent-Type: image/png\r\n\r\n";

#[test]
fn key_value_map_strips_quotes_from_names() {
    let (list, _) = KeyValueList::<12>::try_parse::<12>(HEAD_FILE).unwrap();
    let map = KeyValueMap::from(&list);
    assert_eq!(map.get_as_str("name"), Some("\"up\"".to_string()));
    assert_eq!(map.get_as_str("filename"), Some("\"x.png\"".to_string()));
    assert_eq!(map.get_as_bytes("Content-Type").map(|v| v.as_slice()), Some(b"image/png".as_ref()));
    assert_eq!(map.get_as_bytes("Content-Disposition").map(|v| v.as_slice()), Some(b"form-data".as_ref()));
    assert!(map.get_as_bytes("content-type").is_none());
    assert!(map.get_as_header_value("name").is_none());
}

#[test]
fn form_data_gathers_chunks_by_name() {
    let a = MultiPartFormDataField::new(HEAD_A).unwrap();
    let file = MultiPartFormDataField::new(HEAD_FILE).unwrap();
    let mut all = FormDataAll::new();
    all.push(&a, b"hel");
    all.push(&file, b"PNG");
    all.push(&a, b"lo");
    assert_eq!(all.fields.len(), 2);
    assert_eq!(all.get_as_bytes("a"), Some(b"hello".as_ref()));
    assert_eq!(all.get("\"up\""), Some("PNG".to_string()));
    assert!(all.get_field("up").unwrap().is_file());
    assert!(!all.get_field("a").unwrap().is_file());
    assert_eq!(all.get_field("up").unwrap().content_type(), Some(b"image/png".as_ref()));
    assert_eq!(all.get_field("a").unwrap().bytes(), b"hello".to_vec());
    assert!(all.get_as_bytes("b").is_none());
    let pairs = all.all();
    assert_eq!(pairs, vec![("a".to_string(), b"hello".to_vec()), ("up".to_string(), b"PNG".to_vec())]);
    if let Some(f) = all.get_mut("a") {
        f.data.push(b'!');
    }
    assert_eq!(all.get_as_bytes("a"), Some(b"hello!".as_ref()));
}

#[test]
fn heap_form_and_dynamic_lookups() {
    let form = XWWWFormUrlEncoded::new(b"name=J%C3%B6rg&age=3%2");
    let heap = HeapXWWWFormUrlEncoded::new(&form);
    assert_eq!(heap.all_ref().len(), 2);
    assert_eq!(heap.get("age"), Some("3%2".to_string()));
    let body = DynamicBodyMap::Xww(heap);
    assert_eq!(body.get_as_encoded_string("name"), Some("Jörg".to_string()));
    assert_eq!(body.get_as_encoded_string("age"), Some("3%2".to_string()));
    assert_eq!(body.get_as_encoded_string("none"), None);
    assert_eq!(form.get_as_encoded_string("name"), Some("Jörg".to_string()));
    assert_eq!(form.all().len(), 2);
}

#[test]
fn encoded_string_keeps_text_that_does_not_decode_to_utf8() {
    let form = XWWWFormUrlEncoded::new(b"k=%FF+x");
    assert_eq!(form.get_as_encoded_string("k"), Some("%FF+x".to_string()));
}

#[test]
fn default_form_data_is_empty() {
    let all = FormDataAll::default();
    assert!(all.fields.is_empty());
    assert!(all.all().is_empty());
}

#[test]
fn pushing_appends_under_the_disposition_name() {
    let a = MultiPartFormDataField::new(HEAD_A).unwrap();
    let n = a.content_disposition_name().unwrap();
    assert_eq!(n, "a");
    let mut all = FormDataAll::new();
    all.push(&a, b"x");
    assert_eq!(all.get_as_bytes(&n), Some(b"x".as_ref()));
    all.push(&a, b"yz");
    assert_eq!(all.get_as_bytes(&n), Some(b"xyz".as_ref()));
    assert_eq!(all.fields.len(), 1);
}
