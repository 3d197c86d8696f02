use water_http::framework_http::request::multipart_form::{
    collect_fields, file_path_for, find_saving_rule, handle_chunk, handle_chunk_checked, multipart_bytes_to, multipart_bytes_to_is_defined, HttpMultiPartFormDataField,
    SaveMetadataForMultipart,
};
use water_http::framework_http::request::x_www_form_urlencoded::XWWWFormUrlEncoded;

#[test]
fn form_from_text() {
    let f = XWWWFormUrlEncoded::from_str("a=1&b=2&a=3&c").ok().unwrap();
    assert_eq!(f.get("a").map(|v| v.as_str()), Some("3"));
    assert_eq!(f.get("b").map(|v| v.as_str()), Some("2"));
    assert_eq!(f.get("c"), None);
    assert_eq!(f.data.len(), 2);
}

#[test]
fn form_without_pairs_is_refused() {
    assert_eq!(XWWWFormUrlEncoded::from_str("nothing").err(), Some("can not create x-www-form-urlencoded".to_string()));
}

#[test]
fn form_read_after_insert() {
    let mut f = XWWWFormUrlEncoded::from_str("a=1").ok().unwrap();
    assert_eq!(f.insert("b".to_string(), "2".to_string()), None);
    assert_eq!(f.insert("a".to_string(), "9".to_string()), Some("1".to_string()));
    assert_eq!(f.get("a").map(|v| v.as_str()), Some("9"));
    assert_eq!(f.get("b").map(|v| v.as_str()), Some("2"));
}

#[test]
fn field_from_header_text() {
    let f = HttpMultiPartFormDataField::from_string(
        "Content-Disposition: form-data; name=\"avatar\"; filename=\"me.png\"\r\nContent-Type: image/png\r\n",
    )
    .ok()
    .unwrap();
    assert_eq!(f.get_name_key(), "avatar");
    assert_eq!(f.get_file_name().map(|s| s.as_str()), Some("me.png"));
    assert!(HttpMultiPartFormDataField::from_string("Content-Type: text/plain").is_err());
}

fn body() -> Vec<u8> {
    b"--XX\r\nContent-Disposition: form-data; name=\"a\"\r\n\r\nhello\r\n--XX\r\nContent-Disposition: form-data; name=\"b\"\r\n\r\nworld\r\n--XX--\r\n".to_vec()
}

#[test]
fn chunk_handling_splits_fields() {
    let mut field = None;
    let mut extra = Vec::new();
    let mut out = Vec::new();
    let data = body();
    handle_chunk(&mut field, Some(&data), b"--XX", &mut extra, &mut out);
    assert_eq!(out.len(), 2);
    assert_eq!(out[0].0.get_name_key(), "a");
    assert_eq!(out[0].1, b"hello".to_vec());
    assert_eq!(out[1].0.get_name_key(), "b");
    assert_eq!(out[1].1, b"world".to_vec());
    assert!(extra.is_empty());
    assert_eq!(field.as_ref().map(|f| f.get_name_key()), Some("b"));
}

#[test]
fn gathered_fields_drop_a_last_field_without_line_end() {
    let mut field = None;
    let mut extra = Vec::new();
    let mut out = Vec::new();
    let data = body();
    handle_chunk(&mut field, Some(&data), b"--XX", &mut extra, &mut out);
    let gathered = collect_fields(&out);
    assert_eq!(gathered.len(), 1);
    assert_eq!(gathered[0].0.get_name_key(), "a");
    assert_eq!(gathered[0].1, b"hello".to_vec());
}

#[test]
fn saving_paths() {
    let field = HttpMultiPartFormDataField::from_string("Content-Disposition: form-data; name=\"f\"; filename=\"x.txt\"").ok().unwrap();
    let dir = SaveMetadataForMultipart::new("f", "./uploads");
    assert_eq!(file_path_for(&dir, &field), "./uploads/x.txt");
    let file = SaveMetadataForMultipart::new("f", "./uploads/y.bin");
    assert_eq!(file_path_for(&file, &field), "./uploads/y.bin");
    let rules = [SaveMetadataForMultipart::new("g", "./a"), file];
    assert_eq!(find_saving_rule(&rules, &field), Some(1));
}

#[test]
fn bytes_to_headers_and_data() {
    let chunk = b"--B\r\nName: v\r\n\r\ndata\r\n--B--";
    let mut headers = Vec::new();
    let mut data = Vec::new();
    let rest = multipart_bytes_to(chunk, b"--B", &mut headers, &mut data);
    assert_eq!(headers, b"Name: v".to_vec());
    assert_eq!(data, b"data".to_vec());
    assert_eq!(rest, Some(b"--B--".as_ref()));
}

#[test]
fn checked_chunk_handling_refuses_a_boundary_too_close() {
    let mut field = HttpMultiPartFormDataField::from_string("Content-Disposition: form-data; name=\"a\"").ok();
    let mut extra = Vec::new();
    let mut out = Vec::new();
    // Inside a field, a boundary one byte in leaves no room for the line end before it.
    let ok = handle_chunk_checked(&mut field, Some(b"x--XX\r\n"), b"--XX", &mut extra, &mut out);
    assert!(!ok);
    assert!(out.is_empty());
    assert!(extra.is_empty());
    assert_eq!(field.as_ref().map(|f| f.get_name_key()), Some("a"));
}

#[test]
fn checked_chunk_handling_handles_a_whole_body() {
    let mut field = None;
    let mut extra = Vec::new();
    let mut out = Vec::new();
    let data = body();
    assert!(handle_chunk_checked(&mut field, Some(&data), b"--XX", &mut extra, &mut out));
    assert_eq!(out.len(), 2);
    assert_eq!(out[1].1, b"world".to_vec());
}

#[test]
fn bytes_to_precondition_can_be_tested() {
    assert!(multipart_bytes_to_is_defined(b"--B\r\nName: v", b"--B", &Vec::new()));
    assert!(!multipart_bytes_to_is_defined(b"x--B", b"--B", &Vec::new()));
    assert!(!multipart_bytes_to_is_defined(b"--B\r\n", b"", &Vec::new()));
    assert!(multipart_bytes_to_is_defined(b"x--B", b"--B", &b"held".to_vec()));
}

#[test]
fn form_pairs_are_joined_by_ampersands() {
    let x = XWWWFormUrlEncoded::from_str("username=john&age=25").ok().unwrap();
    assert_eq!(x.get("username"), Some(&"john".to_string()));
    assert_eq!(x.get("age"), Some(&"25".to_string()));
    assert_eq!(x.data.len(), 2);
}

#[test]
fn field_names_hold_no_space_or_quote() {
    let f = HttpMultiPartFormDataField::from_string("Content-Disposition: form-data; name=\"avatar\"; filename=\"a.png\"")
        .ok()
        .unwrap();
    assert_eq!(f.get_name_key(), "avatar");
    assert!(!f.get_name_key().contains(' '));
    assert!(!f.get_name_key().contains('"'));
}
