use std::io::Read;
use water_http::framework_http::chose_encoding_algorithm::{
    detect_encoding_algorithm, encode_data_with_brotli, encode_data_with_deflate, encode_data_with_gzip, encode_data_with_z_std,
    HttpEncodingAlgorithms,
};
use water_http::framework_http::context::{
    apply_partial_content_headers, body_from_bytes, body_kind, content_boundary, file_range_from_header,
    fill_route_template, first_header_value, get_route_by_name, parse_u64, plan_data_response, plan_data_response_now, BodyKind, DataSendState,
    HttpIncomeBody, attachment_name, file_response_head, html_head, params_from_query, range_end_overflows, redirect_head, whole_body_read_done, whole_body_start, WholeBodyStart,
};
use water_http::framework_http::response::ResponseHeadersBuilder;
use water_http::framework_http::util::fast_finding_pattern_in_bytes;

fn s(v: &str) -> String {
    v.to_string()
}

#[test]
fn encoding_preference() {
    let h = vec![vec![s("gzip"), s("deflate")], vec![s("br")]];
    assert!(matches!(detect_encoding_algorithm(&h), Some(HttpEncodingAlgorithms::Gzip)));
    let h = vec![vec![s("deflate"), s("ZSTD")]];
    assert!(matches!(detect_encoding_algorithm(&h), Some(HttpEncodingAlgorithms::ZStd)));
    let h = vec![vec![s("identity")], vec![s("brotli")]];
    assert!(matches!(detect_encoding_algorithm(&h), Some(HttpEncodingAlgorithms::Brotli)));
    let h = vec![vec![s("identity")]];
    assert!(detect_encoding_algorithm(&h).is_none());
}

#[test]
fn gzip_and_deflate_round_trip() {
    let mut out = Vec::new();
    assert_eq!(encode_data_with_gzip(b"hello hello hello", &mut out), Ok(()));
    let mut back = String::new();
    flate2::read::GzDecoder::new(&out[..]).read_to_string(&mut back).unwrap();
    assert_eq!(back, "hello hello hello");
    let mut out = Vec::new();
    assert_eq!(encode_data_with_deflate(b"abcabcabc", &mut out), Ok(()));
    let mut back = String::new();
    flate2::read::DeflateDecoder::new(&out[..]).read_to_string(&mut back).unwrap();
    assert_eq!(back, "abcabcabc");
}

#[test]
fn zstd_output_decodes_to_the_input() {
    let mut out = Vec::new();
    let body = b"plain plain plain plain plain plain";
    assert_eq!(encode_data_with_z_std(body, &mut out), Ok(()));
    assert_ne!(out, body.to_vec());
    assert_eq!(zstd::decode_all(&out[..]).unwrap(), body.to_vec());
}

#[test]
fn brotli_output_differs_from_the_input() {
    let mut out = Vec::new();
    let body = b"brotli brotli brotli brotli brotli";
    assert_eq!(encode_data_with_brotli(body, &mut out), Ok(()));
    assert!(!out.is_empty());
    assert_ne!(out, body.to_vec());
}

#[test]
fn data_after_head_goes_as_is() {
    let r = plan_data_response(b"abc", true, true, 0, None, "d");
    assert!(r.headers.is_none());
    assert_eq!(r.payload, b"abc".to_vec());
}

#[test]
fn small_data_gets_length_and_date() {
    let accept = vec![vec![s("gzip")]];
    let r = plan_data_response(b"abc", true, false, 10, Some(&accept), "Mon");
    let h = r.headers.unwrap();
    assert_eq!(h.to_bytes(), b"HTTP/1.1 200 OK\r\nContent-Length: 3\r\nDate: Mon\r\n\r\n".to_vec());
    assert_eq!(r.payload, b"abc".to_vec());
    assert!(r.encoding.is_none());
}

#[test]
fn large_data_is_encoded() {
    let accept = vec![vec![s("gzip")]];
    let r = plan_data_response(b"aaaaaaaaaa", false, false, 4, Some(&accept), "Mon");
    assert!(matches!(r.encoding, Some(HttpEncodingAlgorithms::Gzip)));
    let h = r.headers.unwrap();
    assert_eq!(h.to_bytes(), b"HTTP/1.1 200 OK\r\nContent-Encoding: gzip\r\nDate: Mon\r\n\r\n".to_vec());
    let mut back = String::new();
    flate2::read::GzDecoder::new(&r.payload[..]).read_to_string(&mut back).unwrap();
    assert_eq!(back, "aaaaaaaaaa");
    let small = plan_data_response(b"aaa", false, false, 4, Some(&accept), "Mon");
    assert!(small.encoding.is_none());
    assert_eq!(small.payload, b"aaa".to_vec());
}

#[test]
fn numbers_parse_like_std() {
    let c = |t: &str| -> Vec<char> { t.chars().collect() };
    assert_eq!(parse_u64(&c("42")), Some(42));
    assert_eq!(parse_u64(&c("+7")), Some(7));
    assert_eq!(parse_u64(&c("")), None);
    assert_eq!(parse_u64(&c("+")), None);
    assert_eq!(parse_u64(&c("1a")), None);
    assert_eq!(parse_u64(&c("18446744073709551615")), Some(u64::MAX));
    assert_eq!(parse_u64(&c("18446744073709551616")), None);
}

#[test]
fn range_headers() {
    assert_eq!(file_range_from_header("bytes=10-20", 100), Ok((10, 20)));
    assert_eq!(file_range_from_header("bytes=10-", 50), Ok((10, 50)));
    assert_eq!(file_range_from_header("bytes=5-", 1000000), Ok((5, 100005)));
    assert_eq!(file_range_from_header("bytes=20-10", 100), Err(s("Ranges Not Satisfiable")));
    assert_eq!(file_range_from_header("bytes=0-200", 100), Err(s("Ranges Not Satisfiable")));
}

#[test]
fn partial_content_head() {
    let mut h = ResponseHeadersBuilder::success();
    h.set_header_key_value("Content-Type", "text/plain");
    apply_partial_content_headers(&mut h, 10, 20, 100, Some("video/mp4"));
    assert_eq!(
        h.to_bytes(),
        b"HTTP/1.1 206 Partial\r\nContent-Type: video/mp4\r\nContent-Length: 11\r\nAccess-Control-Allow-Origin: *\r\nContent-Range: bytes 10-20/99\r\nAccept-Ranges: bytes\r\n\r\n".to_vec()
    );
}

#[test]
fn boundary_and_first_value() {
    let ct = vec![vec![s("multipart/form-data")], vec![s(" boundary=----abc")]];
    assert_eq!(content_boundary(&ct), Some(s("----abc")));
    assert_eq!(content_boundary(&vec![vec![s("text/plain")]]), None);
    assert_eq!(first_header_value(&ct).map(|v| v.as_str()), Some("multipart/form-data"));
    assert_eq!(first_header_value(&vec![]), None);
}

#[test]
fn route_templates() {
    let opts: [(&str, &str); 2] = [("id", "5"), ("tab", "info")];
    assert_eq!(fill_route_template("/users/{id}/{tab}", Some(&opts)), Some(s("/users/5/info")));
    assert_eq!(fill_route_template("/users/{id}", Some(&opts)), None);
    assert_eq!(fill_route_template("/home", None), Some(s("/home")));
    assert_eq!(fill_route_template("", None), None);
    let routes = vec![(s("user"), s("/u/{id}")), (s("home"), s("/"))];
    assert_eq!(get_route_by_name("user", Some(&opts[..1]), &routes), Some(s("/u/5")));
    assert_eq!(get_route_by_name("missing", None, &routes), None);
}

#[test]
fn body_kinds_and_bodies() {
    assert!(matches!(body_kind("Multipart/Form-Data"), BodyKind::MultipartForm));
    assert!(matches!(body_kind("application/json"), BodyKind::Json));
    assert!(matches!(body_kind("text/plain"), BodyKind::Other));
    match body_from_bytes(&BodyKind::FormUrlEncoded, b"a=1&b=2".to_vec()) {
        Some(HttpIncomeBody::XWWWForm(f)) => assert_eq!(f.get("b").map(|v| v.as_str()), Some("2")),
        _ => panic!("a form was expected"),
    }
    assert!(matches!(body_from_bytes(&BodyKind::FormUrlEncoded, b"plain".to_vec()), Some(HttpIncomeBody::Unit8Vec(_))));
    assert!(matches!(body_from_bytes(&BodyKind::Json, b"{}".to_vec()), Some(HttpIncomeBody::Json(_))));
    assert!(body_from_bytes(&BodyKind::Other, b"x".to_vec()).is_none());
}

#[test]
fn pattern_positions() {
    assert_eq!(fast_finding_pattern_in_bytes(b"abcabc", b"ca"), Some((2, 3)));
    assert_eq!(fast_finding_pattern_in_bytes(b"abc", b"x"), None);
}

#[test]
fn whole_body_reading_decisions() {
    assert!(matches!(whole_body_start(None, 10), WholeBodyStart::NoLength));
    assert!(matches!(whole_body_start(Some(10), 10), WholeBodyStart::Buffered));
    assert!(matches!(whole_body_start(Some(10), 12), WholeBodyStart::Buffered));
    assert!(matches!(whole_body_start(Some(10), 3), WholeBodyStart::ReadMore));
    assert!(whole_body_read_done(0, 4096));
    assert!(whole_body_read_done(100, 4096));
    assert!(!whole_body_read_done(4096, 4096));
}

#[test]
fn data_now_carries_a_gmt_date() {
    let r = plan_data_response_now(b"abc", true, false, 10, None);
    let text = String::from_utf8(r.headers.unwrap().to_bytes()).unwrap();
    assert!(text.starts_with("HTTP/1.1 200 OK\r\nContent-Length: 3\r\nDate: "));
    assert!(text.ends_with(" GMT\r\n\r\n"));
    assert_eq!(r.payload, b"abc".to_vec());
}

#[test]
fn redirect_and_html_heads() {
    let r = redirect_head("/home");
    assert_eq!(r.to_bytes(), b"HTTP/1.1 302 Found Redirect\r\nLocation: /home\r\nContent-Length: 1\r\n\r\n".to_vec());
    let h = html_head(12);
    assert_eq!(
        h.to_bytes(),
        b"HTTP/1.1 200 OK\r\nContent-Type: text/html; charset=UTF-8\r\nContent-Length: 12\r\n\r\n".to_vec()
    );
    assert!(params_from_query("GET"));
    assert!(params_from_query("get"));
    assert!(!params_from_query("POST"));
}

#[test]
fn range_starts_that_overflow() {
    assert!(range_end_overflows("bytes=18446744073709551615-"));
    assert!(!range_end_overflows("bytes=18446744073709551615-18446744073709551615"));
    assert!(!range_end_overflows("bytes=0-"));
    assert!(!range_end_overflows("bytes=x-"));
}

#[test]
fn sending_data_marks_the_head_and_counts_bytes() {
    let state = DataSendState::new();
    let first = plan_data_response(b"abc", true, state.header_sent, 10, None, "Mon");
    assert_eq!(first.headers.unwrap().to_bytes(), b"HTTP/1.1 200 OK\r\nContent-Length: 3\r\nDate: Mon\r\n\r\n".to_vec());
    let state = state.after_data(3, true);
    assert!(state.header_sent);
    assert_eq!(state.bytes_sent, 3);
    let second = plan_data_response(b"de", true, state.header_sent, 10, None, "Mon");
    assert!(second.headers.is_none());
    assert_eq!(second.payload, b"de".to_vec());
    let failed = state.after_data(2, false);
    assert_eq!(failed.bytes_sent, 3);
}

#[test]
fn whole_file_heads() {
    let known = file_response_head("/srv/a.html", 5);
    assert_eq!(
        known.to_bytes(),
        b"HTTP/1.1 200 OK\r\nContent-Type: text/html\r\nContent-Length: 5\r\n\r\n".to_vec()
    );
    let unknown = file_response_head("/srv/blob.qqq", 7);
    assert_eq!(
        unknown.to_bytes(),
        b"HTTP/1.1 400 Bad Request\r\nContent-Type: application/octet-stream\r\nAccept-Ranges: bytes\r\nContent-Disposition: attachment; filename=\"blob.qqq\"\r\nContent-Length: 7\r\n\r\n".to_vec()
    );
}

#[test]
fn attachment_names_are_debug_quoted() {
    assert_eq!(attachment_name("/srv/report.pdf"), "\"report.pdf\"");
    assert_eq!(attachment_name("/srv/a \"x\".bin"), "\"a \\\"x\\\".bin\"");
    assert_eq!(attachment_name("/srv/.."), "\"file_downloaded.\\\"\\\"\"");
}
