use water_http::http::request::body::ParsingBodyMechanism;
use water_http::http::request::getter::{choose_body_handling, choose_h2_body_handling, multipart_boundary, BodyHandling, H2BodyHandling};
use water_http::http::request::body::BytesPuller;

#[test]
fn no_length_no_body() {
    assert!(matches!(choose_body_handling(&ParsingBodyMechanism::Default, None, 0, None), BodyHandling::NoBody));
}

#[test]
fn buffered_bodies() {
    let form = Some(b"application/x-www-form-urlencoded; charset=utf-8".as_ref());
    assert!(matches!(choose_body_handling(&ParsingBodyMechanism::Default, Some(5), 5, form), BodyHandling::WholeForm));
    let multi = Some(b"Multipart/Form-Data; boundary=x".as_ref());
    assert!(matches!(choose_body_handling(&ParsingBodyMechanism::Default, Some(5), 9, multi), BodyHandling::StreamMultipart));
    assert!(matches!(choose_body_handling(&ParsingBodyMechanism::Default, Some(5), 9, Some(b"text/plain".as_ref())), BodyHandling::WholeBytes));
    assert!(matches!(choose_body_handling(&ParsingBodyMechanism::Default, Some(5), 9, None), BodyHandling::BadRequest));
    assert!(matches!(choose_body_handling(&ParsingBodyMechanism::FormData, Some(5), 9, None), BodyHandling::BadRequest));
}

#[test]
fn streamed_bodies() {
    let exact = Some(b"multipart/form-data".as_ref());
    assert!(matches!(choose_body_handling(&ParsingBodyMechanism::Default, Some(50), 9, exact), BodyHandling::StreamMultipart));
    let with_boundary = Some(b"multipart/form-data; boundary=x".as_ref());
    assert!(matches!(choose_body_handling(&ParsingBodyMechanism::Default, Some(50), 9, with_boundary), BodyHandling::NoBody));
    assert!(matches!(choose_body_handling(&ParsingBodyMechanism::JustBytes, Some(50), 9, None), BodyHandling::StreamBytes));
    assert!(matches!(choose_body_handling(&ParsingBodyMechanism::XWWWFormData, Some(50), 9, None), BodyHandling::ReadRestThenForm));
}

#[test]
fn puller_hands_on_exactly_the_declared_length() {
    let mut puller = BytesPuller::new(7);
    assert!(!puller.is_done());
    let mut seen = Vec::new();
    for chunk in [b"abc".as_ref(), b"def".as_ref(), b"ghij".as_ref(), b"kl".as_ref()] {
        let part = puller.on_chunk(chunk);
        seen.extend_from_slice(part);
    }
    assert_eq!(seen, b"abcdefg".to_vec());
    assert!(puller.is_done());
    assert_eq!(puller.remaining, 0);
}

#[test]
fn puller_with_headers_buffer_larger_than_body() {
    let mut puller = BytesPuller::new(2);
    assert_eq!(puller.on_chunk(b"xyz"), b"xy");
    assert!(puller.is_done());
    assert_eq!(puller.on_chunk(b"more"), b"");
}

#[test]
fn puller_frames_count_down() {
    let mut puller = BytesPuller::new(5);
    assert_eq!(puller.on_frame(b"ab"), b"ab");
    assert_eq!(puller.remaining, 3);
    assert_eq!(puller.on_frame(b"cde"), b"cde");
    assert!(puller.is_done());
}

#[test]
fn h2_default_handling_by_content_type() {
    let d = ParsingBodyMechanism::Default;
    assert!(matches!(choose_h2_body_handling(&d, 10, None), H2BodyHandling::BadRequest));
    match choose_h2_body_handling(&d, 10, Some(b"multipart/form-data; boundary=abc")) {
        H2BodyHandling::StreamMultipart(b) => assert_eq!(b, "abc"),
        _ => panic!("expected multipart"),
    }
    assert!(matches!(
        choose_h2_body_handling(&d, 10, Some(b"application/x-www-form-urlencoded")),
        H2BodyHandling::ReadForm
    ));
    assert!(matches!(choose_h2_body_handling(&d, 10, Some(b"text/plain")), H2BodyHandling::StreamBytes));
    assert!(matches!(choose_h2_body_handling(&d, 0, Some(b"text/plain")), H2BodyHandling::BadRequest));
}

#[test]
fn h2_other_mechanisms() {
    assert!(matches!(choose_h2_body_handling(&ParsingBodyMechanism::JustBytes, 0, None), H2BodyHandling::BadRequest));
    assert!(matches!(choose_h2_body_handling(&ParsingBodyMechanism::JustBytes, 3, None), H2BodyHandling::StreamBytes));
    assert!(matches!(choose_h2_body_handling(&ParsingBodyMechanism::XWWWFormData, 0, None), H2BodyHandling::ReadForm));
    match choose_h2_body_handling(&ParsingBodyMechanism::FormData, 5, Some(b"x; boundary=q1")) {
        H2BodyHandling::StreamMultipart(b) => assert_eq!(b, "q1"),
        _ => panic!("expected multipart"),
    }
    match choose_h2_body_handling(&ParsingBodyMechanism::FormData, 5, Some(b"boundary=\xff\x01")) {
        H2BodyHandling::StreamMultipart(b) => assert_eq!(b, ""),
        _ => panic!("expected multipart"),
    }
}

#[test]
fn h1_multipart_boundary_from_content_type() {
    assert_eq!(multipart_boundary(b"multipart/form-data; boundary=----x1"), Some("----x1".to_string()));
    assert_eq!(multipart_boundary(b"multipart/form-data; boundary="), None);
    assert_eq!(multipart_boundary(b"a; boundary=one; boundary=two"), Some("two".to_string()));
}
