use water_http::http::request::body::ParsingBodyMechanism;
use water_http::http::request::getter::BodyHandling;
use water_http::http::request::incoming::{decode_query_value, FormingRequestResult, IncomingHead, IncomingHeadError, IncomingRequest};

#[test]
fn reads_a_request_head() {
    let bytes = b"POST /form?id=2 HTTP/1.1\r\nHost: example.com\r\nContent-Length: 12\r\n\r\nname=Hassan!";
    match IncomingRequest::<16, 16>::new(bytes) {
        FormingRequestResult::Success(r) => {
            assert_eq!(r.method(), b"POST");
            assert_eq!(r.path(), b"/form?id=2");
            assert_eq!(r.http_version(), b"HTTP/1.1");
            assert_eq!(r.content_length(), Some(12));
            assert_eq!(r.get_from_path_query("id"), Some("2".to_string()));
            assert_eq!(r.get_from_path_query("none"), None);
            let total = r.get_total_headers_length();
            assert_eq!(&bytes[total - 1..], b"name=Hassan!");
        }
        _ => panic!("a head was expected"),
    }
}

#[test]
fn content_length_is_found_in_any_case_and_must_be_a_number() {
    let lower = b"GET / HTTP/1.1\r\nHost: a\r\ncontent-length: 7\r\n\r\n";
    match IncomingRequest::<16, 16>::new(lower) {
        FormingRequestResult::Success(r) => assert_eq!(r.content_length(), Some(7)),
        _ => panic!("a head was expected"),
    }
    let bad = b"GET / HTTP/1.1\r\nHost: a\r\nContent-Length: 7x\r\n\r\n";
    match IncomingRequest::<16, 16>::new(bad) {
        FormingRequestResult::Success(r) => assert_eq!(r.content_length(), None),
        _ => panic!("a head was expected"),
    }
}

#[test]
fn short_bytes_ask_for_more() {
    assert!(matches!(IncomingRequest::<16, 16>::new(b"GET / HTTP"), FormingRequestResult::ReadMore));
    assert!(matches!(IncomingRequest::<16, 16>::new(b"GET /index HTTP/1.1\r\nHost: a"), FormingRequestResult::ReadMore));
}

#[test]
fn too_many_headers_are_refused() {
    let bytes = b"GET / HTTP/1.1\r\nA: 1\r\nB: 2\r\n\r\n";
    match IncomingRequest::<1, 1>::new(bytes) {
        FormingRequestResult::Error(e) => assert_eq!(e, IncomingHeadError::InvalidHeadersError),
        _ => panic!("an error was expected"),
    }
}

#[test]
fn body_handling_from_the_head() {
    let bytes = b"POST / HTTP/1.1\r\nHost: a\r\nContent-Type: multipart/form-data\r\nContent-Length: 100\r\n\r\n";
    match IncomingRequest::<16, 16>::new(bytes) {
        FormingRequestResult::Success(r) => {
            assert_eq!(r.content_type(), Some(b"multipart/form-data".as_ref()));
            assert!(matches!(r.body_handling(&ParsingBodyMechanism::Default, 0), BodyHandling::StreamMultipart));
            assert!(matches!(r.body_handling(&ParsingBodyMechanism::JustBytes, 100), BodyHandling::WholeBytes));
        }
        _ => panic!("a head was expected"),
    }
}

#[test]
fn a_parsed_head_is_kept_with_its_bytes() {
    let head = IncomingHead {
        method: b"GET".to_vec(),
        path: b"/a".to_vec(),
        version: b"HTTP/1.1".to_vec(),
        headers: vec![(b"Host".to_vec(), b"x".to_vec())],
        first_line_length: 16,
        headers_length: 10,
    };
    match IncomingRequest::<4, 4>::from_parsed(Ok(head), b"GET /a HTTP/1.1\r\nHost: x\r\n\r\n") {
        FormingRequestResult::Success(r) => {
            assert_eq!(r.path(), b"/a");
            assert_eq!(r.header_value(b"host"), Some(b"x".as_ref()));
            assert_eq!(r.get_total_headers_length(), 26);
        }
        _ => panic!("a head was expected"),
    }
}

#[test]
fn parser_errors_become_results() {
    assert!(matches!(
        IncomingRequest::<4, 4>::from_parsed(Err(IncomingHeadError::InsufficientDataSoReadMore), b"GET"),
        FormingRequestResult::ReadMore
    ));
    match IncomingRequest::<4, 4>::from_parsed(Err(IncomingHeadError::DangerousInvalidHttpFormat), b"x") {
        FormingRequestResult::Error(e) => assert_eq!(e, IncomingHeadError::DangerousInvalidHttpFormat),
        _ => panic!("an error was expected"),
    }
}

#[test]
fn query_values_are_decoded_lossily() {
    assert_eq!(decode_query_value(None), None);
    assert_eq!(decode_query_value(Some(b"2".to_vec())), Some("2".to_string()));
    assert_eq!(decode_query_value(Some(vec![b'a', 0xff])), Some("a\u{FFFD}".to_string()));
}

#[test]
fn test_building_requests_time() {
    let request_bytes = b"Post /path?id=2 HTTP/1.1\r\n\
        Connection: Keep-Alive\r\n\
        Accept-Encoding: br,deflate\r\n\
        Content-Type: Content-Type: multipart/form-data; boundary=----WebKitFormBoundary7MA4YWxkTrZu0gW\r\n\
        Content-Length: 238\r\n\
        \r\n\
        ----WebKitFormBoundary7MA4YWxkTrZu0gW\r\n\
        Content-Disposition: form-data; name=hellobeltopp\r\n\
        \r\n\
        yes\r\n\
        ----WebKitFormBoundary7MA4YWxkTrZu0gW\r\n\
        Content-Disposition: form-data; name=ellon\r\n\
        \r\n\
        mask\r\n\
        ------WebKitFormBoundary7MA4YWxkTrZu0gW--
        GET /test?id=1 HTTP/1.1\r\n\
        Connection: Keep-Alive\r\n\
        Accept-Encoding: br,deflate\r\n\
        \r\n";
    let inv1 = std::time::SystemTime::now();
    let request = IncomingRequest::<16, 16>::new(request_bytes);
    match request {
        FormingRequestResult::Success(request) => {
            let _data = &request_bytes[request.head().headers_length + 1..];
        }
        _ => {}
    }
    let inv2 = std::time::SystemTime::now();
    let dif = inv2.duration_since(inv1).unwrap();
    println!("done with {:?}", dif);
}
