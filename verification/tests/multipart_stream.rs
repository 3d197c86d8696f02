use water_http::http::request::body::multer::{
    compute_delimiter, found_boundary_in, multipart_step_is_defined, next_multipart_step, shave_data, MultipartStep,
    PatternExistResult,
};
use water_http::http::request::header::header_scan_overflows;

#[test]
fn delimiter_is_two_dashes_and_boundary() {
    assert_eq!(compute_delimiter("XyZ"), b"--XyZ".to_vec());
    assert_eq!(compute_delimiter("--abc"), b"----abc".to_vec());
}

#[test]
fn boundary_search_results() {
    assert!(matches!(found_boundary_in(b"data--XY rest", b"--XY"), PatternExistResult::Found(4)));
    assert!(matches!(found_boundary_in(b"data--X", b"--XY"), PatternExistResult::MaybeExistOnLastBytesFromLen(4)));
    assert!(matches!(found_boundary_in(b"data", b"--XY"), PatternExistResult::Absent));
}

#[test]
fn shaving_drops_one_line_end() {
    assert_eq!(shave_data(b"abc\r\n"), b"abc");
    assert_eq!(shave_data(b"abc"), b"abc");
    assert_eq!(shave_data(b"\r\n\r\n"), b"\r\n");
}

#[test]
fn header_step_between_fields() {
    let data = b"--B\r\nContent-Disposition: form-data; name=\"a\"\r\n\r\nvalue";
    match next_multipart_step(data, false, b"--B") {
        MultipartStep::Header { skipped, header_length } => {
            assert_eq!(skipped, 5);
            assert_eq!(&data[skipped + header_length..], b"value");
        }
        _ => panic!("a header block was expected"),
    }
}

#[test]
fn data_step_inside_a_field() {
    match next_multipart_step(b"value\r\n--B\r\nnext", true, b"--B") {
        MultipartStep::Data { len, consumed, field_done, body_done } => {
            assert_eq!(len, 5);
            assert_eq!(consumed, 12);
            assert!(field_done);
            assert!(!body_done);
        }
        _ => panic!("data was expected"),
    }
    match next_multipart_step(b"last\r\n--B--", true, b"--B") {
        MultipartStep::Data { len, field_done, body_done, .. } => {
            assert_eq!(len, 4);
            assert!(field_done);
            assert!(body_done);
        }
        _ => panic!("data was expected"),
    }
}

#[test]
fn closing_delimiter_tail_finishes() {
    assert!(matches!(next_multipart_step(b"--\r\n", false, b"--B"), MultipartStep::Finished { consumed: 4 }));
}

#[test]
fn header_scan_overflow_is_detected() {
    let many_cr = vec![13u8; 70000];
    assert!(header_scan_overflows(&many_cr, 12));
    assert!(!header_scan_overflows(b"Name: v\r\n\r\n", 12));
    assert!(!multipart_step_is_defined(&many_cr, false, b"--XX"));
    assert!(multipart_step_is_defined(&many_cr, true, b"--XX"));
    assert!(multipart_step_is_defined(b"--XX\r\nName: v\r\n\r\n", false, b"--XX"));
}
