use water_http::http::response::{
    FileRSender, FirstLine, HeaderResponseBuilder, Http1Sender, HttpStatus, HttpVersion, ResponseBuilder,
    ResponseData, SendingFileResults, WaterBytes,
};
use water_http::http::response::sender::{file_range_rejected, h2_file_head};

#[test]
fn versions_as_text() {
    assert_eq!(HttpVersion::Http1.to_str(), "HTTP/1.0");
    assert_eq!(HttpVersion::Http1_1.to_bytes(), b"HTTP/1.1");
    assert_eq!(HttpVersion::Http2.to_str(), "HTTP/2");
    assert_eq!(HttpVersion::Http3.to_str(), "HTTP/3");
}

#[test]
fn first_line_bytes() {
    let line = FirstLine { http_version: HttpVersion::Http1_1, status: HttpStatus { code: 404, value: "Not Found".to_string() } };
    assert_eq!(line.to_bytes(), b"HTTP/1.1 404 Not Found\r\n".to_vec());
}

#[test]
fn redirect_head() {
    let h = HeaderResponseBuilder::found_redirect_header("/home");
    assert_eq!(h.to_bytes(), b"HTTP/1.0 302 Found Redirect\r\nLocation: /home\r\n\r\n".to_vec());
}

#[test]
fn upgrade_heads() {
    let h = HeaderResponseBuilder::switch_to_h2c_headers();
    assert_eq!(
        h.to_bytes(),
        b"HTTP/1.0 101 Switching Protocols\r\nconnection: Upgrade\r\nUpgrade: h2c\r\nContent-Length: 0\r\n\r\n".to_vec()
    );
    let h = HeaderResponseBuilder::required_h2();
    assert_eq!(h.to_bytes(), b"HTTP/1.0 426 Upgrade Required\r\nconnection: Upgrade\r\nUpgrade: h2c\r\n\r\n".to_vec());
}

#[test]
fn header_written_twice_appears_twice() {
    let mut h = HeaderResponseBuilder::success();
    h.set_header_key_value("A", "1");
    h.set_header_key_value("A", "2");
    h.change_first_line_to_partial_content();
    assert_eq!(h.to_bytes(), b"HTTP/1.1 206 Partial\r\nA: 1\r\nA: 2\r\n\r\n".to_vec());
}

#[test]
fn whole_response_from_text() {
    let r = ResponseBuilder::from_str("hello");
    assert_eq!(r.to_bytes(), Some(b"HTTP/1.1 200 OK\r\nContent-Length: 5\r\n\r\nhello".to_vec()));
    let e = ResponseBuilder::empty();
    assert_eq!(e.to_bytes(), Some(b"HTTP/1.1 200 OK\r\n\r\n".to_vec()));
    let owned = String::from("é");
    let s = ResponseBuilder::from_string_ref(&owned);
    assert_eq!(s.to_bytes(), Some("HTTP/1.1 200 OK\r\nContent-Length: 2\r\n\r\né".as_bytes().to_vec()));
}

#[test]
fn response_data_bytes() {
    assert_eq!(ResponseData::Str("ab").as_bytes(), b"ab");
    assert_eq!(ResponseData::Slice(b"cd").as_bytes(), b"cd");
    assert_eq!(ResponseData::String("ef".to_string()).as_bytes(), b"ef");
}

#[test]
fn water_bytes_write_numbers_in_decimal() {
    let mut buf = Vec::new();
    WaterBytes::Usize(1024).push_to(&mut buf);
    WaterBytes::Str(": ").push_to(&mut buf);
    WaterBytes::Vec(b"x".to_vec()).push_to(&mut buf);
    assert_eq!(buf, b"1024: x".to_vec());
    assert_eq!(WaterBytes::StringSlice("abc").as_bytes(), b"abc");
}

#[test]
fn sending_results() {
    assert!(SendingFileResults::Success.is_success());
    assert!(!SendingFileResults::RangesNotSatisfied.is_success());
}

#[test]
fn sender_writes_status_once_then_headers_and_body() {
    let mut s = Http1Sender::new(Vec::new());
    s.send_status_code(201, "Created");
    s.send_status_code(500, "Ignored");
    s.set_header("X", "1");
    s.set_header_ef(WaterBytes::Str("Y"), WaterBytes::Usize(7));
    assert_eq!(s.send_data_as_final_response(ResponseData::Str("body")), Ok(()));
    assert_eq!(
        s.response_buffer().clone(),
        b"HTTP/1.1 201 Created\r\nX: 1\r\nY: 7\r\nContent-Length: 4\r\n\r\nbody".to_vec()
    );
}

#[test]
fn header_before_status_writes_ok_status() {
    let mut s = Http1Sender::new(Vec::new());
    s.set_header("A", "b");
    assert_eq!(s.send_str("hi"), Ok(()));
    assert_eq!(s.response_buffer().clone(), b"HTTP/1.1 200 OK\r\nA: b\r\nContent-Length: 2\r\n\r\nhi".to_vec());
}

#[test]
fn whole_file_head() {
    let mut s = Http1Sender::new(Vec::new());
    let f = FileRSender::new("/srv/files/report.pdf");
    assert_eq!(s.write_file_head(&f, 10, None).ok(), Some((0, 10)));
    assert_eq!(
        s.response_buffer().clone(),
        b"HTTP/1.1 200 OK\r\nContent-Type: application/pdf\r\nContent-Disposition: attachment; filename=\"report.pdf\"\r\nContent-Length: 10\r\n\r\n".to_vec()
    );
}

#[test]
fn partial_file_head() {
    let mut s = Http1Sender::new(Vec::new());
    let mut f = FileRSender::custom("data.bin", 4);
    f.set_bytes_range(Some(2), None);
    assert_eq!(s.write_file_head(&f, 100, Some("inline")).ok(), Some((2, 4)));
    assert_eq!(
        s.response_buffer().clone(),
        b"HTTP/1.1 206 Partial Content\r\nContent-Disposition: inline\r\nContent-Range: bytes 2-5/100\r\nContent-Length: 4\r\n\r\n".to_vec()
    );
}

#[test]
fn empty_range_is_not_satisfied() {
    let mut s = Http1Sender::new(Vec::new());
    let mut f = FileRSender::custom("a.txt", 4);
    f.set_bytes_range(Some(10), Some(10));
    assert!(matches!(s.write_file_head(&f, 10, None), Err(SendingFileResults::RangesNotSatisfied)));
}

#[test]
fn path_without_file_name_is_not_found() {
    let mut s = Http1Sender::new(Vec::new());
    let f = FileRSender::new("/");
    assert!(matches!(s.write_file_head(&f, 10, None), Err(SendingFileResults::FileNotFound)));
    assert_eq!(s.response_buffer().len(), 0);
}

#[test]
fn http2_file_head() {
    let mut f = FileRSender::custom("movie.mp4", 1000);
    f.set_bytes_range(Some(0), Some(50));
    let head = h2_file_head(&f, 100, Some("attachment")).ok().unwrap();
    assert_eq!(head.status, 206);
    assert_eq!(head.start, 0);
    assert_eq!(head.to_send, 50);
    let names: Vec<&str> = head.headers.iter().map(|p| p.0.as_str()).collect();
    assert_eq!(names, vec!["Content-Type", "Content-Disposition", "Content-Range", "Content-Length"]);
    assert_eq!(head.headers[0].1, "video/mp4");
    assert_eq!(head.headers[1].1, "attachment");
    assert_eq!(head.headers[2].1, "bytes 0-49/100");
    assert_eq!(head.headers[3].1, "50");
}

#[test]
fn rejected_file_ranges() {
    let f = FileRSender::new("a.txt");
    assert!(!file_range_rejected(&f, 10));
    let mut backwards = FileRSender::custom("a.txt", 4);
    backwards.set_bytes_range(Some(8), Some(3));
    assert!(file_range_rejected(&backwards, 10));
    let mut huge = FileRSender::custom("a.txt", 4);
    huge.set_bytes_range(Some(usize::MAX), None);
    assert!(file_range_rejected(&huge, 10));
    let mut fine = FileRSender::custom("a.txt", 4);
    fine.set_bytes_range(Some(2), None);
    assert!(!file_range_rejected(&fine, 100));
}

#[test]
fn buffer_writing_speed() {
    let status = HttpStatus { code: 200, value: "OK".to_string() };
    let version = HttpVersion::Http1_1.to_str();

    let v1 = std::time::SystemTime::now();
    let mut buffer: Vec<u8> = Vec::with_capacity(4048);
    buffer.extend_from_slice(version.as_bytes());
    buffer.extend_from_slice(b" ");
    buffer.extend_from_slice(format!("{}", status.code).as_bytes());
    buffer.extend_from_slice(b" ");
    buffer.extend_from_slice(status.value.as_bytes());
    buffer.extend_from_slice(b"\r\n");
    let v2 = std::time::SystemTime::now();
    let dif = v1.duration_since(v2);
    println!("difference with each writing mod {:?}", dif);

    let v1 = std::time::SystemTime::now();
    let mut buffer: Vec<u8> = Vec::with_capacity(4048);
    buffer.extend_from_slice(format!("{} {} {}\r\n", version, status.code, status.value).as_bytes());
    let v2 = std::time::SystemTime::now();
    let dif = v1.duration_since(v2);
    println!("difference with each format mod {:?}", dif);
}
