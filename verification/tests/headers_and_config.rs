use water_http::configurations::{WaterIpAddressesRestriction, WaterServerConfigurations};
use water_http::framework_http::response::{content_type_from_file_path, HttpRequestCookie, ResponseHeadersBuilder};
use water_http::http::request::header::{HeaderValue, KeyValueList, KeyValuePair};

#[test]
fn header_block_parsing() {
    let bytes = b"Content-Disposition: attachment; filename=\"example.txt\" name=\"file1\"\r\nContent-Type: Image/png\r\n\r\nrest";
    let (list, n) = KeyValueList::<12>::try_parse::<12>(bytes).unwrap();
    assert_eq!(&bytes[n..], b"rest");
    assert_eq!(list.get_as_bytes("Content-Type"), Some(b"Image/png".as_ref()));
    assert_eq!(list.get_as_bytes("Missing"), None);
    let cd = list.get_as_header_value("Content-Disposition").unwrap();
    assert_eq!(cd.get_from_values_as_bytes("Content-Disposition"), Some(b"attachment".as_ref()));
}

#[test]
fn unfinished_block_is_none() {
    assert!(KeyValueList::<4>::try_parse::<4>(b"Key: value\r\n").is_none());
}

#[test]
fn list_capacity() {
    let mut list = KeyValueList::<'_, 1>::empty();
    assert!(!list.is_fully_filled());
    assert_eq!(list.push(b"a", b"1"), Ok(()));
    assert!(list.is_fully_filled());
    assert!(list.push(b"b", b"2").is_err());
}

#[test]
fn header_value_parameters() {
    let v = HeaderValue::new(b"form-data; name=\"f\"", Some(b"Content-Disposition"));
    assert_eq!(v.to_bytes(), b"form-data; name=\"f\"");
    assert!(v.get_from_values_as_bytes("missing").is_none());
    let p = KeyValuePair::empty();
    assert_eq!(p.key, b"");
}

#[test]
fn response_headers_replace_in_place() {
    let mut h = ResponseHeadersBuilder::success();
    assert_eq!(h.set_header_key_value("A", "1"), None);
    assert_eq!(h.set_header_key_value("B", "2"), None);
    assert_eq!(h.set_header_key_value("A", "3"), Some("1".to_string()));
    assert_eq!(h.to_bytes(), b"HTTP/1.1 200 OK\r\nA: 3\r\nB: 2\r\n\r\n".to_vec());
    assert_eq!(h.with_body(b"x"), b"HTTP/1.1 200 OK\r\nA: 3\r\nB: 2\r\n\r\nx".to_vec());
}

#[test]
fn content_length_header() {
    let h = ResponseHeadersBuilder::success_with_content_length(42);
    assert_eq!(h.to_bytes(), b"HTTP/1.1 200 OK\r\nContent-Length: 42\r\n\r\n".to_vec());
}

#[test]
fn cookies() {
    let c = HttpRequestCookie::from_key_value("sid", "abc");
    let text = c.value();
    assert!(text.starts_with("sid=abc"));
    let mut h = ResponseHeadersBuilder::success();
    h.set_cookie(HttpRequestCookie::from_key_value("a", "1"));
    h.set_cookie(HttpRequestCookie::from_key_value("b", "2"));
    let bytes = String::from_utf8(h.to_bytes()).unwrap();
    assert_eq!(bytes.matches("Set-Cookie").count(), 1);
    assert!(bytes.contains("Set-Cookie: b=2"));
}

#[test]
fn content_types() {
    assert_eq!(content_type_from_file_path("index.HTML"), Some("text/html"));
    assert_eq!(content_type_from_file_path("a/b/photo.jpg"), Some("image/jpeg"));
    assert_eq!(content_type_from_file_path("README"), None);
    assert_eq!(content_type_from_file_path("x.unknownext"), None);
}

#[test]
fn configuration_addresses() {
    let c = WaterServerConfigurations::bind_multi_ports(vec![80, 8080]);
    assert_eq!(c.addresses, vec![("0.0.0.0".to_string(), 80), ("0.0.0.0".to_string(), 8080)]);
    assert_eq!(c.public_files_path, "./public");
    assert!(c.is_tls_port(443));
    assert!(!c.is_tls_port(80));
    let d = WaterServerConfigurations::default();
    assert_eq!(d.addresses, vec![("0.0.0.0".to_string(), 80)]);
    assert_eq!(d.threshold_for_encoding_response, 4000000);
    let b = WaterServerConfigurations::bind("127.0.0.1", 9000);
    assert_eq!(b.addresses, vec![("127.0.0.1".to_string(), 9000)]);
}

#[test]
fn ip_restrictions() {
    let mut c = WaterServerConfigurations::bind_port(8080);
    assert!(c.accepts_ip("1.2.3.4"));
    c.set_restriction_to_ips(WaterIpAddressesRestriction::OnlyAllowedIps(vec!["10.0.0.1".to_string()]));
    assert!(c.accepts_ip("10.0.0.1"));
    assert!(!c.accepts_ip("10.0.0.2"));
    c.set_restriction_to_ips(WaterIpAddressesRestriction::BlacklistIps(vec!["10.0.0.1".to_string()]));
    assert!(!c.accepts_ip("10.0.0.1"));
    assert!(c.accepts_ip("10.0.0.2"));
    c.set_tls_certificate("cert.pem", "key.pem", None);
    assert_eq!(c.tls_certificate.as_ref().map(|t| t.tls_cert.as_str()), Some("cert.pem"));
}

#[test]
fn check_header_parsing() {
    let bytes = b"Content-Disposition: attachment; filename=\"example.txt\" name=\"file1\"\r\nContent-Type: Image/png\r\n\r\n";

    let v = KeyValueList::<12>::try_parse::<12>(bytes);
    if let Some((d, _kl)) = &v {
        let content_disposition = d.get_as_header_value("Content-Disposition");
        if let Some(content_disposition) = content_disposition {
            let cd = content_disposition.get_from_values_as_str("Content-Disposition").unwrap();
            let name = content_disposition.get_from_values_as_str("name").unwrap();
            let filename = content_disposition.get_from_values_as_str("filename").unwrap();
            println!("content-disposition = {}", cd);
            println!("content-disposition:name = {}", name);
            println!("content-disposition:filename = {}", filename);

            assert_eq!(cd, "attachment");
            assert_eq!(name, "\"file1\"");
            assert_eq!(filename, "\"example.txt\"");
        }
    }
    assert!(v.is_some());
}

#[test]
fn header_block_gives_only_its_pairs() {
    let (l, n) = KeyValueList::<12>::try_parse::<12>(b"Content-Type: text/plain\r\n\r\n").unwrap();
    assert_eq!(n, 28);
    assert_eq!(l.all_pairs().len(), 1);
    assert_eq!(l.all_pairs()[0].key, b"Content-Type");
    assert_eq!(l.all_pairs()[0].value, b"text/plain");
}

#[test]
fn each_cookie_gets_its_own_line() {
    let mut h = ResponseHeadersBuilder::success();
    let cs = vec![HttpRequestCookie::from_key_value("a", "1"), HttpRequestCookie::from_key_value("b", "2")];
    h.set_cookies(cs);
    let text = String::from_utf8(h.to_bytes()).unwrap();
    assert!(text.contains("Set-Cookie: a=1; Max-Age=7200; path=/; httponly; samesite=lax\r\n"));
    assert!(text.contains("Set-Cookie: b=2; Max-Age=7200; path=/; httponly; samesite=lax\r\n"));
}
