use water_http::http::request::body::XWWWFormUrlEncoded;

#[test]
fn test_xxx_form_url_encoded() {
    let p1 = b"username=john&age=25&note=ok";
    let parsed = XWWWFormUrlEncoded::new(p1);
    assert_eq!(parsed.get_as_bytes_ref("username"), Some(b"john".as_ref()));
    assert_eq!(parsed.get_as_bytes_ref("age"), Some(b"25".as_ref()));
    assert_eq!(parsed.get_as_bytes_ref("note"), Some(b"ok".as_ref()));
}
