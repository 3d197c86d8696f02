use water_http::framework_http::request::{
    cache_headers, convert_string_value_to_vec_of_strings, find_head_end, head_is_malformed, lines_chars, parse_to_query_map, trim_chars, Request,
};

fn s(v: &str) -> String {
    v.to_string()
}

#[test]
fn header_values_split_on_semicolons_then_commas() {
    let v = convert_string_value_to_vec_of_strings("text/html, application/xml;q=0.9");
    assert_eq!(v, vec![vec![s("text/html"), s(" application/xml")], vec![s("q=0.9")]]);
    assert_eq!(convert_string_value_to_vec_of_strings(""), vec![vec![s("")]]);
}

#[test]
fn query_pairs_keep_the_last_value() {
    let q = parse_to_query_map("id=1&age=23&flag&id=7&note=a=b");
    assert_eq!(q, vec![(s("id"), s("7")), (s("age"), s("23")), (s("note"), s("a=b"))]);
}

#[test]
fn request_line_and_headers() {
    let head = s("POST /path?id=2&x=y HTTP/1.1\r\nHost: example.com\r\nAccept: a, b;q=1\r\nX-Empty\r\n\r\n");
    let r = Request::build_request(head, None).ok().unwrap();
    assert_eq!(r.method, "POST");
    assert_eq!(r.path, "/path");
    assert_eq!(r.http_version, "HTTP/1.1");
    assert_eq!(r.headers_query, vec![(s("id"), s("2")), (s("x"), s("y"))]);
    assert_eq!(r.headers_map.len(), 2);
    assert_eq!(r.headers_map[0].0, "Host");
    assert_eq!(r.headers_map[0].1, vec![vec![s("example.com")]]);
    assert_eq!(r.headers_map[1].0, "Accept");
    assert_eq!(r.headers_map[1].1, vec![vec![s("a"), s(" b")], vec![s("q=1")]]);
}

#[test]
fn header_filters() {
    let head = "GET / HTTP/1.1\r\nHost: h\r\nX-Custom: 1\r\nCookie: c=1\r\n";
    let common: Vec<String> = vec![];
    let r = Request::build_request(s(head), Some(&common)).ok().unwrap();
    let names: Vec<&str> = r.headers_map.iter().map(|p| p.0.as_str()).collect();
    assert_eq!(names, vec!["Host", "Cookie"]);
    let listed = vec![s("X-Custom")];
    let r = Request::build_request(s(head), Some(&listed)).ok().unwrap();
    let names: Vec<&str> = r.headers_map.iter().map(|p| p.0.as_str()).collect();
    assert_eq!(names, vec!["X-Custom"]);
}

#[test]
fn request_line_without_spaces_is_refused() {
    assert_eq!(Request::build_request(s("GET\r\n"), None).err(), Some(s("Request Error")));
    assert_eq!(Request::build_request(s("GET /only\r\n"), None).err(), Some(s("Request Error")));
}

#[test]
fn empty_head_gives_an_empty_request() {
    let r = Request::build_request(s(""), None).ok().unwrap();
    assert_eq!(r.method, "");
    assert_eq!(r.headers_map.len(), 0);
}

#[test]
fn query_map_through_request() {
    assert_eq!(Request::parse_to_query_map("a=1"), vec![(s("a"), s("1"))]);
}

#[test]
fn lines_like_str_lines() {
    let text: Vec<char> = "a\r\nb\nc\r".chars().collect();
    let lines = lines_chars(&text);
    let as_strings: Vec<String> = lines.iter().map(|l| l.iter().collect()).collect();
    assert_eq!(as_strings, vec![s("a"), s("b"), s("c\r")]);
    let trailing: Vec<char> = "x\n".chars().collect();
    assert_eq!(lines_chars(&trailing).len(), 1);
}

#[test]
fn trimming_white_space() {
    let t: Vec<char> = " \t /p HTTP/1.1 \u{a0}".chars().collect();
    let r: String = trim_chars(&t).iter().collect();
    assert_eq!(r, "/p HTTP/1.1");
}

#[test]
fn head_end_detection() {
    assert_eq!(find_head_end(b"GET / HTTP/1.1\r\n\r\nbody"), Some(18));
    assert_eq!(find_head_end(b"GET / HTTP/1.1\r\n"), None);
    assert_eq!(find_head_end(b"a\r\r\n\r\n"), None);
}

#[test]
fn caching_headers_adds_new_names_only() {
    let mut cached = vec![(s("host"), vec![vec![s("a.com")]])];
    let incoming = vec![
        (s("host"), b"b.com".to_vec()),
        (s("accept"), b"text/html, text/plain; q=1".to_vec()),
        (s("accept"), b"image/png".to_vec()),
    ];
    cache_headers(&mut cached, &incoming);
    assert_eq!(cached.len(), 2);
    assert_eq!(cached[0], (s("host"), vec![vec![s("a.com")]]));
    assert_eq!(cached[1].0, "accept");
    assert_eq!(cached[1].1, vec![vec![s("text/html"), s(" text/plain")], vec![s(" q=1")]]);
}

#[test]
fn malformed_request_lines() {
    assert!(head_is_malformed("GET /a b?c HTTP/1.1\r\nHost: x\r\n"));
    assert!(!head_is_malformed("GET /a?b=1 HTTP/1.1\r\nHost: x\r\n"));
    assert!(!head_is_malformed("GET /a HTTP/1.1\r\n"));
    assert!(!head_is_malformed(""));
}
