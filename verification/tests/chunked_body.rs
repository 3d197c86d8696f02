use water_http::http::request::body::chunked::{
    chunk_step_is_defined, decode_chunked_body, find_new_line, hex_bytes_to_usize, next_chunk_step,
    stream_chunk_step_is_defined, Chunk, ChunkStep, ChunkedEnd,
};

#[test]
fn decodes_framed_chunks_in_order() {
    let body = b"4\r\nWiki\r\n5\r\npedia\r\n0\r\n\r\n";
    let r = decode_chunked_body(body);
    assert!(matches!(r.end, ChunkedEnd::Finished));
    assert_eq!(r.consumed, body.len());
    assert_eq!(r.pieces.len(), 2);
    assert_eq!(r.pieces[0].0, 0);
    assert_eq!(r.pieces[0].1, b"Wiki".to_vec());
    assert_eq!(r.pieces[1].0, 1);
    assert_eq!(r.pieces[1].1, b"pedia".to_vec());
}

#[test]
fn round_trip_stops_before_what_follows() {
    let body = b"3\r\nabc\r\n0\r\n\r\nGET / HTTP/1.1\r\n";
    let r = decode_chunked_body(body);
    assert!(matches!(r.end, ChunkedEnd::Finished));
    assert_eq!(r.consumed, 13);
    assert_eq!(r.pieces.len(), 1);
    assert_eq!(r.pieces[0].1, b"abc".to_vec());
}

#[test]
fn partial_body_needs_more() {
    let r = decode_chunked_body(b"a\r\n0123");
    assert!(matches!(r.end, ChunkedEnd::NeedMore));
    assert_eq!(r.pieces.len(), 1);
    assert_eq!(r.pieces[0].1, b"0123".to_vec());
    assert_eq!(r.consumed, 7);
}

#[test]
fn bad_size_line_fails() {
    let r = decode_chunked_body(b"zz\r\nabc\r\n");
    assert!(matches!(r.end, ChunkedEnd::Failed));
    assert_eq!(r.pieces.len(), 0);
}

#[test]
fn data_longer_than_its_size_fails() {
    let r = decode_chunked_body(b"2\r\nabcd\r\n0\r\n\r\n");
    assert!(matches!(r.end, ChunkedEnd::Failed));
}

#[test]
fn hex_sizes() {
    assert_eq!(hex_bytes_to_usize(b"1aF"), Some(0x1af));
    assert_eq!(hex_bytes_to_usize(b"0"), Some(0));
    assert_eq!(hex_bytes_to_usize(b""), None);
    assert_eq!(hex_bytes_to_usize(b"1g"), None);
    assert_eq!(hex_bytes_to_usize(b"fffffffffffffffff"), None);
}

#[test]
fn line_ends() {
    assert_eq!(find_new_line(b"ab\r\ncd", 16), Ok(Some(2)));
    assert_eq!(find_new_line(b"abc", 16), Ok(None));
    assert_eq!(find_new_line(b"abcdef\r\n", 3), Err(()));
    assert_eq!(find_new_line(b"\r\r\n", 16), Ok(None));
}

#[test]
fn single_steps() {
    match next_chunk_step(b"1f\r\nxyz", &None, 3) {
        ChunkStep::Header { chunk, consumed } => {
            assert_eq!(chunk.index, 3);
            assert_eq!(chunk.chunk_size, 31);
            assert_eq!(consumed, 4);
        }
        _ => panic!("a size line was expected"),
    }
    let open = Some(Chunk { index: 0, chunk_size: 3 });
    match next_chunk_step(b"abc\r\nrest", &open, 1) {
        ChunkStep::Data { len, consumed, chunk_done } => {
            assert_eq!(len, 3);
            assert_eq!(consumed, 5);
            assert!(chunk_done);
        }
        _ => panic!("data was expected"),
    }
    let last = Some(Chunk { index: 1, chunk_size: 0 });
    assert!(matches!(next_chunk_step(b"\r\n", &last, 2), ChunkStep::Finished { consumed: 2 }));
    assert!(matches!(next_chunk_step(b"12", &None, 0), ChunkStep::NeedMore));
}

#[test]
fn step_preconditions_can_be_tested() {
    let many_cr = vec![13u8; 300];
    assert!(!chunk_step_is_defined(&many_cr, &None));
    assert!(chunk_step_is_defined(b"4\r\nWiki\r\n", &None));
    assert!(!stream_chunk_step_is_defined(b"ab", &Some(Chunk { index: 0, chunk_size: usize::MAX })));
    assert!(stream_chunk_step_is_defined(b"ab", &Some(Chunk { index: 0, chunk_size: 2 })));
}
