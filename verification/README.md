# water_http

The logic of a small HTTP/1 and HTTP/2 server framework, written in Verus
and proved against its contracts.

- `src/http/request`: request heads read by `water_http_utils`, header
  lists and header values, body handling decisions, chunked transfer decoding, multipart framing, url-encoded
  forms, and the puller that hands a body of declared length on.
- `src/http/response`: status lines, header builders, the HTTP/1 response
  writer, file range planning.
- `src/framework_http`: request heads and their header and query maps,
  multipart form fields and the saving of their files as the body streams
  in, response planning (encoding, `Content-Length`, `Date`, download
  names), routes by name, request bodies by content type.
- `src/configurations`: server settings and IP restrictions.
- `src/text.rs`, `src/chars.rs`, `src/assoc.rs`: UTF-8 text, character
  search and splitting, and association lists, the map model the header,
  query and form collections are specified with.
- `app/`: a small tokio server that does the socket and file I/O around the
  library.

Laws that span several calls are stated as public proof functions named
`law_*`.
