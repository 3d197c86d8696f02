//! How a file is to be sent as a response.

use vstd::prelude::*;

verus! {

/// How many bytes of a file are read and written at a time unless told
/// otherwise.
pub const WRITING_FILES_BUF_LEN: usize = 100000;

/// The path of a file to send, the size of the reads, and an optional byte
/// range.
pub struct FileRSender<'a> {
    /// The file to send.
    pub path: &'a str,
    /// How many bytes are read from the file and written at a time.
    pub buffer_size_for_reading_from_file_and_writing_to_stream: usize,
    /// The first byte and the end of the range to send, each optional.
    pub range: Option<(Option<usize>, Option<usize>)>,
}

impl<'a> FileRSender<'a> {
    /// The whole file at `path`, read `buffer_size` bytes at a time.
    pub fn custom(path: &'a str, buffer_size_for_reading_from_file_and_writing_to_stream: usize) -> (r: FileRSender<'a>)
        ensures
            r.path == path,
            r.buffer_size_for_reading_from_file_and_writing_to_stream
                == buffer_size_for_reading_from_file_and_writing_to_stream,
            r.range is None,
    {
        FileRSender { path, buffer_size_for_reading_from_file_and_writing_to_stream, range: None }
    }

    /// The whole file at `path`, read with the default buffer size.
    pub fn new(path: &'a str) -> (r: FileRSender<'a>)
        ensures
            r.path == path,
            r.buffer_size_for_reading_from_file_and_writing_to_stream == WRITING_FILES_BUF_LEN,
            r.range is None,
    {
        Self::custom(path, WRITING_FILES_BUF_LEN)
    }

    /// Sends only the bytes from `start` to `end`.
    pub fn set_bytes_range(&mut self, start: Option<usize>, end: Option<usize>)
        ensures
            final(self).range == Some((start, end)),
            final(self).path == old(self).path,
            final(self).buffer_size_for_reading_from_file_and_writing_to_stream
                == old(self).buffer_size_for_reading_from_file_and_writing_to_stream,
    {
        self.range = Some((start, end));
    }
}

} // verus!
