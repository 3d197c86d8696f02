//! Chunked transfer framing: the line ends that separate sizes and data.

use vstd::prelude::*;

verus! {

/// One chunk of a chunked body.
#[derive(Debug)]
pub struct Chunk {
    /// The position of the chunk among the chunks of the body.
    pub index: usize,
    /// The size that the chunk announced.
    pub chunk_size: usize,
}

/// Where a line-end search stands.
pub enum NewLineScan {
    /// Still searching; the count of carriage returns since the last
    /// ordinary byte.
    Scanning(int),
    /// A line feed right after a single carriage return; the index of that
    /// carriage return.
    Found(int),
    /// An ordinary byte at or past the cap came first.
    TooFar,
    /// The carriage-return counter would pass its 8-bit range.
    Overflowed,
}

/// The line-end search after the first `n` bytes. A CR counts; an LF after
/// exactly one counted CR is the line end (LFs do not reset the count); any
/// other byte resets the count, and fails the search at or past `cap`.
pub open spec fn new_line_scan(data: Seq<u8>, n: nat, cap: int) -> NewLineScan
    decreases n,
{
    if n == 0 {
        NewLineScan::Scanning(0)
    } else {
        match new_line_scan(data, (n - 1) as nat, cap) {
            NewLineScan::Scanning(co) => {
                let i = n - 1;
                let b = data[i];
                if b == 13 {
                    if co >= 255 { NewLineScan::Overflowed } else { NewLineScan::Scanning(co + 1) }
                } else if b == 10 {
                    if co == 1 { NewLineScan::Found(i - 1) } else { NewLineScan::Scanning(co) }
                } else if i >= cap {
                    NewLineScan::TooFar
                } else {
                    NewLineScan::Scanning(0)
                }
            },
            other => other,
        }
    }
}

proof fn lemma_new_line_scan_settled(data: Seq<u8>, n: nat, m: nat, cap: int)
    requires
        n <= m,
        !(new_line_scan(data, n, cap) is Scanning),
    ensures
        new_line_scan(data, m, cap) == new_line_scan(data, n, cap),
    decreases m - n,
{
    if n < m {
        lemma_new_line_scan_settled(data, n, (m - 1) as nat, cap);
    }
}

/// Finds the first CR LF of `data`: `Ok(Some(i))` with `i` the index of the
/// CR, `Ok(None)` when there is none yet, `Err` when an ordinary byte at
/// index `cap` or later comes before it.
pub fn find_new_line(data: &[u8], cap: usize) -> (r: Result<Option<usize>, ()>)
    requires
        !(new_line_scan(data@, data@.len(), cap as int) is Overflowed),
    ensures
        match r {
            Ok(Some(i)) => new_line_scan(data@, data@.len(), cap as int) == NewLineScan::Found(i as int),
            Ok(None) => new_line_scan(data@, data@.len(), cap as int) is Scanning,
            Err(_) => new_line_scan(data@, data@.len(), cap as int) is TooFar,
        },
{
    let mut co: u8 = 0;
    let mut index: usize = 0;
    while index < data.len()
        invariant
            index <= data@.len(),
            !(new_line_scan(data@, data@.len(), cap as int) is Overflowed),
            new_line_scan(data@, index as nat, cap as int) == NewLineScan::Scanning(co as int),
            co > 0 ==> index > 0,
        decreases data@.len() - index,
    {
        let byte = data[index];
        if byte == 13 {
            if co == 255 {
                proof { lemma_new_line_scan_settled(data@, (index + 1) as nat, data@.len(), cap as int); }
            }
            co = co + 1;
        } else if byte == 10 {
            if co == 1 {
                proof { lemma_new_line_scan_settled(data@, (index + 1) as nat, data@.len(), cap as int); }
                return Ok(Some(index - 1));
            }
        } else {
            if index >= cap {
                proof { lemma_new_line_scan_settled(data@, (index + 1) as nat, data@.len(), cap as int); }
                return Err(());
            }
            co = 0;
        }
        index = index + 1;
    }
    Ok(None)
}

/// Where a line-end search that found one stands: the CR sits at the
/// index found and the LF right after it.
proof fn lemma_new_line_scan_found(data: Seq<u8>, n: nat, cap: int)
    requires
        n <= data.len(),
    ensures
        match new_line_scan(data, n, cap) {
            NewLineScan::Found(i) => 0 <= i && i + 2 <= n && data[i] == 13 && data[i + 1] == 10,
            NewLineScan::Scanning(co) => co >= 0 && (co == 1 ==> n >= 1 && data[n - 1] == 13),
            _ => true,
        },
    decreases n,
{
    if n > 0 {
        lemma_new_line_scan_found(data, (n - 1) as nat, cap);
    }
}

/// Scanning past a stretch free of CR, whose ordinary bytes stand before
/// the cap, up to a CR LF finds that CR LF.
proof fn lemma_new_line_scan_to(data: Seq<u8>, p: int, cap: int)
    requires
        0 <= p,
        p + 2 <= data.len(),
        data[p] == 13,
        data[p + 1] == 10,
        forall|j: int| 0 <= j < p ==> data[j] != 13 && (data[j] != 10 ==> j < cap),
    ensures
        new_line_scan(data, data.len(), cap) == NewLineScan::Found(p),
{
    assert forall|n: nat| n <= p implies new_line_scan(data, n, cap) == NewLineScan::Scanning(0) by {
        lemma_new_line_scan_clean(data, n, p, cap);
    }
    lemma_new_line_scan_clean(data, p as nat, p, cap);
    assert(new_line_scan(data, (p + 1) as nat, cap) == NewLineScan::Scanning(1));
    assert(new_line_scan(data, (p + 2) as nat, cap) == NewLineScan::Found(p));
    lemma_new_line_scan_settled(data, (p + 2) as nat, data.len(), cap);
}

proof fn lemma_new_line_scan_clean(data: Seq<u8>, n: nat, p: int, cap: int)
    requires
        n <= p,
        p <= data.len(),
        forall|j: int| 0 <= j < p ==> data[j] != 13 && (data[j] != 10 ==> j < cap),
    ensures
        new_line_scan(data, n, cap) == NewLineScan::Scanning(0),
    decreases n,
{
    if n > 0 {
        lemma_new_line_scan_clean(data, (n - 1) as nat, p, cap);
    }
}

/// The value of a hexadecimal digit, or -1 for any other byte.
pub open spec fn hex_digit_value(b: u8) -> int {
    if 48 <= b <= 57 {
        b - 48
    } else if 97 <= b <= 102 {
        b - 87
    } else if 65 <= b <= 70 {
        b - 55
    } else {
        -1
    }
}

/// Whether every byte is a hexadecimal digit.
pub open spec fn all_hex(s: Seq<u8>) -> bool {
    forall|i: int| 0 <= i < s.len() ==> hex_digit_value(#[trigger] s[i]) >= 0
}

/// The number that hexadecimal digits write, most significant first.
pub open spec fn hex_value(s: Seq<u8>) -> int
    decreases s.len(),
{
    if s.len() == 0 {
        0
    } else {
        hex_value(s.drop_last()) * 16 + hex_digit_value(s.last())
    }
}

/// The size that a chunk-size line gives: its hexadecimal value when it
/// is one or more hexadecimal digits whose value fits in `usize`.
pub open spec fn hex_size(s: Seq<u8>) -> Option<usize> {
    if s.len() > 0 && all_hex(s) && hex_value(s) <= usize::MAX {
        Some(hex_value(s) as usize)
    } else {
        None
    }
}

proof fn lemma_hex_value_prefix(s: Seq<u8>, j: int)
    requires
        all_hex(s),
        0 <= j <= s.len(),
    ensures
        0 <= hex_value(s.take(j)) <= hex_value(s),
    decreases s.len(),
{
    if s.len() > 0 {
        assert(all_hex(s.drop_last()));
        if j == s.len() {
            assert(s.take(j) =~= s);
            lemma_hex_value_prefix(s.drop_last(), j - 1);
            assert(s.drop_last().take(j - 1) =~= s.drop_last());
        } else {
            lemma_hex_value_prefix(s.drop_last(), j);
            assert(s.drop_last().take(j) =~= s.take(j));
            assert(s.drop_last().take(s.len() - 1) =~= s.drop_last());
            lemma_hex_value_prefix(s.drop_last(), s.len() - 1);
        }
        assert(hex_digit_value(s.last()) >= 0);
    } else {
        assert(s.take(j) =~= s);
    }
}

fn hex_digit(b: u8) -> (r: i16)
    ensures
        r == hex_digit_value(b),
{
    if 48 <= b && b <= 57 {
        (b - 48) as i16
    } else if 97 <= b && b <= 102 {
        (b - 87) as i16
    } else if 65 <= b && b <= 70 {
        (b - 55) as i16
    } else {
        -1
    }
}

/// Reads a chunk size: one or more hexadecimal digits, either case.
/// `None` for anything else, or for a value past `usize`.
pub fn hex_bytes_to_usize(bytes: &[u8]) -> (r: Option<usize>)
    ensures
        r == hex_size(bytes@),
{
    if bytes.len() == 0 {
        return None;
    }
    let mut acc: usize = 0;
    let mut i: usize = 0;
    while i < bytes.len()
        invariant
            i <= bytes@.len(),
            bytes@.len() > 0,
            all_hex(bytes@.take(i as int)),
            acc == hex_value(bytes@.take(i as int)),
        decreases bytes@.len() - i,
    {
        let d = hex_digit(bytes[i]);
        assert(bytes@.take(i + 1).drop_last() =~= bytes@.take(i as int));
        if d < 0 {
            assert(!all_hex(bytes@));
            return None;
        }
        let du = d as usize;
        if acc > (usize::MAX - du) / 16 {
            assert(acc * 16 + du > usize::MAX) by (nonlinear_arith)
                requires
                    acc > (usize::MAX - du) / 16,
                    du <= 15,
            ;
            proof {
                if all_hex(bytes@) {
                    lemma_hex_value_prefix(bytes@, i + 1);
                }
            }
            return None;
        }
        assert(acc * 16 + du <= usize::MAX) by (nonlinear_arith)
            requires
                acc <= (usize::MAX - du) / 16,
                du <= 15,
        ;
        acc = acc * 16 + du;
        i = i + 1;
    }
    assert(bytes@.take(i as int) =~= bytes@);
    Some(acc)
}

/// What one look at the buffered bytes of a chunked body calls for.
pub enum ChunkStep {
    /// A chunk-size line: the chunk it opens and the bytes it took.
    Header { chunk: Chunk, consumed: usize },
    /// The first `len` bytes are data of the current chunk; `consumed`
    /// bytes are used up; `chunk_done` when the chunk's line end was seen.
    Data { len: usize, consumed: usize, chunk_done: bool },
    /// No line end yet: more bytes are needed.
    NeedMore,
    /// The last chunk ended the body; `consumed` bytes of its line are
    /// used up.
    Finished { consumed: usize },
    /// The bytes break the chunked framing.
    Failed,
}

/// The step that the buffered bytes call for, given the chunk being read.
/// A size line must end within 16 bytes, a chunk's data within its size,
/// the last chunk's line within 4 bytes.
pub open spec fn chunk_step(data: Seq<u8>, chunk: Option<Chunk>, next_index: nat) -> ChunkStep {
    match chunk {
        None => match new_line_scan(data, data.len(), 16) {
            NewLineScan::Found(i) => match hex_size(data.take(i)) {
                Some(size) => ChunkStep::Header {
                    chunk: Chunk { index: next_index as usize, chunk_size: size },
                    consumed: if i + 2 >= data.len() { data.len() as usize } else { (i + 2) as usize },
                },
                None => ChunkStep::Failed,
            },
            NewLineScan::Scanning(_) => ChunkStep::NeedMore,
            _ => ChunkStep::Failed,
        },
        Some(c) => if c.chunk_size == 0 {
            match new_line_scan(data, data.len(), 4) {
                NewLineScan::Found(i) => if data.len() < 2 {
                    ChunkStep::Failed
                } else {
                    ChunkStep::Finished { consumed: if i == 0 { 2 } else { 0 } }
                },
                NewLineScan::Scanning(_) => ChunkStep::NeedMore,
                _ => ChunkStep::Failed,
            }
        } else {
            match new_line_scan(data, data.len(), c.chunk_size as int) {
                NewLineScan::Found(n) => ChunkStep::Data { len: n as usize, consumed: (n + 2) as usize, chunk_done: true },
                NewLineScan::Scanning(_) => ChunkStep::Data {
                    len: data.len() as usize,
                    consumed: data.len() as usize,
                    chunk_done: false,
                },
                _ => ChunkStep::Failed,
            }
        },
    }
}

/// The cap that the line-end search of a step uses.
pub open spec fn chunk_step_cap(chunk: Option<Chunk>) -> int {
    match chunk {
        None => 16,
        Some(c) => if c.chunk_size == 0 { 4 } else { c.chunk_size as int },
    }
}

/// Whether the step's line-end search stays within its CR counter: it
/// does unless 256 CRs come in a row before it ends.
pub open spec fn chunk_step_defined(data: Seq<u8>, chunk: Option<Chunk>) -> bool {
    !(new_line_scan(data, data.len(), chunk_step_cap(chunk)) is Overflowed)
}

/// Whether `next_chunk_step` can decide on these bytes.
pub fn chunk_step_is_defined(data: &[u8], chunk: &Option<Chunk>) -> (r: bool)
    ensures
        r == chunk_step_defined(data@, *chunk),
{
    let cap: usize = match chunk {
        None => 16,
        Some(c) => if c.chunk_size == 0 {
            4
        } else {
            c.chunk_size
        },
    };
    !line_scan_overflows(data, cap)
}

/// Decides the next step on the buffered bytes `data`, given the chunk
/// being read (`None` between chunks) and the index the next chunk gets.
pub fn next_chunk_step(data: &[u8], chunk: &Option<Chunk>, next_index: usize) -> (r: ChunkStep)
    requires
        chunk_step_defined(data@, *chunk),
    ensures
        r == chunk_step(data@, *chunk, next_index as nat),
{
    let len = data.len();
    match chunk {
        None => match find_new_line(data, 16) {
            Ok(Some(i)) => {
                proof { lemma_new_line_scan_found(data@, data@.len(), 16); }
                let line = vstd::slice::slice_subrange(data, 0, i);
                assert(line@ =~= data@.take(i as int));
                match hex_bytes_to_usize(line) {
                    Some(chunk_size) => {
                        let consumed = if i + 2 >= len { len } else { i + 2 };
                        ChunkStep::Header { chunk: Chunk { index: next_index, chunk_size }, consumed }
                    },
                    None => ChunkStep::Failed,
                }
            },
            Ok(None) => ChunkStep::NeedMore,
            Err(_) => ChunkStep::Failed,
        },
        Some(c) => {
            if c.chunk_size == 0 {
                match find_new_line(data, 4) {
                    Ok(Some(i)) => {
                        if data.len() < 2 {
                            ChunkStep::Failed
                        } else {
                            ChunkStep::Finished { consumed: if i == 0 { 2 } else { 0 } }
                        }
                    },
                    Ok(None) => ChunkStep::NeedMore,
                    Err(_) => ChunkStep::Failed,
                }
            } else {
                match find_new_line(data, c.chunk_size) {
                    Ok(Some(n)) => {
                        proof { lemma_new_line_scan_found(data@, data@.len(), c.chunk_size as int); }
                        ChunkStep::Data { len: n, consumed: n + 2, chunk_done: true }
                    },
                    Ok(None) => ChunkStep::Data { len: data.len(), consumed: data.len(), chunk_done: false },
                    Err(_) => ChunkStep::Failed,
                }
            }
        },
    }
}

/// Whether the line-end search would pass its CR counter's range: 256 CRs
/// in a row before the search ends.
fn line_scan_overflows(data: &[u8], cap: usize) -> (r: bool)
    ensures
        r == (new_line_scan(data@, data@.len(), cap as int) is Overflowed),
{
    let mut co: u8 = 0;
    let mut index: usize = 0;
    while index < data.len()
        invariant
            index <= data@.len(),
            new_line_scan(data@, index as nat, cap as int) == NewLineScan::Scanning(co as int),
        decreases data@.len() - index,
    {
        let byte = data[index];
        if byte == 13 {
            if co == 255 {
                proof { lemma_new_line_scan_settled(data@, (index + 1) as nat, data@.len(), cap as int); }
                return true;
            }
            co = co + 1;
        } else if byte == 10 {
            if co == 1 {
                proof { lemma_new_line_scan_settled(data@, (index + 1) as nat, data@.len(), cap as int); }
                return false;
            }
        } else {
            if index >= cap {
                proof { lemma_new_line_scan_settled(data@, (index + 1) as nat, data@.len(), cap as int); }
                return false;
            }
            co = 0;
        }
        index = index + 1;
    }
    false
}

/// How decoding a buffered chunked body stopped.
pub enum ChunkedEnd {
    /// The last chunk ended the body.
    Finished,
    /// The bytes ran out before the body ended.
    NeedMore,
    /// The bytes break the chunked framing.
    Failed,
    /// A line-end search met 256 CRs in a row, past what its counter holds.
    CounterOverflow,
}

/// Decoding buffered bytes from a given state, step after step: the data
/// pieces with the index of their chunk, the bytes used up, and how it
/// stopped.
pub open spec fn chunk_run(data: Seq<u8>, chunk: Option<Chunk>, next_index: nat) -> (Seq<(usize, Seq<u8>)>, nat, ChunkedEnd)
    decreases data.len(),
{
    if data.len() == 0 {
        (Seq::empty(), 0, ChunkedEnd::NeedMore)
    } else if !chunk_step_defined(data, chunk) {
        (Seq::empty(), 0, ChunkedEnd::CounterOverflow)
    } else {
        match chunk_step(data, chunk, next_index) {
            ChunkStep::Header { chunk: c, consumed } => if 0 < consumed <= data.len() {
                let r = chunk_run(data.skip(consumed as int), Some(c), next_index + 1);
                (r.0, r.1 + consumed as nat, r.2)
            } else {
                (Seq::empty(), 0, ChunkedEnd::Failed)
            },
            ChunkStep::Data { len, consumed, chunk_done } => if 0 < consumed <= data.len() && len <= data.len() {
                let r = chunk_run(data.skip(consumed as int), if chunk_done { None } else { chunk }, next_index);
                let owner = match chunk {
                    Some(c) => c.index,
                    None => 0,
                };
                (seq![(owner, data.take(len as int))] + r.0, r.1 + consumed as nat, r.2)
            } else {
                (Seq::empty(), 0, ChunkedEnd::Failed)
            },
            ChunkStep::NeedMore => (Seq::empty(), 0, ChunkedEnd::NeedMore),
            ChunkStep::Finished { consumed } => (Seq::empty(), consumed as nat, ChunkedEnd::Finished),
            ChunkStep::Failed => (Seq::empty(), 0, ChunkedEnd::Failed),
        }
    }
}

/// A decoded chunked body: its data pieces, each with the index of its
/// chunk, the bytes used up, and how decoding stopped.
pub struct ChunkedBody {
    pub pieces: Vec<(usize, Vec<u8>)>,
    pub consumed: usize,
    pub end: ChunkedEnd,
}

/// The pieces as index and byte sequence.
pub open spec fn piece_views(p: Seq<(usize, Vec<u8>)>) -> Seq<(usize, Seq<u8>)> {
    p.map_values(|x: (usize, Vec<u8>)| (x.0, x.1@))
}

fn copy_prefix(data: &[u8], len: usize) -> (r: Vec<u8>)
    requires
        len <= data@.len(),
    ensures
        r@ == data@.take(len as int),
{
    let part = vstd::slice::slice_subrange(data, 0, len);
    let mut v: Vec<u8> = Vec::new();
    crate::text::extend_bytes(&mut v, part);
    assert(v@ =~= data@.take(len as int));
    v
}

/// Decodes the chunked body held in `data`, from its first size line, as
/// far as the bytes go: every data piece handed on with the index of its
/// chunk, in order.
pub fn decode_chunked_body(data: &[u8]) -> (r: ChunkedBody)
    ensures
        ({
            let run = chunk_run(data@, None, 0);
            &&& piece_views(r.pieces@) == run.0
            &&& r.consumed == run.1
            &&& r.end == run.2
        }),
{
    let mut pieces: Vec<(usize, Vec<u8>)> = Vec::new();
    let mut pos: usize = 0;
    let mut chunk: Option<Chunk> = None;
    let mut index: usize = 0;
    let ghost whole = chunk_run(data@, None, 0);
    assert(data@.skip(0) =~= data@);
    assert(piece_views(pieces@) =~= Seq::<(usize, Seq<u8>)>::empty());
    loop
        invariant
            pos <= data@.len(),
            index <= pos,
            whole == chunk_run(data@, None, 0),
            whole.0 == piece_views(pieces@) + chunk_run(data@.skip(pos as int), chunk, index as nat).0,
            whole.1 == pos + chunk_run(data@.skip(pos as int), chunk, index as nat).1,
            whole.2 == chunk_run(data@.skip(pos as int), chunk, index as nat).2,
        decreases data@.len() - pos,
    {
        let rest = vstd::slice::slice_subrange(data, pos, data.len());
        assert(rest@ =~= data@.skip(pos as int));
        let ghost run = chunk_run(rest@, chunk, index as nat);
        if rest.len() == 0 {
            assert(piece_views(pieces@) + run.0 =~= piece_views(pieces@));
            return ChunkedBody { pieces, consumed: pos, end: ChunkedEnd::NeedMore };
        }
        let cap = match &chunk {
            None => 16,
            Some(c) => if c.chunk_size == 0 { 4 } else { c.chunk_size },
        };
        if line_scan_overflows(rest, cap) {
            assert(piece_views(pieces@) + run.0 =~= piece_views(pieces@));
            return ChunkedBody { pieces, consumed: pos, end: ChunkedEnd::CounterOverflow };
        }
        match next_chunk_step(rest, &chunk, index) {
            ChunkStep::Header { chunk: c, consumed } => {
                if consumed == 0 || consumed > rest.len() {
                    assert(piece_views(pieces@) + run.0 =~= piece_views(pieces@));
                    return ChunkedBody { pieces, consumed: pos, end: ChunkedEnd::Failed };
                }
                assert(rest@.skip(consumed as int) =~= data@.skip(pos + consumed));
                pos = pos + consumed;
                chunk = Some(c);
                index = index + 1;
            },
            ChunkStep::Data { len, consumed, chunk_done } => {
                if consumed == 0 || consumed > rest.len() || len > rest.len() {
                    assert(piece_views(pieces@) + run.0 =~= piece_views(pieces@));
                    return ChunkedBody { pieces, consumed: pos, end: ChunkedEnd::Failed };
                }
                let owner = match &chunk {
                    Some(c) => c.index,
                    None => 0,
                };
                let piece = copy_prefix(rest, len);
                let ghost before = piece_views(pieces@);
                pieces.push((owner, piece));
                assert(piece_views(pieces@) =~= before.push((owner, rest@.take(len as int))));
                assert(rest@.skip(consumed as int) =~= data@.skip(pos + consumed));
                assert(before + run.0 =~= piece_views(pieces@) + chunk_run(
                    rest@.skip(consumed as int),
                    if chunk_done { None } else { chunk },
                    index as nat,
                ).0);
                pos = pos + consumed;
                if chunk_done {
                    chunk = None;
                }
            },
            ChunkStep::NeedMore => {
                assert(piece_views(pieces@) + run.0 =~= piece_views(pieces@));
                return ChunkedBody { pieces, consumed: pos, end: ChunkedEnd::NeedMore };
            },
            ChunkStep::Finished { consumed } => {
                assert(piece_views(pieces@) + run.0 =~= piece_views(pieces@));
                assert(consumed <= 2);
                if pos + consumed > data.len() {
                    return ChunkedBody { pieces, consumed: pos, end: ChunkedEnd::Failed };
                }
                return ChunkedBody { pieces, consumed: pos + consumed, end: ChunkedEnd::Finished };
            },
            ChunkStep::Failed => {
                assert(piece_views(pieces@) + run.0 =~= piece_views(pieces@));
                return ChunkedBody { pieces, consumed: pos, end: ChunkedEnd::Failed };
            },
        }
    }
}

/// The lower-case hexadecimal digit for `d` (below sixteen).
pub open spec fn hex_char(d: nat) -> u8 {
    if d < 10 {
        (48 + d) as u8
    } else {
        (87 + d) as u8
    }
}

/// `n` in lower-case hexadecimal, without leading zeros.
pub open spec fn hex_text(n: nat) -> Seq<u8>
    decreases n,
{
    if n < 16 {
        seq![hex_char(n)]
    } else {
        hex_text(n / 16).push(hex_char(n % 16))
    }
}

/// Sixteen to the power `k`.
pub open spec fn pow16(k: nat) -> nat
    decreases k,
{
    if k == 0 {
        1
    } else {
        16 * pow16((k - 1) as nat)
    }
}

/// One chunk on the wire: its size in hexadecimal, CR LF, its bytes, CR LF.
pub open spec fn chunk_frame(c: Seq<u8>) -> Seq<u8> {
    hex_text(c.len()) + seq![13u8, 10u8] + c + seq![13u8, 10u8]
}

/// A chunked body: each chunk framed, then the last chunk `0` and the
/// blank line.
pub open spec fn chunked_encoding(chunks: Seq<Seq<u8>>) -> Seq<u8>
    decreases chunks.len(),
{
    if chunks.len() == 0 {
        seq![48u8, 13u8, 10u8, 13u8, 10u8]
    } else {
        chunk_frame(chunks[0]) + chunked_encoding(chunks.drop_first())
    }
}

/// The chunks, each with its index counted from `first`.
pub open spec fn indexed_chunks(chunks: Seq<Seq<u8>>, first: nat) -> Seq<(usize, Seq<u8>)>
    decreases chunks.len(),
{
    if chunks.len() == 0 {
        Seq::empty()
    } else {
        seq![(first as usize, chunks[0])] + indexed_chunks(chunks.drop_first(), first + 1)
    }
}

/// A chunk that its framing carries unchanged: not empty (an empty chunk
/// ends the body), no longer than `usize` counts, and free of CR bytes
/// (a CR LF inside would end its data early).
pub open spec fn frameable_chunk(c: Seq<u8>) -> bool {
    &&& 0 < c.len() <= usize::MAX
    &&& forall|i: int| 0 <= i < c.len() ==> c[i] != 13
}

proof fn lemma_hex_char(d: nat)
    requires
        d < 16,
    ensures
        hex_digit_value(hex_char(d)) == d,
        hex_char(d) != 13 && hex_char(d) != 10,
{
}

proof fn lemma_hex_text(n: nat)
    ensures
        hex_text(n).len() >= 1,
        all_hex(hex_text(n)),
        hex_value(hex_text(n)) == n,
        forall|i: int| 0 <= i < hex_text(n).len() ==> #[trigger] hex_text(n)[i] != 13 && hex_text(n)[i] != 10,
    decreases n,
{
    if n >= 16 {
        lemma_hex_text(n / 16);
        lemma_hex_char(n % 16);
        let t = hex_text(n);
        assert(t.drop_last() =~= hex_text(n / 16));
        assert(t.last() == hex_char(n % 16));
        assert(hex_value(t) == hex_value(t.drop_last()) * 16 + hex_digit_value(t.last()));
        assert(hex_value(t.drop_last()) == n / 16);
        assert(n == (n / 16) * 16 + n % 16) by (nonlinear_arith);
        assert forall|i: int| 0 <= i < t.len() implies hex_digit_value(#[trigger] t[i]) >= 0 by {
            if i < t.len() - 1 {
                assert(t[i] == hex_text(n / 16)[i]);
            }
        }
    } else {
        lemma_hex_char(n);
        let t = hex_text(n);
        assert(t.drop_last() =~= Seq::<u8>::empty());
        assert(hex_value(Seq::<u8>::empty()) == 0);
    }
}

proof fn lemma_hex_text_len(n: nat, k: nat)
    requires
        k >= 1,
        n < pow16(k),
    ensures
        hex_text(n).len() <= k,
    decreases k,
{
    if n >= 16 {
        let k1 = (k - 1) as nat;
        assert(pow16(k) == 16 * pow16(k1));
        assert(n / 16 < pow16(k1)) by (nonlinear_arith)
            requires
                n < 16 * pow16(k1),
        ;
        if k1 == 0 {
            assert(n < 16);
        } else {
            lemma_hex_text_len(n / 16, k1);
        }
    }
}

proof fn lemma_hex_text_short(n: nat)
    requires
        n <= usize::MAX,
    ensures
        hex_text(n).len() <= 16,
{
    reveal_with_fuel(pow16, 17);
    assert(pow16(16) == 18446744073709551616nat);
    lemma_hex_text_len(n, 16);
}

proof fn lemma_frame_header(c: Seq<u8>, after: Seq<u8>, index: nat)
    requires
        frameable_chunk(c),
        (chunk_frame(c) + after).len() <= usize::MAX,
    ensures
        ({
            let data = chunk_frame(c) + after;
            let k = hex_text(c.len()).len() as int;
            &&& chunk_step_defined(data, None)
            &&& chunk_step(data, None, index) == ChunkStep::Header {
                chunk: Chunk { index: index as usize, chunk_size: c.len() as usize },
                consumed: (k + 2) as usize,
            }
            &&& 0 < k + 2 <= data.len()
            &&& data.skip(k + 2) == c + seq![13u8, 10u8] + after
            &&& chunk_frame(c).len() == k + 2 + c.len() + 2
        }),
{
    let data = chunk_frame(c) + after;
    let size_text = hex_text(c.len());
    lemma_hex_text(c.len());
    lemma_hex_text_short(c.len());
    let k = size_text.len() as int;
    assert(data =~= size_text + seq![13u8, 10u8] + (c + seq![13u8, 10u8] + after));
    assert forall|j: int| 0 <= j < k implies data[j] != 13 && (data[j] != 10 ==> j < 16) by {
        assert(data[j] == size_text[j]);
    }
    assert(data[k] == 13u8 && data[k + 1] == 10u8);
    lemma_new_line_scan_to(data, k, 16);
    assert(data.take(k) =~= size_text);
    assert(data.skip(k + 2) =~= c + seq![13u8, 10u8] + after);
}

proof fn lemma_frame_data(c: Seq<u8>, after: Seq<u8>, opened: Chunk, index: nat)
    requires
        frameable_chunk(c),
        opened.chunk_size == c.len(),
        (c + seq![13u8, 10u8] + after).len() <= usize::MAX,
    ensures
        ({
            let body = c + seq![13u8, 10u8] + after;
            let n = c.len() as int;
            &&& chunk_step_defined(body, Some(opened))
            &&& chunk_step(body, Some(opened), index) == ChunkStep::Data {
                len: n as usize,
                consumed: (n + 2) as usize,
                chunk_done: true,
            }
            &&& n + 2 <= body.len()
            &&& body.take(n) == c
            &&& body.skip(n + 2) == after
        }),
{
    let body = c + seq![13u8, 10u8] + after;
    let n = c.len() as int;
    assert forall|j: int| 0 <= j < n implies body[j] != 13 && (body[j] != 10 ==> j < n) by {
        assert(body[j] == c[j]);
    }
    assert(body[n] == 13u8 && body[n + 1] == 10u8);
    lemma_new_line_scan_to(body, n, n);
    assert(body.take(n) =~= c);
    assert(body.skip(n + 2) =~= after);
}

proof fn lemma_last_chunk(tail: Seq<u8>, first: nat)
    ensures
        chunk_run(seq![48u8, 13u8, 10u8, 13u8, 10u8] + tail, None, first) == (
            Seq::<(usize, Seq<u8>)>::empty(),
            5nat,
            ChunkedEnd::Finished,
        ),
{
    let data = seq![48u8, 13u8, 10u8, 13u8, 10u8] + tail;
    assert(data[0] == 48u8 && data[1] == 13u8 && data[2] == 10u8);
    lemma_new_line_scan_to(data, 1, 16);
    assert(data.take(1) =~= seq![48u8]);
    assert(seq![48u8].drop_last() =~= Seq::<u8>::empty());
    assert(hex_value(Seq::<u8>::empty()) == 0);
    assert(hex_value(seq![48u8]) == 0);
    assert(all_hex(seq![48u8]));
    let rest = data.skip(3);
    assert(rest =~= seq![13u8, 10u8] + tail);
    lemma_new_line_scan_to(rest, 0, 4);
    let last = Chunk { index: first as usize, chunk_size: 0 };
    assert(chunk_step(rest, Some(last), first + 1) == ChunkStep::Finished { consumed: 2 });
    assert(chunk_run(rest, Some(last), first + 1) == (Seq::<(usize, Seq<u8>)>::empty(), 2nat, ChunkedEnd::Finished));
}

/// A buffer of framed chunks, then any bytes, decodes to exactly those
/// chunks, numbered in order from the index the first one gets, and stops
/// at the end of the last chunk's line, whatever follows (for a buffer
/// that fits in memory).
pub proof fn law_chunked_round_trip(chunks: Seq<Seq<u8>>, tail: Seq<u8>, first: nat)
    requires
        forall|i: int| 0 <= i < chunks.len() ==> frameable_chunk(#[trigger] chunks[i]),
        (chunked_encoding(chunks) + tail).len() <= usize::MAX,
    ensures
        chunk_run(chunked_encoding(chunks) + tail, None, first) == (
            indexed_chunks(chunks, first),
            chunked_encoding(chunks).len(),
            ChunkedEnd::Finished,
        ),
    decreases chunks.len(),
{
    if chunks.len() == 0 {
        lemma_last_chunk(tail, first);
        assert(indexed_chunks(chunks, first) =~= Seq::<(usize, Seq<u8>)>::empty());
    } else {
        let c = chunks[0];
        let later = chunks.drop_first();
        assert(frameable_chunk(chunks[0]));
        assert forall|i: int| 0 <= i < later.len() implies frameable_chunk(#[trigger] later[i]) by {
            assert(later[i] == chunks[i + 1]);
        }
        let after = chunked_encoding(later) + tail;
        let data = chunked_encoding(chunks) + tail;
        assert(data =~= chunk_frame(c) + after);
        law_chunked_round_trip(later, tail, first + 1);
        lemma_frame_header(c, after, first);
        let k = hex_text(c.len()).len() as int;
        let opened = Chunk { index: first as usize, chunk_size: c.len() as usize };
        let body = c + seq![13u8, 10u8] + after;
        lemma_frame_data(c, after, opened, first + 1);
        assert(data.skip(k + 2) == body);
        let n = c.len() as int;
        let r_after = chunk_run(after, None, first + 1);
        assert(body.len() > 0);
        assert(chunk_run(body, Some(opened), first + 1) == (
            seq![(opened.index, c)] + r_after.0,
            r_after.1 + (n + 2) as nat,
            r_after.2,
        ));
        let r_body = chunk_run(body, Some(opened), first + 1);
        assert(data.len() > 0);
        assert(chunk_run(data, None, first) == (r_body.0, r_body.1 + (k + 2) as nat, r_body.2));
        assert(indexed_chunks(chunks, first) =~= seq![(first as usize, c)] + indexed_chunks(later, first + 1));
    }
}

/// What one look at the bytes read from a connection calls for, the way
/// the HTTP/1 stream reader decides it.
pub enum StreamChunkStep {
    /// More bytes must be read first.
    ReadMore,
    /// A size line opening a chunk with data; the bytes it took.
    Header { chunk: Chunk, consumed: usize },
    /// The last chunk's size line and the line end after it: the body ends.
    Finished { consumed: usize },
    /// The first `len` bytes are data of the current chunk; `consumed`
    /// bytes are used up; `chunk_done` when its line end was seen.
    Data { len: usize, consumed: usize, chunk_done: bool },
    /// The bytes break the chunked framing.
    Failed,
}

/// The cap of the stream reader's line-end search.
pub open spec fn stream_step_cap(chunk: Option<Chunk>) -> int {
    match chunk {
        None => 16,
        Some(c) => c.chunk_size + 2,
    }
}

/// Whether `next_stream_chunk_step` can decide on these bytes: the chunk's
/// size leaves room for its line end, and the line-end search stays within
/// its CR counter.
pub fn stream_chunk_step_is_defined(data: &[u8], chunk: &Option<Chunk>) -> (r: bool)
    ensures
        r == ((chunk matches Some(c) ==> c.chunk_size + 2 <= usize::MAX) && !(new_line_scan(
            data@,
            data@.len(),
            stream_step_cap(*chunk),
        ) is Overflowed)),
{
    match chunk {
        None => !line_scan_overflows(data, 16),
        Some(c) => {
            if c.chunk_size > usize::MAX - 2 {
                false
            } else {
                !line_scan_overflows(data, c.chunk_size + 2)
            }
        },
    }
}

/// The step the stream reader takes on the bytes read so far. A size line
/// must end within 16 bytes and be followed by more bytes; the last chunk
/// (size 0) needs its two line-end bytes at once; a chunk's data ends at
/// the first line end within its size and two.
pub open spec fn stream_chunk_step(data: Seq<u8>, chunk: Option<Chunk>, next_index: nat) -> StreamChunkStep {
    if data.len() == 0 {
        StreamChunkStep::ReadMore
    } else {
        match chunk {
            None => match new_line_scan(data, data.len(), 16) {
                NewLineScan::Found(i) => if i + 2 >= data.len() {
                    StreamChunkStep::ReadMore
                } else {
                    match hex_size(data.take(i)) {
                        None => StreamChunkStep::Failed,
                        Some(size) => if size == 0 {
                            if data.len() - (i + 2) < 2 {
                                StreamChunkStep::Failed
                            } else {
                                StreamChunkStep::Finished { consumed: (i + 4) as usize }
                            }
                        } else {
                            StreamChunkStep::Header {
                                chunk: Chunk { index: next_index as usize, chunk_size: size },
                                consumed: (i + 2) as usize,
                            }
                        },
                    }
                },
                NewLineScan::Scanning(_) => StreamChunkStep::ReadMore,
                _ => StreamChunkStep::Failed,
            },
            Some(c) => match new_line_scan(data, data.len(), c.chunk_size + 2) {
                NewLineScan::Found(i) => StreamChunkStep::Data { len: i as usize, consumed: (i + 2) as usize, chunk_done: true },
                NewLineScan::Scanning(_) => StreamChunkStep::Data {
                    len: data.len() as usize,
                    consumed: data.len() as usize,
                    chunk_done: false,
                },
                _ => StreamChunkStep::Failed,
            },
        }
    }
}

/// Decides the HTTP/1 stream reader's next step on the bytes read so far,
/// given the chunk being read and the index the next chunk gets. An empty
/// size line at the end of the bytes calls for more bytes.
pub fn next_stream_chunk_step(data: &[u8], chunk: &Option<Chunk>, next_index: usize) -> (r: StreamChunkStep)
    requires
        chunk matches Some(c) ==> c.chunk_size + 2 <= usize::MAX,
        !(new_line_scan(data@, data@.len(), stream_step_cap(*chunk)) is Overflowed),
    ensures
        r == stream_chunk_step(data@, *chunk, next_index as nat),
{
    let len = data.len();
    if len == 0 {
        return StreamChunkStep::ReadMore;
    }
    match chunk {
        None => match find_new_line(data, 16) {
            Ok(Some(i)) => {
                proof { lemma_new_line_scan_found(data@, data@.len(), 16); }
                if i + 2 >= len {
                    return StreamChunkStep::ReadMore;
                }
                let line = vstd::slice::slice_subrange(data, 0, i);
                assert(line@ =~= data@.take(i as int));
                match hex_bytes_to_usize(line) {
                    None => StreamChunkStep::Failed,
                    Some(chunk_size) => {
                        if chunk_size == 0 {
                            if len - (i + 2) < 2 {
                                StreamChunkStep::Failed
                            } else {
                                StreamChunkStep::Finished { consumed: i + 4 }
                            }
                        } else {
                            StreamChunkStep::Header { chunk: Chunk { index: next_index, chunk_size }, consumed: i + 2 }
                        }
                    },
                }
            },
            Ok(None) => StreamChunkStep::ReadMore,
            Err(_) => StreamChunkStep::Failed,
        },
        Some(c) => match find_new_line(data, c.chunk_size + 2) {
            Ok(Some(i)) => {
                proof { lemma_new_line_scan_found(data@, data@.len(), c.chunk_size + 2); }
                StreamChunkStep::Data { len: i, consumed: i + 2, chunk_done: true }
            },
            Ok(None) => StreamChunkStep::Data { len, consumed: len, chunk_done: false },
            Err(_) => StreamChunkStep::Failed,
        },
    }
}

} // verus!
