//! Handing a body of declared length on, chunk by chunk, as it is read.

use vstd::prelude::*;

verus! {

/// The smaller of two lengths.
pub open spec fn min_len(a: nat, b: nat) -> nat {
    if a <= b {
        a
    } else {
        b
    }
}

/// What a run over the read chunks hands on, with `remaining` bytes of the
/// body still owed: of each chunk, as much as is still owed.
pub open spec fn pulled(remaining: nat, chunks: Seq<Seq<u8>>) -> Seq<u8>
    decreases chunks.len(),
{
    if chunks.len() == 0 {
        Seq::empty()
    } else {
        let t = min_len(remaining, chunks[0].len());
        chunks[0].take(t as int) + pulled((remaining - t) as nat, chunks.drop_first())
    }
}

/// The bytes of a body still to be handed on: the declared length and how
/// much of it has not been handed on yet.
pub struct BytesPuller {
    pub content_length: usize,
    pub remaining: usize,
}

impl BytesPuller {
    /// The puller never owes more than the declared length.
    pub open spec fn wf(&self) -> bool {
        self.remaining <= self.content_length
    }

    /// A puller for a body of `content_length` bytes, none handed on yet.
    pub fn new(content_length: usize) -> (r: Self)
        ensures
            r.content_length == content_length,
            r.remaining == content_length,
            r.wf(),
    {
        BytesPuller { content_length, remaining: content_length }
    }

    /// Whether the whole body has been handed on.
    pub fn is_done(&self) -> (r: bool)
        ensures
            r == (self.remaining == 0),
    {
        self.remaining == 0
    }

    /// The part of a chunk read from an HTTP/1 stream that goes to the
    /// callback: as much of it as the body still owes, which is then no
    /// longer owed. The bytes buffered with the headers are the first chunk.
    pub fn on_chunk<'a>(&mut self, data: &'a [u8]) -> (r: &'a [u8])
        ensures
            r@ == data@.take(min_len(old(self).remaining as nat, data@.len()) as int),
            final(self).remaining == old(self).remaining - r@.len(),
            final(self).content_length == old(self).content_length,
            old(self).wf() ==> final(self).wf(),
    {
        let take: usize = if self.remaining < data.len() {
            self.remaining
        } else {
            data.len()
        };
        self.remaining = self.remaining - take;
        let r = vstd::slice::slice_subrange(data, 0, take);
        assert(r@ =~= data@.take(take as int));
        r
    }

    /// A data frame read from an HTTP/2 stream goes to the callback whole,
    /// and its length is no longer owed.
    pub fn on_frame<'a>(&mut self, data: &'a [u8]) -> (r: &'a [u8])
        requires
            data@.len() <= old(self).remaining,
        ensures
            r@ == data@,
            final(self).remaining == old(self).remaining - data@.len(),
            final(self).content_length == old(self).content_length,
            old(self).wf() ==> final(self).wf(),
    {
        self.remaining = self.remaining - data.len();
        data
    }
}

/// Pulling a body of `remaining` bytes over any run of read chunks hands on
/// exactly the first bytes of what was read, never more than the body owes:
/// all of it when the chunks hold less, else exactly `remaining` bytes.
pub proof fn law_pulled_is_prefix(remaining: nat, chunks: Seq<Seq<u8>>)
    ensures
        pulled(remaining, chunks) == chunks.flatten().take(min_len(remaining, chunks.flatten().len()) as int),
    decreases chunks.len(),
{
    if chunks.len() > 0 {
        let c = chunks[0];
        let rest = chunks.drop_first();
        let t = min_len(remaining, c.len());
        law_pulled_is_prefix((remaining - t) as nat, rest);
        let all = chunks.flatten();
        assert(all == c + rest.flatten());
        let n = min_len(remaining, all.len());
        if t < c.len() {
            assert(t == remaining);
            assert(pulled((remaining - t) as nat, rest) =~= Seq::<u8>::empty());
            assert(all.take(n as int) =~= c.take(t as int));
            assert(c.take(t as int) + Seq::<u8>::empty() =~= c.take(t as int));
        } else {
            let m = min_len((remaining - t) as nat, rest.flatten().len());
            assert(n == t + m);
            assert(all.take(n as int) =~= c.take(t as int) + rest.flatten().take(m as int));
        }
    }
}

} // verus!
