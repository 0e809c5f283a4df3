//! The paced byte-stream generator behind the download probe.
//!
//! A [`PacedByteStream`] models a download of `chunk_count` chunks of
//! `chunk_size` zero bytes each. Chunks are produced one at a time, on
//! demand, so at most one chunk is resident and the consuming transport's
//! backpressure pauses production naturally. Pacing convention: the delay is
//! owed before every chunk after the first, so a full run waits
//! `(chunk_count - 1) * delay_ms` in total. The generator only reports how
//! long to wait; the embedding program performs the wait, and may stop asking
//! for chunks at any point (cancellation), which abandons nothing but this
//! small value.
use vstd::prelude::*;

verus! {

/// The content of every chunk: `size` zero bytes. Only size and timing
/// matter to a bandwidth probe, so the content is fixed.
pub open spec fn zero_chunk(size: nat) -> Seq<u8> {
    Seq::new(size, |i: int| 0u8)
}

/// Everything a full, uncancelled run of the stream yields, in order.
pub open spec fn full_output(count: nat, size: nat) -> Seq<Seq<u8>> {
    Seq::new(count, |i: int| zero_chunk(size))
}

/// The wait owed before emitting chunk number `k` (counting from zero):
/// nothing before the first chunk, `delay_ms` before every later one.
pub open spec fn delay_before(k: u64, delay_ms: u64) -> u64 {
    if k == 0 {
        0
    } else {
        delay_ms
    }
}

/// The total wait owed by a full run of `count` chunks.
pub open spec fn total_delay(count: int, delay_ms: int) -> int
    decreases count,
{
    if count <= 0 {
        0
    } else {
        total_delay(count - 1, delay_ms) + (if count - 1 == 0 {
            0int
        } else {
            delay_ms
        })
    }
}

/// A bounded, lazy source of fixed-size chunks with a fixed pacing delay.
pub struct PacedByteStream {
    chunk_size: usize,
    chunk_count: u64,
    delay_ms: u64,
    emitted: u64,
}

impl PacedByteStream {
    pub closed spec fn chunk_size_spec(&self) -> usize {
        self.chunk_size
    }

    pub closed spec fn chunk_count_spec(&self) -> u64 {
        self.chunk_count
    }

    pub closed spec fn delay_ms_spec(&self) -> u64 {
        self.delay_ms
    }

    /// How many chunks have been handed out so far.
    pub closed spec fn emitted_spec(&self) -> u64 {
        self.emitted
    }

    /// Opens a fresh stream that will yield `chunk_count` chunks of
    /// `chunk_size` bytes, pacing them by `delay_ms`.
    pub fn open(chunk_size: usize, chunk_count: u64, delay_ms: u64) -> (r: PacedByteStream)
        ensures
            r.chunk_size_spec() == chunk_size,
            r.chunk_count_spec() == chunk_count,
            r.delay_ms_spec() == delay_ms,
            r.emitted_spec() == 0,
    {
        PacedByteStream { chunk_size, chunk_count, delay_ms, emitted: 0 }
    }

    /// Yields the next chunk, or `None` once `chunk_count` chunks have been
    /// produced — the stream then ends cleanly, and keeps answering `None`.
    /// A yielded chunk comes with the wait owed before sending it.
    pub fn next(&mut self) -> (r: Option<(u64, Vec<u8>)>)
        ensures
            final(self).chunk_size_spec() == old(self).chunk_size_spec(),
            final(self).chunk_count_spec() == old(self).chunk_count_spec(),
            final(self).delay_ms_spec() == old(self).delay_ms_spec(),
            old(self).emitted_spec() < old(self).chunk_count_spec() ==> {
                &&& r is Some
                &&& r.unwrap().0 == delay_before(old(self).emitted_spec(), old(self).delay_ms_spec())
                &&& r.unwrap().1@ == zero_chunk(old(self).chunk_size_spec() as nat)
                &&& final(self).emitted_spec() == old(self).emitted_spec() + 1
            },
            old(self).emitted_spec() >= old(self).chunk_count_spec() ==> {
                &&& r is None
                &&& final(self).emitted_spec() == old(self).emitted_spec()
            },
    {
        if self.emitted < self.chunk_count {
            let wait: u64 = if self.emitted == 0 {
                0
            } else {
                self.delay_ms
            };
            let chunk: Vec<u8> = vec![0u8; self.chunk_size];
            assert(chunk@ =~= zero_chunk(self.chunk_size as nat));
            self.emitted = self.emitted + 1;
            Some((wait, chunk))
        } else {
            None
        }
    }
}

/// Law: a full run yields exactly `count` chunks, each of exactly `size`
/// bytes, and then terminates.
pub proof fn lemma_paced_output_shape(count: nat, size: nat)
    ensures
        full_output(count, size).len() == count,
        forall|i: int| 0 <= i < count ==> #[trigger] full_output(count, size)[i]
            == zero_chunk(size),
        zero_chunk(size).len() == size,
{
}

/// Law: with the delay owed before every chunk after the first, a full run
/// of `count` chunks waits exactly `(count - 1) * delay_ms` in total (and a
/// run of no chunks waits nothing).
pub proof fn lemma_total_paced_duration(count: int, delay_ms: int)
    requires
        count >= 0,
    ensures
        count == 0 ==> total_delay(count, delay_ms) == 0,
        count >= 1 ==> total_delay(count, delay_ms) == (count - 1) * delay_ms,
    decreases count,
{
    if count <= 0 {
    } else if count == 1 {
        assert(total_delay(0, delay_ms) == 0);
        assert(total_delay(1, delay_ms) == 0);
        assert((1 - 1) * delay_ms == 0);
    } else {
        lemma_total_paced_duration(count - 1, delay_ms);
        assert(total_delay(count, delay_ms) == total_delay(count - 1, delay_ms) + delay_ms);
        assert((count - 2) * delay_ms + delay_ms == (count - 1) * delay_ms) by (nonlinear_arith);
    }
}

} // verus!
