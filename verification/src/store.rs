//! The shared store of latency samples.
//!
//! Every connection handler appends through [`SampleStore::append`] and reads
//! through [`SampleStore::snapshot`]. The store keeps insertion order, never
//! deduplicates, and never loses or tears an entry. Mutual exclusion around a
//! shared instance is the embedding program's concern; the contracts here say
//! what each linearized `append` and `snapshot` does to the sequence, and the
//! laws at the bottom say what any interleaving of completed appends leaves
//! behind.
use vstd::prelude::*;

verus! {

/// One client-submitted latency measurement.
///
/// `timestamp` is a client-supplied point in time, opaque to the server.
/// `ping_ms_bits` carries the client's floating-point latency figure in
/// milliseconds as its raw bit pattern: the store never interprets it, only
/// preserves it, so the embedding program converts at the boundary.
#[derive(Clone, Copy, PartialEq, Eq, Structural, Debug)]
pub struct Sample {
    pub timestamp: u64,
    pub ping_ms_bits: u64,
}

/// An ordered collection of [`Sample`]s, insertion order preserved.
pub struct SampleStore {
    samples: Vec<Sample>,
}

impl View for SampleStore {
    type V = Seq<Sample>;

    closed spec fn view(&self) -> Seq<Sample> {
        self.samples@
    }
}

impl SampleStore {
    /// A new store holds nothing.
    pub fn new() -> (r: SampleStore)
        ensures
            r@ == Seq::<Sample>::empty(),
    {
        SampleStore { samples: Vec::new() }
    }

    /// Adds `sample` at the end of the sequence; every entry already present
    /// stays where it was. Appending always succeeds.
    pub fn append(&mut self, sample: Sample)
        ensures
            final(self)@ == old(self)@.push(sample),
    {
        self.samples.push(sample);
    }

    /// Returns a copy of the stored sequence as it stands at the moment of
    /// the call: same length, same entries, same order — never a torn or
    /// duplicated entry.
    pub fn snapshot(&self) -> (r: Vec<Sample>)
        ensures
            r@ == self@,
    {
        let mut out: Vec<Sample> = Vec::new();
        let mut i: usize = 0;
        while i < self.samples.len()
            invariant
                i <= self.samples.len(),
                out@ == self.samples@.subrange(0, i as int),
            decreases self.samples.len() - i,
        {
            out.push(self.samples[i]);
            assert(out@ =~= self.samples@.subrange(0, i + 1 as int));
            i += 1;
        }
        assert(out@ =~= self@);
        out
    }

    /// Number of stored samples.
    pub fn len(&self) -> (r: usize)
        ensures
            r == self@.len(),
    {
        self.samples.len()
    }
}

/// The sequence left behind by a series of completed appends, in the order in
/// which they took effect: each one pushes its sample at the end.
pub open spec fn after_appends(s0: Seq<Sample>, xs: Seq<Sample>) -> Seq<Sample>
    decreases xs.len(),
{
    if xs.len() == 0 {
        s0
    } else {
        after_appends(s0.push(xs[0]), xs.drop_first())
    }
}

/// Law: a snapshot taken after a series of appends has completed holds the
/// entries that were already present, unchanged and in place, followed by
/// exactly one entry per append, equal to its input, in the order the appends
/// took effect — no entry lost, none duplicated, none torn.
pub proof fn lemma_appends_account_for_all(s0: Seq<Sample>, xs: Seq<Sample>)
    ensures
        after_appends(s0, xs).len() == s0.len() + xs.len(),
        forall|i: int| 0 <= i < s0.len() ==> after_appends(s0, xs)[i] == s0[i],
        forall|i: int| 0 <= i < xs.len() ==> after_appends(s0, xs)[s0.len() + i] == xs[i],
    decreases xs.len(),
{
    if xs.len() == 0 {
    } else {
        let s1 = s0.push(xs[0]);
        let rest = xs.drop_first();
        lemma_appends_account_for_all(s1, rest);
        assert(after_appends(s0, xs) == after_appends(s1, rest));
        assert forall|i: int| 0 <= i < s0.len() implies after_appends(s0, xs)[i] == s0[i] by {
            assert(after_appends(s1, rest)[i] == s1[i]);
        }
        assert forall|i: int| 0 <= i < xs.len() implies after_appends(s0, xs)[s0.len() + i]
            == xs[i] by {
            if i == 0 {
                assert(after_appends(s1, rest)[s0.len() as int] == s1[s0.len() as int]);
            } else {
                assert(after_appends(s1, rest)[s1.len() + (i - 1)] == rest[i - 1]);
                assert(rest[i - 1] == xs[i]);
            }
        }
    }
}

/// Law: once two appends have both completed, the store holds at least two
/// entries — concurrent submissions never lose an update.
pub proof fn lemma_no_lost_update(s0: Seq<Sample>, a: Sample, b: Sample)
    ensures
        s0.push(a).push(b).len() >= 2,
{
}

} // verus!
