//! The sample buffer store: one growing buffer of PCM samples per stream
//! identifier, filled packet by packet and handed out whole when the speaker
//! stops.

use std::collections::HashMap;
use vstd::prelude::*;
use vstd::std_specs::hash::*;

verus! {

/// The samples of a packet that are kept: those other than zero, in order.
pub open spec fn nonzero(samples: Seq<i16>) -> Seq<i16> {
    samples.filter(|s: i16| s != 0)
}

/// What a buffer map holds at `ssrc`, the empty sequence where it has no
/// buffer.
pub open spec fn buffered(buffers: Map<u32, Seq<i16>>, ssrc: u32) -> Seq<i16> {
    if buffers.contains_key(ssrc) {
        buffers[ssrc]
    } else {
        Seq::empty()
    }
}

/// The buffer map after a packet for `ssrc` has been taken in.
pub open spec fn appended(buffers: Map<u32, Seq<i16>>, ssrc: u32, samples: Seq<i16>) -> Map<
    u32,
    Seq<i16>,
> {
    buffers.insert(ssrc, buffered(buffers, ssrc) + nonzero(samples))
}

/// Filtering a packet piece by piece gives what filtering it whole gives.
pub proof fn lemma_nonzero_concat(a: Seq<i16>, b: Seq<i16>)
    ensures
        nonzero(a + b) == nonzero(a) + nonzero(b),
{
    Seq::filter_distributes_over_add(a, b, |s: i16| s != 0);
}

/// Taking one more sample into account.
pub proof fn lemma_nonzero_push(a: Seq<i16>, s: i16)
    ensures
        nonzero(a.push(s)) == if s != 0 {
            nonzero(a).push(s)
        } else {
            nonzero(a)
        },
{
    reveal(Seq::filter);
    assert(a.push(s).drop_last() =~= a);
}

/// The buffers of one voice connection, keyed by stream identifier.
pub struct SampleStore {
    buffers: HashMap<u32, Vec<i16>>,
}

impl View for SampleStore {
    type V = Map<u32, Seq<i16>>;

    closed spec fn view(&self) -> Map<u32, Seq<i16>> {
        self.buffers@.map_values(|v: Vec<i16>| v@)
    }
}

impl SampleStore {
    /// A store without any buffer.
    pub fn new() -> (store: SampleStore)
        ensures
            store@ == Map::<u32, Seq<i16>>::empty(),
    {
        let store = SampleStore { buffers: HashMap::new() };
        assert(store@ =~= Map::<u32, Seq<i16>>::empty());
        store
    }

    /// Whether a buffer exists for `ssrc`.
    pub fn contains(&self, ssrc: u32) -> (present: bool)
        ensures
            present == self@.contains_key(ssrc),
    {
        broadcast use group_hash_axioms;

        self.buffers.contains_key(&ssrc)
    }

    /// Appends the non-zero samples of `samples` to the buffer of `ssrc`,
    /// which is created if it does not exist. No other buffer changes.
    pub fn append(&mut self, ssrc: u32, samples: &Vec<i16>)
        ensures
            final(self)@ == appended(old(self)@, ssrc, samples@),
    {
        broadcast use group_hash_axioms;

        let mut buffer = match self.buffers.remove(&ssrc) {
            Some(existing) => existing,
            None => Vec::new(),
        };
        assert(buffer@ == buffered(old(self)@, ssrc));
        let ghost before = buffer@;
        let mut i: usize = 0;
        while i < samples.len()
            invariant
                i <= samples.len(),
                buffer@ == before + nonzero(samples@.take(i as int)),
            decreases samples.len() - i,
        {
            let sample = samples[i];
            proof {
                assert(samples@.take(i + 1) =~= samples@.take(i as int).push(sample));
                lemma_nonzero_push(samples@.take(i as int), sample);
            }
            if sample != 0 {
                buffer.push(sample);
            }
            i += 1;
        }
        assert(samples@.take(i as int) =~= samples@);
        self.buffers.insert(ssrc, buffer);
        assert(self@ =~= appended(old(self)@, ssrc, samples@));
    }

    /// Removes the buffer of `ssrc` and returns it: `None` where there is no
    /// buffer, the samples (possibly none) where there is one.
    pub fn drain_remove(&mut self, ssrc: u32) -> (drained: Option<Vec<i16>>)
        ensures
            final(self)@ == old(self)@.remove(ssrc),
            match drained {
                Some(samples) => old(self)@.contains_key(ssrc) && samples@ == old(self)@[ssrc],
                None => !old(self)@.contains_key(ssrc),
            },
    {
        broadcast use group_hash_axioms;

        let drained = self.buffers.remove(&ssrc);
        assert(self@ =~= old(self)@.remove(ssrc));
        drained
    }
}

} // verus!
