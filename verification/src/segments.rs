//! Audio segments and per-segment transcription results.
//!
//! A segment is the unit of dispatch to a speech-recognition backend.  The
//! result map is keyed by segment index; only segments that ultimately
//! succeeded hold text.  Results may arrive in any order — the map's final
//! content does not depend on it — and the final text is always assembled in
//! segment-index order.

use vstd::prelude::*;

verus! {

/// One bounded slice of an audio track, the unit of transcription dispatch.
#[derive(Clone, Debug)]
pub struct Segment {
    /// Position within the source track.
    pub index: usize,
    /// Temporary file that holds the slice.
    pub path: String,
    /// Offset of the slice in the source track, in seconds.
    pub start_secs: u64,
    /// Length of the slice, in seconds.
    pub duration_secs: u64,
}

/// Transcription results by segment index.  A slot is `None` until its
/// segment succeeds.
pub struct SegmentResults {
    pub slots: Vec<Option<String>>,
}

impl SegmentResults {
    pub open spec fn view(&self) -> Seq<Option<String>> {
        self.slots@
    }

    /// An empty result map for `n` segments.
    pub fn new(n: usize) -> (r: SegmentResults)
        ensures
            r@.len() == n,
            forall|i: int| 0 <= i < n ==> r@[i] is None,
    {
        let mut slots: Vec<Option<String>> = Vec::new();
        let mut i: usize = 0;
        while i < n
            invariant
                i <= n,
                slots@.len() == i,
                forall|k: int| 0 <= k < i ==> slots@[k] is None,
            decreases n - i,
        {
            slots.push(None);
            i = i + 1;
        }
        SegmentResults { slots }
    }

    pub fn len(&self) -> (r: usize)
        ensures
            r == self@.len(),
    {
        self.slots.len()
    }

    /// The text recorded for one segment, if it succeeded.
    pub fn get(&self, index: usize) -> (r: Option<&String>)
        requires
            index < self@.len(),
        ensures
            match r {
                Some(text) => self@[index as int] == Some(*text),
                None => self@[index as int] is None,
            },
    {
        match &self.slots[index] {
            Some(text) => Some(text),
            None => None,
        }
    }

    /// Records the transcription of one segment.  Recording distinct indices
    /// commutes, so the map does not depend on completion order.
    pub fn set_result(&mut self, index: usize, text: String)
        requires
            index < old(self)@.len(),
        ensures
            final(self)@ == old(self)@.update(index as int, Some(text)),
    {
        self.slots.remove(index);
        self.slots.insert(index, Some(text));
        proof {
            assert(self@ =~= old(self)@.update(index as int, Some(text)));
        }
    }

    /// How many segments have succeeded so far.
    pub open spec fn spec_success_count(s: Seq<Option<String>>) -> nat
        decreases s.len(),
    {
        if s.len() == 0 {
            0
        } else {
            Self::spec_success_count(s.drop_last()) + (if s.last() is Some {
                1nat
            } else {
                0nat
            })
        }
    }

    pub fn success_count(&self) -> (r: usize)
        ensures
            r == Self::spec_success_count(self@),
    {
        let mut count: usize = 0;
        let mut i: usize = 0;
        while i < self.slots.len()
            invariant
                i <= self@.len(),
                count == Self::spec_success_count(self@.take(i as int)),
                count <= i,
            decreases self@.len() - i,
        {
            if self.slots[i].is_some() {
                count = count + 1;
            }
            i = i + 1;
            proof {
                assert(self@.take(i as int).drop_last() =~= self@.take(i as int - 1));
            }
        }
        proof {
            assert(self@.take(self@.len() as int) =~= self@);
        }
        count
    }

    /// The segment indices that have no result yet, in ascending order: the
    /// complement of the successful set, which a second pass retries.
    pub fn pending_segments(&self) -> (r: Vec<usize>)
        ensures
            forall|v: usize| r@.contains(v) <==> (v < self@.len() && self@[v as int] is None),
            forall|i: int, j: int| 0 <= i < j < r@.len() ==> r@[i] < r@[j],
    {
        let mut r: Vec<usize> = Vec::new();
        let mut i: usize = 0;
        while i < self.slots.len()
            invariant
                i <= self@.len(),
                forall|v: usize| r@.contains(v) <==> (v < i && self@[v as int] is None),
                forall|a: int, b: int| 0 <= a < b < r@.len() ==> r@[a] < r@[b],
                forall|k: int| 0 <= k < r@.len() ==> r@[k] < i,
            decreases self@.len() - i,
        {
            let ghost prev = r@;
            if self.slots[i].is_none() {
                r.push(i);
                proof {
                    assert forall|v: usize| #[trigger] r@.contains(v) implies (prev.contains(v)
                        || v == i) by {
                        let k = choose|k: int| 0 <= k < r@.len() && r@[k] == v;
                        if k < prev.len() {
                            assert(prev[k] == v);
                        }
                    }
                    assert forall|v: usize| prev.contains(v) implies #[trigger] r@.contains(
                        v,
                    ) by {
                        let k = choose|k: int| 0 <= k < prev.len() && prev[k] == v;
                        assert(r@[k] == v);
                    }
                    assert(r@[r@.len() - 1] == i);
                    assert(r@.contains(i));
                }
            }
            i = i + 1;
        }
        r
    }
}

/// Recording results at distinct indices commutes: the result map after a
/// set of successful segments is the same whatever order they completed in.
pub proof fn lemma_results_order_independent(
    s: Seq<Option<String>>,
    i: int,
    j: int,
    x: Option<String>,
    y: Option<String>,
)
    requires
        0 <= i < s.len(),
        0 <= j < s.len(),
        i != j,
    ensures
        s.update(i, x).update(j, y) == s.update(j, y).update(i, x),
{
    assert(s.update(i, x).update(j, y) =~= s.update(j, y).update(i, x));
}

/// A bounded pool of transcription workers: decides which segments to
/// dispatch and records what the backends returned.  The network calls
/// themselves are made by the driving program with at most `max_workers`
/// in flight at once.
pub struct TranscriptionPool {
    /// Most concurrently dispatched segments.
    pub max_workers: usize,
    /// Most attempts per segment, handed to the retry executor.
    pub max_retries: u32,
    /// Once set, no new segment is dispatched; in-flight calls finish and
    /// the partial results stay valid.
    pub interrupt_flag: bool,
}

impl TranscriptionPool {
    pub fn new(max_workers: usize, max_retries: u32) -> (r: TranscriptionPool)
        requires
            max_workers >= 1,
        ensures
            r.max_workers == max_workers,
            r.max_retries == max_retries,
            !r.interrupt_flag,
    {
        TranscriptionPool { max_workers, max_retries, interrupt_flag: false }
    }

    pub fn set_interrupt_flag(&mut self, value: bool)
        ensures
            final(self).interrupt_flag == value,
            final(self).max_workers == old(self).max_workers,
            final(self).max_retries == old(self).max_retries,
    {
        self.interrupt_flag = value;
    }

    /// The segments to dispatch next: every segment without a result, in
    /// ascending order — or none at all once the interrupt flag is set.
    pub fn dispatch_plan(&self, results: &SegmentResults) -> (r: Vec<usize>)
        ensures
            self.interrupt_flag ==> r@.len() == 0,
            !self.interrupt_flag ==> {
                &&& forall|v: usize|
                    r@.contains(v) <==> (v < results@.len() && results@[v as int] is None)
                &&& forall|i: int, j: int| 0 <= i < j < r@.len() ==> r@[i] < r@[j]
            },
    {
        if self.interrupt_flag {
            Vec::new()
        } else {
            results.pending_segments()
        }
    }

    /// Merges one pass's successful outcomes into the result map: each
    /// outcome fills its segment's slot, every other slot is kept.  The
    /// outcomes may be in any completion order.
    #[verifier::loop_isolation(false)]
    pub fn record_outcomes(&self, results: &mut SegmentResults, outcomes: &Vec<(usize, String)>)
        requires
            forall|k: int|
                0 <= k < outcomes@.len() ==> (#[trigger] outcomes@[k]).0 < old(results)@.len(),
            forall|k: int, l: int|
                0 <= k < l < outcomes@.len() ==> outcomes@[k].0 != outcomes@[l].0,
        ensures
            final(results)@.len() == old(results)@.len(),
            forall|k: int|
                0 <= k < outcomes@.len() ==> final(results)@[(#[trigger] outcomes@[k]).0 as int]
                    == Some(outcomes@[k].1),
            forall|i: int|
                0 <= i < old(results)@.len() && (forall|k: int|
                    0 <= k < outcomes@.len() ==> (#[trigger] outcomes@[k]).0 != i) ==> final(results)@[i] == old(results)@[i],
    {
        let mut m: usize = 0;
        while m < outcomes.len()
            invariant
                m <= outcomes@.len(),
                results@.len() == old(results)@.len(),
                forall|k: int|
                    0 <= k < m ==> results@[(#[trigger] outcomes@[k]).0 as int] == Some(
                        outcomes@[k].1,
                    ),
                forall|i: int|
                    0 <= i < old(results)@.len() && (forall|k: int|
                        0 <= k < m ==> (#[trigger] outcomes@[k]).0 != i) ==> results@[i] == old(results)@[i],
            decreases outcomes@.len() - m,
        {
            let idx = outcomes[m].0;
            let text = outcomes[m].1.clone();
            results.set_result(idx, text);
            m = m + 1;
        }
    }
}

} // verus!
