//! The resume ledger: one processing record per source audio file.
//!
//! A record tracks which parts of a long track are complete.  Its `completed`
//! flag is true exactly when every part index in `[0, total_parts)` is in the
//! completed set, so a resumed run dispatches only the pending parts and a
//! file whose record is complete causes no new dispatch at all.

use vstd::prelude::*;

verus! {

/// A sequence of part indices in strictly increasing order.
pub open spec fn strictly_increasing(s: Seq<usize>) -> bool {
    forall|i: int, j: int| 0 <= i < j < s.len() ==> s[i] < s[j]
}

/// All indices of the sequence lie below `bound`.
pub open spec fn all_below(s: Seq<usize>, bound: usize) -> bool {
    forall|i: int| 0 <= i < s.len() ==> s[i] < bound
}

/// In a strictly increasing sequence, indices grow at least as fast as
/// positions: `s[j] >= s[i] + (j - i)`.
proof fn lemma_strict_gap(s: Seq<usize>, i: int, j: int)
    requires
        strictly_increasing(s),
        0 <= i <= j < s.len(),
    ensures
        s[j] >= s[i] + j - i,
    decreases j - i,
{
    if i < j {
        lemma_strict_gap(s, i, j - 1);
    }
}

/// A strictly increasing sequence of `total` indices, all below `total`,
/// holds every index below `total`.
pub proof fn lemma_full_set_has_all(s: Seq<usize>, total: usize)
    requires
        strictly_increasing(s),
        all_below(s, total),
        s.len() == total,
    ensures
        forall|v: usize| v < total ==> s.contains(v),
{
    assert forall|v: usize| v < total implies s.contains(v) by {
        lemma_strict_gap(s, 0, v as int);
        lemma_strict_gap(s, v as int, total as int - 1);
        assert(s[v as int] == v);
    }
}

/// Per-part result statistics: how many segments the part held, how many
/// were transcribed, and the output file that holds its text, if any.
pub struct PartStat {
    pub total_segments: usize,
    pub successful_segments: usize,
    /// `None` for a part that was attempted but produced no usable output.
    pub output_file: Option<String>,
}

/// The statistics table holds an entry binding part `k` to `st`.
pub open spec fn has_stat(s: Seq<(usize, PartStat)>, k: usize, st: PartStat) -> bool {
    exists|i: int| 0 <= i < s.len() && s[i] == (k, st)
}

/// The statistics table holds some entry for part `k`.
pub open spec fn has_stat_key(s: Seq<(usize, PartStat)>, k: usize) -> bool {
    exists|i: int| 0 <= i < s.len() && s[i].0 == k
}

/// The statistics table maps each part index at most once.
pub open spec fn stat_keys_unique(s: Seq<(usize, PartStat)>) -> bool {
    forall|i: int, j: int| 0 <= i < j < s.len() ==> s[i].0 != s[j].0
}

/// The rebuilt statistics entry for part `k` matches the saved table: the
/// content of some saved entry for `k`, or empty statistics if the saved
/// table had none.
pub open spec fn stat_restored(
    saved: Seq<(usize, PartStat)>,
    rebuilt: Seq<(usize, PartStat)>,
    k: usize,
) -> bool {
    if has_stat_key(saved, k) {
        exists|i: int, st: PartStat|
            0 <= i < saved.len() && (#[trigger] saved[i]).0 == k && #[trigger] has_stat(
                rebuilt,
                k,
                st,
            ) && st.total_segments == saved[i].1.total_segments && st.successful_segments
                == saved[i].1.successful_segments && (match (st.output_file, saved[i].1.output_file) {
                (Some(a), Some(b)) => a@ == b@,
                (None, None) => true,
                _ => false,
            })
    } else {
        has_stat(rebuilt, k, (PartStat { total_segments: 0, successful_segments: 0, output_file: None }))
    }
}

/// A table has some entry for `k` exactly when it binds `k` to some value.
proof fn lemma_stat_key_iff_value(s: Seq<(usize, PartStat)>, k: usize)
    ensures
        has_stat_key(s, k) <==> exists|st: PartStat| has_stat(s, k, st),
{
    if has_stat_key(s, k) {
        let i = choose|i: int| 0 <= i < s.len() && s[i].0 == k;
        let st = s[i].1;
        assert(s[i] == (k, st));
        assert(has_stat(s, k, st));
    }
    if exists|st: PartStat| has_stat(s, k, st) {
        let st = choose|st: PartStat| has_stat(s, k, st);
        let i = choose|i: int| 0 <= i < s.len() && s[i] == (k, st);
        assert(s[i].0 == k);
    }
}

/// Resume state of one source audio file.
pub struct ProcessingRecord {
    /// When the file was last worked on.
    pub last_processed_time: String,
    /// Completed part indices, strictly increasing, each below `total_parts`.
    pub processed_parts: Vec<usize>,
    /// How many parts the track divides into; 0 for a single-pass file.
    pub total_parts: usize,
    /// Per-part statistics, keyed by part index.
    pub part_stats: Vec<(usize, PartStat)>,
    /// True exactly when the record has at least one part and every part
    /// index below `total_parts` is in `processed_parts`.
    pub completed: bool,
}

impl ProcessingRecord {
    pub open spec fn well_formed(&self) -> bool {
        &&& strictly_increasing(self.processed_parts@)
        &&& all_below(self.processed_parts@, self.total_parts)
        &&& self.completed == (self.total_parts >= 1 && self.processed_parts@.len()
            == self.total_parts)
        &&& stat_keys_unique(self.part_stats@)
    }

    /// The part is recorded complete.
    pub open spec fn spec_has_part(&self, part_idx: usize) -> bool {
        self.processed_parts@.contains(part_idx)
    }

    /// A fresh record for a file first seen at `now`: nothing processed yet.
    pub fn new(now: String) -> (r: ProcessingRecord)
        ensures
            r.well_formed(),
            r.last_processed_time == now,
            r.processed_parts@ =~= Seq::<usize>::empty(),
            r.total_parts == 0,
            r.part_stats@ =~= Seq::<(usize, PartStat)>::empty(),
            !r.completed,
    {
        ProcessingRecord {
            last_processed_time: now,
            processed_parts: Vec::new(),
            total_parts: 0,
            part_stats: Vec::new(),
            completed: false,
        }
    }

    /// A fresh record for a multi-part file with `total_parts` parts.
    pub fn with_parts(now: String, total_parts: usize) -> (r: ProcessingRecord)
        requires
            total_parts >= 1,
        ensures
            r.well_formed(),
            r.last_processed_time == now,
            r.processed_parts@ =~= Seq::<usize>::empty(),
            r.total_parts == total_parts,
            r.part_stats@ =~= Seq::<(usize, PartStat)>::empty(),
            !r.completed,
    {
        ProcessingRecord {
            last_processed_time: now,
            processed_parts: Vec::new(),
            total_parts,
            part_stats: Vec::new(),
            completed: false,
        }
    }

    /// Rebuilds a record from persisted data, re-establishing its
    /// invariants: part indices outside `[0, total_parts)` and duplicates are
    /// dropped, each kept part gets its saved statistics (or empty ones),
    /// and the `completed` flag is recomputed.  A record saved by this
    /// library loads back into a behaviorally identical record.
    #[verifier::loop_isolation(false)]
    pub fn from_saved(
        last_processed_time: String,
        total_parts: usize,
        parts: &Vec<usize>,
        stats: &Vec<(usize, PartStat)>,
    ) -> (r: ProcessingRecord)
        ensures
            r.well_formed(),
            r.total_parts == total_parts,
            r.last_processed_time == last_processed_time,
            forall|v: usize| r.spec_has_part(v) <==> (parts@.contains(v) && v < total_parts),
            forall|k: usize|
                #![trigger has_stat_key(r.part_stats@, k)]
                #![trigger parts@.contains(k)]
                has_stat_key(r.part_stats@, k) <==> (parts@.contains(k) && k < total_parts),
            forall|k: usize|
                #![trigger parts@.contains(k)]
                parts@.contains(k) && k < total_parts ==> stat_restored(
                    stats@,
                    r.part_stats@,
                    k,
                ),
    {
        let mut r = if total_parts >= 1 {
            ProcessingRecord::with_parts(last_processed_time.clone(), total_parts)
        } else {
            ProcessingRecord::new(last_processed_time.clone())
        };
        let mut i: usize = 0;
        while i < parts.len()
            invariant
                i <= parts@.len(),
                r.well_formed(),
                r.total_parts == total_parts,
                r.last_processed_time == last_processed_time,
                forall|v: usize|
                    r.spec_has_part(v) <==> ((exists|j: int| 0 <= j < i && parts@[j] == v) && v
                        < total_parts),
                forall|k: usize|
                    #![trigger has_stat_key(r.part_stats@, k)]
                    has_stat_key(r.part_stats@, k) <==> ((exists|j: int|
                        0 <= j < i && parts@[j] == k) && k < total_parts),
                forall|k: usize|
                    ((exists|j: int| 0 <= j < i && #[trigger] parts@[j] == k) && k < total_parts)
                        ==> stat_restored(stats@, r.part_stats@, k),
            decreases parts@.len() - i,
        {
            let p = parts[i];
            if p < total_parts {
                let ghost prev_stats = r.part_stats@;
                let stat = Self::saved_stat_for(p, stats);
                r.mark_part_complete(p, stat, last_processed_time.clone());
                proof {
                    let s = r.part_stats@;
                    assert forall|v: usize|
                        r.spec_has_part(v) implies ((exists|j: int| 0 <= j < i + 1 && parts@[j]
                        == v) && v < total_parts) by {
                        if v == p {
                            assert(parts@[i as int] == v);
                        }
                    }
                    assert(stat_restored(stats@, s, p)) by {
                        if !has_stat_key(stats@, p) {
                            assert(stat == (PartStat {
                                total_segments: 0,
                                successful_segments: 0,
                                output_file: None,
                            }));
                        }
                    }
                    assert forall|k: usize| #[trigger] has_stat_key(s, k) implies ((exists|j: int|
                        0 <= j < i + 1 && parts@[j] == k) && k < total_parts) by {
                        if k != p {
                            let ii = choose|ii: int| 0 <= ii < s.len() && s[ii].0 == k;
                            let st = s[ii].1;
                            assert(s[ii] == (k, st));
                            assert(has_stat(s, k, st));
                            assert(has_stat(prev_stats, k, st));
                            let jj = choose|jj: int|
                                0 <= jj < prev_stats.len() && prev_stats[jj] == (k, st);
                            assert(prev_stats[jj].0 == k);
                            assert(has_stat_key(prev_stats, k));
                        } else {
                            assert(parts@[i as int] == p);
                        }
                    }
                    assert forall|k: usize|
                        ((exists|j: int| 0 <= j < i + 1 && parts@[j] == k) && k < total_parts)
                        implies #[trigger] has_stat_key(s, k) by {
                        if k == p {
                            assert(has_stat(s, p, stat));
                            let ii = choose|ii: int| 0 <= ii < s.len() && s[ii] == (p, stat);
                            assert(s[ii].0 == p);
                        } else {
                            let j = choose|j: int| 0 <= j < i + 1 && parts@[j] == k;
                            assert(j < i);
                            assert(has_stat_key(prev_stats, k));
                            let ii = choose|ii: int|
                                0 <= ii < prev_stats.len() && prev_stats[ii].0 == k;
                            let st = prev_stats[ii].1;
                            assert(prev_stats[ii] == (k, st));
                            assert(has_stat(prev_stats, k, st));
                            assert(has_stat(s, k, st));
                            let jj = choose|jj: int| 0 <= jj < s.len() && s[jj] == (k, st);
                            assert(s[jj].0 == k);
                        }
                    }
                    assert forall|k: usize|
                        ((exists|j: int| 0 <= j < i + 1 && #[trigger] parts@[j] == k) && k
                        < total_parts) implies stat_restored(stats@, s, k) by {
                        if k != p {
                            let j = choose|j: int| 0 <= j < i + 1 && parts@[j] == k;
                            assert(j < i);
                            assert(stat_restored(stats@, prev_stats, k));
                            if has_stat_key(stats@, k) {
                                let (ii, st) = choose|ii: int, st: PartStat|
                                    0 <= ii < stats@.len() && stats@[ii].0 == k && has_stat(
                                        prev_stats,
                                        k,
                                        st,
                                    ) && st.total_segments == stats@[ii].1.total_segments
                                        && st.successful_segments
                                        == stats@[ii].1.successful_segments && (match (
                                        st.output_file,
                                        stats@[ii].1.output_file,
                                    ) {
                                        (Some(a), Some(b)) => a@ == b@,
                                        (None, None) => true,
                                        _ => false,
                                    });
                                assert(has_stat(s, k, st));
                            } else {
                                let empty = (PartStat {
                                    total_segments: 0,
                                    successful_segments: 0,
                                    output_file: None,
                                });
                                assert(has_stat(prev_stats, k, empty));
                                assert(has_stat(s, k, empty));
                            }
                        }
                    }
                }
            } else {
                proof {
                    assert forall|v: usize|
                        ((exists|j: int| 0 <= j < i + 1 && parts@[j] == v) && v < total_parts)
                        implies r.spec_has_part(v) by {
                        let j = choose|j: int| 0 <= j < i + 1 && parts@[j] == v;
                        assert(j < i);
                    }
                    assert forall|k: usize|
                        ((exists|j: int| 0 <= j < i + 1 && parts@[j] == k) && k < total_parts)
                        implies #[trigger] has_stat_key(r.part_stats@, k) by {
                        let j = choose|j: int| 0 <= j < i + 1 && parts@[j] == k;
                        assert(j < i);
                    }
                    assert forall|k: usize|
                        ((exists|j: int| 0 <= j < i + 1 && #[trigger] parts@[j] == k) && k
                        < total_parts) implies stat_restored(stats@, r.part_stats@, k) by {
                        let j = choose|j: int| 0 <= j < i + 1 && parts@[j] == k;
                        assert(j < i);
                    }
                }
            }
            i = i + 1;
        }
        proof {
            assert forall|k: usize|
                parts@.contains(k) && k < total_parts implies stat_restored(
                stats@,
                r.part_stats@,
                k,
            ) by {
                let j = choose|j: int| 0 <= j < parts@.len() && parts@[j] == k;
                assert(parts@[j] == k);
            }
        }
        r
    }

    /// The saved statistics entry for one part, or empty statistics if the
    /// saved record had none.
    fn saved_stat_for(part_idx: usize, stats: &Vec<(usize, PartStat)>) -> (r: PartStat)
        ensures
            !has_stat_key(stats@, part_idx) ==> (r.total_segments == 0 && r.successful_segments
                == 0 && r.output_file is None),
            has_stat_key(stats@, part_idx) ==> (exists|i: int|
                0 <= i < stats@.len() && (#[trigger] stats@[i]).0 == part_idx && r.total_segments
                    == stats@[i].1.total_segments && r.successful_segments
                    == stats@[i].1.successful_segments && (match (
                    r.output_file,
                    stats@[i].1.output_file,
                ) {
                    (Some(a), Some(b)) => a@ == b@,
                    (None, None) => true,
                    _ => false,
                })),
    {
        let mut i: usize = 0;
        while i < stats.len()
            invariant
                i <= stats@.len(),
                forall|k: int| 0 <= k < i ==> (#[trigger] stats@[k]).0 != part_idx,
            decreases stats@.len() - i,
        {
            if stats[i].0 == part_idx {
                let st = &stats[i].1;
                let output_file = match &st.output_file {
                    Some(name) => Some(name.clone()),
                    None => None,
                };
                return PartStat {
                    total_segments: st.total_segments,
                    successful_segments: st.successful_segments,
                    output_file,
                };
            }
            i = i + 1;
        }
        proof {
            assert(!has_stat_key(stats@, part_idx));
        }
        PartStat { total_segments: 0, successful_segments: 0, output_file: None }
    }

    /// Whether `part_idx` is already recorded complete.
    pub fn has_part(&self, part_idx: usize) -> (r: bool)
        ensures
            r == self.spec_has_part(part_idx),
    {
        let mut i: usize = 0;
        while i < self.processed_parts.len()
            invariant
                i <= self.processed_parts@.len(),
                forall|k: int| 0 <= k < i ==> self.processed_parts@[k] != part_idx,
            decreases self.processed_parts@.len() - i,
        {
            if self.processed_parts[i] == part_idx {
                return true;
            }
            i = i + 1;
        }
        false
    }

    /// The part indices in `[0, total_parts)` not yet recorded complete, in
    /// ascending order.  A completed record has no pending parts.
    pub fn pending_parts(&self) -> (r: Vec<usize>)
        requires
            self.well_formed(),
        ensures
            strictly_increasing(r@),
            forall|v: usize|
                #![trigger r@.contains(v)]
                #![trigger self.spec_has_part(v)]
                r@.contains(v) <==> (v < self.total_parts && !self.spec_has_part(v)),
            self.completed ==> r@.len() == 0,
    {
        let mut r: Vec<usize> = Vec::new();
        let mut i: usize = 0;
        while i < self.total_parts
            invariant
                i <= self.total_parts,
                strictly_increasing(r@),
                all_below(r@, i),
                forall|v: usize| r@.contains(v) <==> (v < i && !self.spec_has_part(v)),
            decreases self.total_parts - i,
        {
            let ghost prev = r@;
            if !self.has_part(i) {
                r.push(i);
                proof {
                    assert forall|v: usize| #[trigger] r@.contains(v) implies (prev.contains(v)
                        || v == i) by {
                        let k = choose|k: int| 0 <= k < r@.len() && r@[k] == v;
                        if k < prev.len() {
                            assert(prev[k] == v);
                        }
                    }
                    assert forall|v: usize| prev.contains(v) implies #[trigger] r@.contains(
                        v,
                    ) by {
                        let k = choose|k: int| 0 <= k < prev.len() && prev[k] == v;
                        assert(r@[k] == v);
                    }
                    assert(r@[r@.len() - 1] == i);
                    assert(r@.contains(i));
                }
            }
            i = i + 1;
        }
        if self.completed {
            proof {
                lemma_full_set_has_all(self.processed_parts@, self.total_parts);
                if r@.len() > 0 {
                    let v = r@[0];
                    assert(r@.contains(v)) by {
                        assert(r@[0] == v);
                    }
                    assert(v < self.total_parts && !self.spec_has_part(v));
                    assert(self.processed_parts@.contains(v));
                    assert(false);
                }
            }
        }
        r
    }

    /// Position of the statistics entry for `part_idx`, if one exists.
    fn stat_index(&self, part_idx: usize) -> (r: Option<usize>)
        ensures
            match r {
                Some(i) => i < self.part_stats@.len() && self.part_stats@[i as int].0 == part_idx,
                None => forall|i: int|
                    0 <= i < self.part_stats@.len() ==> self.part_stats@[i].0 != part_idx,
            },
    {
        let mut i: usize = 0;
        while i < self.part_stats.len()
            invariant
                i <= self.part_stats@.len(),
                forall|k: int| 0 <= k < i ==> self.part_stats@[k].0 != part_idx,
            decreases self.part_stats@.len() - i,
        {
            if self.part_stats[i].0 == part_idx {
                return Some(i);
            }
            i = i + 1;
        }
        None
    }

    /// The recorded statistics for one part, if any.
    pub fn stat_for_part(&self, part_idx: usize) -> (r: Option<&PartStat>)
        requires
            stat_keys_unique(self.part_stats@),
        ensures
            match r {
                Some(st) => has_stat(self.part_stats@, part_idx, *st),
                None => !has_stat_key(self.part_stats@, part_idx),
            },
    {
        match self.stat_index(part_idx) {
            Some(i) => Some(&self.part_stats[i].1),
            None => None,
        }
    }

    /// Replaces or adds the statistics entry for `part_idx`.
    fn upsert_stat(&mut self, part_idx: usize, stat: PartStat)
        requires
            stat_keys_unique(old(self).part_stats@),
        ensures
            stat_keys_unique(final(self).part_stats@),
            has_stat(final(self).part_stats@, part_idx, stat),
            forall|k: usize, st: PartStat|
                #![trigger has_stat(final(self).part_stats@, k, st)]
                #![trigger has_stat(old(self).part_stats@, k, st)]
                k != part_idx ==> (has_stat(final(self).part_stats@, k, st) <==> has_stat(
                    old(self).part_stats@,
                    k,
                    st,
                )),
            final(self).last_processed_time == old(self).last_processed_time,
            final(self).processed_parts == old(self).processed_parts,
            final(self).total_parts == old(self).total_parts,
            final(self).completed == old(self).completed,
    {
        let ghost orig = self.part_stats@;
        if let Some(i) = self.stat_index(part_idx) {
            self.part_stats.remove(i);
            proof {
                let mid = self.part_stats@;
                assert forall|k: usize, st: PartStat|
                    k != part_idx && has_stat(orig, k, st) implies has_stat(mid, k, st) by {
                    let j = choose|j: int| 0 <= j < orig.len() && orig[j] == (k, st);
                    if j < i {
                        assert(mid[j] == (k, st));
                    } else {
                        assert(mid[j - 1] == (k, st));
                    }
                }
                assert forall|k: usize, st: PartStat| has_stat(mid, k, st) implies has_stat(
                    orig,
                    k,
                    st,
                ) by {
                    let j = choose|j: int| 0 <= j < mid.len() && mid[j] == (k, st);
                    if j < i {
                        assert(orig[j] == (k, st));
                    } else {
                        assert(orig[j + 1] == (k, st));
                    }
                }
                assert forall|j: int| 0 <= j < mid.len() implies mid[j].0 != part_idx by {
                    if j < i {
                        assert(mid[j] == orig[j]);
                    } else {
                        assert(mid[j] == orig[j + 1]);
                    }
                }
            }
        }
        let ghost mid = self.part_stats@;
        self.part_stats.push((part_idx, stat));
        proof {
            assert(self.part_stats@[self.part_stats@.len() - 1] == (part_idx, stat));
            assert forall|k: usize, st: PartStat|
                k != part_idx && has_stat(mid, k, st) implies has_stat(
                self.part_stats@,
                k,
                st,
            ) by {
                let j = choose|j: int| 0 <= j < mid.len() && mid[j] == (k, st);
                assert(self.part_stats@[j] == (k, st));
            }
            assert forall|k: usize, st: PartStat|
                k != part_idx && has_stat(self.part_stats@, k, st) implies has_stat(
                mid,
                k,
                st,
            ) by {
                let j = choose|j: int|
                    0 <= j < self.part_stats@.len() && self.part_stats@[j] == (k, st);
                assert(j < mid.len());
                assert(mid[j] == (k, st));
            }
        }
    }

    /// Checkpoint: record part `part_idx` complete with its statistics and
    /// refresh the timestamp.  The `completed` flag becomes true exactly when
    /// every part index below `total_parts` is now in the completed set.
    pub fn mark_part_complete(&mut self, part_idx: usize, stat: PartStat, now: String)
        requires
            old(self).well_formed(),
            part_idx < old(self).total_parts,
        ensures
            final(self).well_formed(),
            final(self).total_parts == old(self).total_parts,
            final(self).last_processed_time == now,
            forall|v: usize|
                final(self).spec_has_part(v) <==> (old(self).spec_has_part(v) || v == part_idx),
            final(self).processed_parts@.len() == old(self).processed_parts@.len() + (if old(
                self,
            ).spec_has_part(part_idx) {
                0int
            } else {
                1int
            }),
            has_stat(final(self).part_stats@, part_idx, stat),
            forall|k: usize, st: PartStat|
                #![trigger has_stat(final(self).part_stats@, k, st)]
                #![trigger has_stat(old(self).part_stats@, k, st)]
                k != part_idx ==> (has_stat(final(self).part_stats@, k, st) <==> has_stat(
                    old(self).part_stats@,
                    k,
                    st,
                )),
            final(self).completed == (final(self).processed_parts@.len() == final(self).total_parts),
    {
        let ghost orig = self.processed_parts@;
        let mut pos: usize = 0;
        while pos < self.processed_parts.len() && self.processed_parts[pos] < part_idx
            invariant
                pos <= self.processed_parts@.len(),
                self.processed_parts@ == orig,
                forall|k: int| 0 <= k < pos ==> self.processed_parts@[k] < part_idx,
            decreases self.processed_parts@.len() - pos,
        {
            pos = pos + 1;
        }
        let already = pos < self.processed_parts.len() && self.processed_parts[pos] == part_idx;
        if !already {
            self.processed_parts.insert(pos, part_idx);
            proof {
                let s = self.processed_parts@;
                assert forall|i: int, j: int| 0 <= i < j < s.len() implies s[i] < s[j] by {
                    if j < pos {
                        assert(s[i] == orig[i] && s[j] == orig[j]);
                    } else if i < pos && j == pos {
                        assert(s[i] == orig[i]);
                    } else if i < pos && j > pos {
                        assert(s[i] == orig[i] && s[j] == orig[j - 1]);
                        assert(orig[i] < part_idx);
                        if pos < orig.len() {
                            assert(orig[pos as int] != part_idx && orig[pos as int] >= part_idx);
                            if i < pos {
                                assert(orig[i] < orig[pos as int] || i == pos);
                            }
                        }
                        assert(part_idx < orig[j - 1] || pos == j - 1) by {
                            if pos < j - 1 {
                                assert(orig[pos as int] < orig[j - 1]);
                                assert(orig[pos as int] > part_idx);
                            } else {
                                assert(orig[pos as int] > part_idx);
                            }
                        }
                    } else if i == pos {
                        assert(s[j] == orig[j - 1]);
                        assert(orig[pos as int] > part_idx);
                        if pos < j - 1 {
                            assert(orig[pos as int] < orig[j - 1]);
                        }
                    } else {
                        assert(s[i] == orig[i - 1] && s[j] == orig[j - 1]);
                    }
                }
                assert forall|v: usize| #[trigger] s.contains(v) implies (orig.contains(v) || v
                    == part_idx) by {
                    let k = choose|k: int| 0 <= k < s.len() && s[k] == v;
                    if k < pos {
                        assert(orig[k] == v);
                    } else if k > pos {
                        assert(orig[k - 1] == v);
                    }
                }
                assert forall|v: usize| orig.contains(v) implies #[trigger] s.contains(v) by {
                    let k = choose|k: int| 0 <= k < orig.len() && orig[k] == v;
                    if k < pos {
                        assert(s[k] == v);
                    } else {
                        assert(s[k + 1] == v);
                    }
                }
                assert(s[pos as int] == part_idx);
                assert(s.contains(part_idx));
            }
        } else {
            proof {
                assert(orig[pos as int] == part_idx);
                assert(orig.contains(part_idx));
            }
        }
        self.upsert_stat(part_idx, stat);
        self.last_processed_time = now;
        self.completed = self.total_parts >= 1 && self.processed_parts.len() == self.total_parts;
    }
}


/// The ledger keys each canonical path at most once.
pub open spec fn record_keys_unique(s: Seq<(String, ProcessingRecord)>) -> bool {
    forall|i: int, j: int| 0 <= i < j < s.len() ==> s[i].0@ != s[j].0@
}

/// The ledger binds `path` to `rec`.
pub open spec fn has_record(
    s: Seq<(String, ProcessingRecord)>,
    path: Seq<char>,
    rec: ProcessingRecord,
) -> bool {
    exists|i: int| 0 <= i < s.len() && s[i].0@ == path && s[i].1 == rec
}

/// The ledger holds some record for `path`.
pub open spec fn has_record_key(s: Seq<(String, ProcessingRecord)>, path: Seq<char>) -> bool {
    exists|i: int| 0 <= i < s.len() && s[i].0@ == path
}

/// The in-memory resume ledger: one processing record per canonical source
/// path.  It is the single source of truth for resumability; the surrounding
/// program persists it after every mutation.
pub struct RecordTable {
    entries: Vec<(String, ProcessingRecord)>,
}

impl RecordTable {
    pub closed spec fn view(&self) -> Seq<(String, ProcessingRecord)> {
        self.entries@
    }

    pub open spec fn well_formed(&self) -> bool {
        &&& record_keys_unique(self@)
        &&& forall|i: int| 0 <= i < self@.len() ==> (#[trigger] self@[i].1).well_formed()
    }

    /// An empty ledger, as loading a missing or empty ledger file yields.
    pub fn new() -> (r: RecordTable)
        ensures
            r.well_formed(),
            r@ =~= Seq::<(String, ProcessingRecord)>::empty(),
    {
        RecordTable { entries: Vec::new() }
    }

    pub fn len(&self) -> (r: usize)
        ensures
            r == self@.len(),
    {
        self.entries.len()
    }

    /// All entries of the ledger, for persistence and reporting.
    pub fn entries(&self) -> (r: &Vec<(String, ProcessingRecord)>)
        ensures
            r@ == self@,
    {
        &self.entries
    }

    /// Position of the entry for `path`, if one exists.
    fn index_of(&self, path: &String) -> (r: Option<usize>)
        ensures
            match r {
                Some(i) => i < self@.len() && self@[i as int].0@ == path@,
                None => !has_record_key(self@, path@),
            },
    {
        let mut i: usize = 0;
        while i < self.entries.len()
            invariant
                i <= self@.len(),
                forall|k: int| 0 <= k < i ==> self@[k].0@ != path@,
            decreases self@.len() - i,
        {
            if self.entries[i].0 == *path {
                return Some(i);
            }
            i = i + 1;
        }
        None
    }

    /// Whether the ledger already holds a record for `path`.
    pub fn contains_path(&self, path: &String) -> (r: bool)
        ensures
            r == has_record_key(self@, path@),
    {
        self.index_of(path).is_some()
    }

    /// A borrowed view of the record for `path`, if any.
    pub fn get(&self, path: &String) -> (r: Option<&ProcessingRecord>)
        ensures
            match r {
                Some(rec) => has_record(self@, path@, *rec),
                None => !has_record_key(self@, path@),
            },
    {
        match self.index_of(path) {
            Some(i) => Some(&self.entries[i].1),
            None => None,
        }
    }

    /// Removes and returns the record for `path`, leaving the rest unchanged.
    pub fn take(&mut self, path: &String) -> (r: Option<ProcessingRecord>)
        requires
            old(self).well_formed(),
        ensures
            final(self).well_formed(),
            !has_record_key(final(self)@, path@),
            match r {
                Some(rec) => has_record(old(self)@, path@, rec) && final(self)@.len() == old(
                    self,
                )@.len() - 1,
                None => !has_record_key(old(self)@, path@) && final(self)@ == old(self)@,
            },
            forall|p: Seq<char>, rec: ProcessingRecord|
                p != path@ ==> (has_record(final(self)@, p, rec) <==> has_record(
                    old(self)@,
                    p,
                    rec,
                )),
    {
        let ghost orig = self@;
        match self.index_of(path) {
            Some(i) => {
                let entry = self.entries.remove(i);
                proof {
                    let s = self@;
                    assert forall|p: Seq<char>, rec: ProcessingRecord|
                        p != path@ && has_record(orig, p, rec) implies has_record(s, p, rec) by {
                        let j = choose|j: int|
                            0 <= j < orig.len() && orig[j].0@ == p && orig[j].1 == rec;
                        if j < i {
                            assert(s[j] == orig[j]);
                        } else {
                            assert(s[j - 1] == orig[j]);
                        }
                    }
                    assert forall|p: Seq<char>, rec: ProcessingRecord|
                        has_record(s, p, rec) implies has_record(orig, p, rec) by {
                        let j = choose|j: int| 0 <= j < s.len() && s[j].0@ == p && s[j].1 == rec;
                        if j < i {
                            assert(orig[j] == s[j]);
                        } else {
                            assert(orig[j + 1] == s[j]);
                        }
                    }
                    assert forall|j: int| 0 <= j < s.len() implies s[j].0@ != path@ by {
                        if j < i {
                            assert(s[j] == orig[j]);
                        } else {
                            assert(s[j] == orig[j + 1]);
                        }
                    }
                    assert(orig[i as int].0@ == path@ && orig[i as int].1 == entry.1);
                }
                Some(entry.1)
            },
            None => None,
        }
    }

    /// Inserts or replaces the record for `path`.
    pub fn put(&mut self, path: String, rec: ProcessingRecord)
        requires
            old(self).well_formed(),
            rec.well_formed(),
        ensures
            final(self).well_formed(),
            has_record(final(self)@, path@, rec),
            forall|p: Seq<char>, r2: ProcessingRecord|
                p != path@ ==> (has_record(final(self)@, p, r2) <==> has_record(
                    old(self)@,
                    p,
                    r2,
                )),
    {
        self.take(&path);
        let ghost mid = self@;
        self.entries.push((path, rec));
        proof {
            let s = self@;
            assert(s[s.len() - 1].1 == rec);
            assert forall|p: Seq<char>, r2: ProcessingRecord|
                p != s[s.len() - 1].0@ && has_record(mid, p, r2) implies has_record(s, p, r2) by {
                let j = choose|j: int| 0 <= j < mid.len() && mid[j].0@ == p && mid[j].1 == r2;
                assert(s[j] == mid[j]);
            }
            assert forall|p: Seq<char>, r2: ProcessingRecord|
                p != s[s.len() - 1].0@ && has_record(s, p, r2) implies has_record(mid, p, r2) by {
                let j = choose|j: int| 0 <= j < s.len() && s[j].0@ == p && s[j].1 == r2;
                assert(j < mid.len());
                assert(mid[j] == s[j]);
            }
        }
    }
}


/// A strictly increasing sequence bounded by `total` that holds every index
/// below `total` has exactly `total` entries.
proof fn lemma_all_means_full(s: Seq<usize>, total: usize)
    requires
        strictly_increasing(s),
        all_below(s, total),
        forall|v: usize| v < total ==> s.contains(v),
    ensures
        s.len() == total,
    decreases total,
{
    if s.len() > 0 {
        lemma_strict_gap(s, 0, s.len() - 1);
    }
    if total > 0 {
        let last: usize = (total - 1) as usize;
        assert(s.contains(last));
        let idx = choose|idx: int| 0 <= idx < s.len() && s[idx] == last;
        assert forall|k: int| idx < k < s.len() implies #[trigger] s[k] < s[k] by {
            assert(s[k] > s[idx]);
            assert(s[k] < total);
        }
        assert(idx == s.len() - 1);
        let t = s.drop_last();
        let prev: usize = (total - 1) as usize;
        assert forall|v: usize| v < prev implies t.contains(v) by {
            assert(s.contains(v));
            let j = choose|j: int| 0 <= j < s.len() && s[j] == v;
            assert(j < s.len() - 1);
            assert(t[j] == v);
        }
        assert(strictly_increasing(t));
        assert forall|k: int| 0 <= k < t.len() implies t[k] < prev by {
            assert(s[k] < s[s.len() - 1]);
        }
        lemma_all_means_full(t, prev);
    }
}

/// The data-model invariant of the resume ledger, stated both ways: a
/// well-formed record is completed exactly when it has at least one part and
/// every part index below `total_parts` is recorded complete.
pub proof fn lemma_completed_iff_all_parts(rec: ProcessingRecord)
    requires
        rec.well_formed(),
    ensures
        rec.completed <==> (rec.total_parts >= 1 && forall|v: usize|
            v < rec.total_parts ==> rec.spec_has_part(v)),
{
    if rec.completed {
        lemma_full_set_has_all(rec.processed_parts@, rec.total_parts);
    } else {
        if rec.total_parts >= 1 && (forall|v: usize| v < rec.total_parts ==> rec.spec_has_part(v)) {
            assert forall|v: usize| v < rec.total_parts implies rec.processed_parts@.contains(
                v,
            ) by {
                assert(rec.spec_has_part(v));
            }
            lemma_all_means_full(rec.processed_parts@, rec.total_parts);
        }
    }
}

/// Idempotence of a re-run on a completed file: every part is already
/// recorded complete, so the pending set is empty and nothing is
/// re-dispatched; the manifest, a pure function of the base name and the
/// part count, is re-emitted unchanged.
pub proof fn lemma_completed_rerun_idempotent(rec: ProcessingRecord)
    requires
        rec.well_formed(),
        rec.completed,
    ensures
        forall|v: usize| v < rec.total_parts ==> rec.spec_has_part(v),
        forall|v: usize| !(v < rec.total_parts && !rec.spec_has_part(v)),
{
    lemma_full_set_has_all(rec.processed_parts@, rec.total_parts);
}

/// Relies on chrono's `Local::now` and `DelayedFormat`: renders the current
/// local time as `YYYY-MM-DD HH:MM:SS`.  The value depends on the clock, so
/// nothing is promised of it.  Note that chrono's `Utc::now`, which backs
/// `Local::now`, panics on a system clock set before the Unix epoch.
#[verifier::external_body]
fn current_time_string() -> String {
    chrono::Local::now().format("%Y-%m-%d %H:%M:%S").to_string()
}

impl Default for ProcessingRecord {
    /// A fresh record stamped with the current local time: nothing
    /// processed, no parts, not completed.
    fn default() -> (r: ProcessingRecord)
        ensures
            r.well_formed(),
            r.processed_parts@ =~= Seq::<usize>::empty(),
            r.total_parts == 0,
            r.part_stats@ =~= Seq::<(usize, PartStat)>::empty(),
            !r.completed,
    {
        ProcessingRecord::new(current_time_string())
    }
}


} // verus!
