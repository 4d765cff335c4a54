//! Division of a long audio track into fixed-duration parts.
//!
//! A track of `duration` seconds is divided into `ceil(duration / part_len)`
//! parts.  Part `i` covers the half-open range
//! `[i * part_len, min((i + 1) * part_len, duration))`.  The parts are
//! contiguous, non-overlapping, exactly cover `[0, duration)`, and a duration
//! that is an exact multiple of `part_len` produces no empty trailing part.

use vstd::prelude::*;
use vstd::arithmetic::div_mod::lemma_fundamental_div_mod;
use crate::segments::Segment;
use vstd::arithmetic::mul::lemma_mul_inequality;
use vstd::arithmetic::mul::lemma_mul_is_distributive_add_other_way;

verus! {

/// Number of parts a track of `duration` seconds divides into:
/// `ceil(duration / part_len)`.
pub open spec fn spec_part_count(duration: nat, part_len: nat) -> nat
    recommends
        part_len >= 1,
{
    if duration % part_len == 0 {
        duration / part_len
    } else {
        duration / part_len + 1
    }
}

/// Start of part `i`, inclusive.
pub open spec fn spec_part_start(i: nat, part_len: nat) -> nat {
    i * part_len
}

/// End of part `i`, exclusive; the final part is cut off at the duration.
pub open spec fn spec_part_end(i: nat, duration: nat, part_len: nat) -> nat {
    if (i + 1) * part_len <= duration {
        (i + 1) * part_len
    } else {
        duration
    }
}

/// A part count of `c` means the full parts before the last end strictly
/// inside the track and `c` parts reach its end: `(c-1)*part_len < duration`
/// and `duration <= c*part_len`.
pub proof fn lemma_part_count_bounds(duration: nat, part_len: nat)
    requires
        part_len >= 1,
        duration >= 1,
    ensures
        spec_part_count(duration, part_len) >= 1,
        (spec_part_count(duration, part_len) - 1) * part_len < duration,
        duration <= spec_part_count(duration, part_len) * part_len,
{
    let q = duration / part_len;
    let r = duration % part_len;
    lemma_fundamental_div_mod(duration as int, part_len as int);
    if r == 0 {
        assert(q >= 1 && (q - 1) * part_len < duration && duration <= q * part_len)
            by (nonlinear_arith)
            requires
                duration == part_len * q,
                duration >= 1,
                part_len >= 1,
                q >= 0,
        ;
    } else {
        assert(q * part_len < duration && duration <= (q + 1) * part_len) by (nonlinear_arith)
            requires
                duration == part_len * q + r,
                0 < r < part_len,
                q >= 0,
        ;
    }
}

/// There are never more parts than seconds: `ceil(d/m) <= d`.
pub proof fn lemma_part_count_le_duration(duration: nat, part_len: nat)
    requires
        part_len >= 1,
        duration >= 1,
    ensures
        spec_part_count(duration, part_len) <= duration,
{
    let q = duration / part_len;
    let r = duration % part_len;
    lemma_fundamental_div_mod(duration as int, part_len as int);
    if r == 0 {
        assert(q <= duration) by (nonlinear_arith)
            requires
                duration == part_len * q,
                part_len >= 1,
                q >= 0,
        ;
    } else {
        assert(q + 1 <= duration) by (nonlinear_arith)
            requires
                duration == part_len * q + r,
                part_len >= 1,
                r >= 1,
                q >= 0,
        ;
    }
}

/// The parts of a track partition `[0, duration)`: the first starts at 0,
/// each part is non-empty, each part ends where the next begins, the last
/// ends at the duration, and an exact multiple of `part_len` yields exactly
/// `duration / part_len` parts (no empty trailing part).
pub proof fn lemma_parts_partition(duration: nat, part_len: nat)
    requires
        part_len >= 1,
        duration >= 1,
    ensures
        spec_part_count(duration, part_len) >= 1,
        spec_part_start(0, part_len) == 0,
        forall|i: nat|
            i < spec_part_count(duration, part_len) ==> spec_part_start(i, part_len)
                < spec_part_end(i, duration, part_len),
        forall|i: nat|
            i + 1 < spec_part_count(duration, part_len) ==> spec_part_end(i, duration, part_len)
                == spec_part_start(i + 1, part_len),
        spec_part_end(
            (spec_part_count(duration, part_len) - 1) as nat,
            duration,
            part_len,
        ) == duration,
        duration % part_len == 0 ==> spec_part_count(duration, part_len) == duration / part_len,
{
    let c = spec_part_count(duration, part_len);
    lemma_part_count_bounds(duration, part_len);
    assert forall|i: nat| i < c implies spec_part_start(i, part_len) < spec_part_end(
        i,
        duration,
        part_len,
    ) by {
        lemma_mul_inequality(i as int, c as int - 1, part_len as int);
        assert(i * part_len < (i + 1) * part_len) by (nonlinear_arith)
            requires
                part_len >= 1,
        ;
    }
    assert forall|i: nat| i + 1 < c implies spec_part_end(i, duration, part_len)
        == spec_part_start(i + 1, part_len) by {
        lemma_mul_inequality(i as int + 1, c as int - 1, part_len as int);
    }
    let last = (c - 1) as nat;
    lemma_mul_is_distributive_add_other_way(part_len as int, last as int, 1);
}

/// Every instant of the track lies in part `t / part_len` and in no other.
pub proof fn lemma_part_of_instant(duration: nat, part_len: nat, t: nat)
    requires
        part_len >= 1,
        t < duration,
    ensures
        t / part_len < spec_part_count(duration, part_len),
        spec_part_start(t / part_len, part_len) <= t,
        t < spec_part_end(t / part_len, duration, part_len),
        forall|i: nat|
            i < spec_part_count(duration, part_len) && spec_part_start(i, part_len) <= t && t
                < spec_part_end(i, duration, part_len) ==> i == t / part_len,
{
    let p = part_len;
    let q = t / p;
    lemma_fundamental_div_mod(t as int, p as int);
    lemma_part_count_bounds(duration, p);
    let c = spec_part_count(duration, p);
    assert(q * p <= t) by (nonlinear_arith)
        requires
            t == p * q + t % p,
            t % p >= 0,
    ;
    assert(t < (q + 1) * p) by (nonlinear_arith)
        requires
            t == p * q + t % p,
            t % p < p,
            q >= 0,
            p >= 1,
    ;
    assert(q < c) by {
        if q >= c {
            lemma_mul_inequality(c as int, q as int, p as int);
        }
    }
    assert forall|i: nat|
        i < c && spec_part_start(i, p) <= t && t < spec_part_end(i, duration, p) implies i
        == q by {
        if i < q {
            lemma_mul_inequality(i as int + 1, q as int, p as int);
        }
        if i > q {
            lemma_mul_inequality(q as int + 1, i as int, p as int);
        }
    }
}

/// Divides a track into fixed-duration parts under an output folder and maps
/// part indices to time ranges and segment slices.
pub struct PartManager {
    /// Folder the per-part text files and the index file are written under.
    pub output_folder: String,
    /// Length of one part, in seconds.
    pub part_secs: u64,
    /// Length of one audio segment, in seconds.
    pub segment_secs: u64,
}

impl PartManager {
    pub open spec fn well_formed(&self) -> bool {
        &&& self.part_secs >= 1
        &&& self.segment_secs >= 1
    }

    pub fn new(output_folder: String, part_secs: u64, segment_secs: u64) -> (r: PartManager)
        requires
            part_secs >= 1,
            segment_secs >= 1,
        ensures
            r.well_formed(),
            r.output_folder == output_folder,
            r.part_secs == part_secs,
            r.segment_secs == segment_secs,
    {
        PartManager { output_folder, part_secs, segment_secs }
    }

    /// How many parts a track of `duration_secs` seconds divides into.
    pub fn part_count(&self, duration_secs: u64) -> (r: u64)
        requires
            self.well_formed(),
        ensures
            r == spec_part_count(duration_secs as nat, self.part_secs as nat),
    {
        let q = duration_secs / self.part_secs;
        if duration_secs % self.part_secs == 0 {
            q
        } else {
            proof {
                lemma_fundamental_div_mod(duration_secs as int, self.part_secs as int);
                assert(q < u64::MAX) by (nonlinear_arith)
                    requires
                        duration_secs == self.part_secs * q + duration_secs % self.part_secs,
                        self.part_secs >= 1,
                        0 < duration_secs % self.part_secs,
                        q >= 0,
                        duration_secs <= u64::MAX,
                ;
            }
            q + 1
        }
    }

    /// The time range `[start, end)` of one part.
    pub fn part_time_range(&self, part_idx: u64, duration_secs: u64) -> (r: (u64, u64))
        requires
            self.well_formed(),
            part_idx < spec_part_count(duration_secs as nat, self.part_secs as nat),
        ensures
            r.0 == spec_part_start(part_idx as nat, self.part_secs as nat),
            r.1 == spec_part_end(part_idx as nat, duration_secs as nat, self.part_secs as nat),
            r.0 < r.1,
    {
        proof {
            assert(duration_secs >= 1) by {
                if duration_secs == 0 {
                    assert(spec_part_count(0, self.part_secs as nat) == 0);
                }
            }
            lemma_part_count_bounds(duration_secs as nat, self.part_secs as nat);
            lemma_mul_inequality(
                part_idx as int,
                spec_part_count(duration_secs as nat, self.part_secs as nat) as int - 1,
                self.part_secs as int,
            );
            lemma_mul_is_distributive_add_other_way(self.part_secs as int, part_idx as int, 1);
        }
        let start = part_idx * self.part_secs;
        if self.part_secs <= duration_secs - start {
            (start, start + self.part_secs)
        } else {
            (start, duration_secs)
        }
    }
}


impl PartManager {
    /// The indices of the segments whose start offset lies in part
    /// `part_idx`'s time range, in ascending order.  Segments are produced
    /// over the whole track independently of part boundaries, so this
    /// mapping is purely arithmetic.
    #[verifier::loop_isolation(false)]
    pub fn segments_for_part(&self, part_idx: u64, duration_secs: u64, segments: &Vec<Segment>) -> (r:
        Vec<usize>)
        requires
            self.well_formed(),
            part_idx < spec_part_count(duration_secs as nat, self.part_secs as nat),
        ensures
            ({
                let start = spec_part_start(part_idx as nat, self.part_secs as nat);
                let end = spec_part_end(part_idx as nat, duration_secs as nat, self.part_secs as nat);
                &&& forall|v: usize|
                    r@.contains(v) <==> (v < segments@.len() && start <= segments@[v as int].start_secs
                        < end)
                &&& forall|a: int, b: int| 0 <= a < b < r@.len() ==> r@[a] < r@[b]
            }),
    {
        let (start, end) = self.part_time_range(part_idx, duration_secs);
        let mut r: Vec<usize> = Vec::new();
        let mut i: usize = 0;
        while i < segments.len()
            invariant
                i <= segments@.len(),
                forall|v: usize|
                    r@.contains(v) <==> (v < i && start <= segments@[v as int].start_secs < end),
                forall|a: int, b: int| 0 <= a < b < r@.len() ==> r@[a] < r@[b],
                forall|k: int| 0 <= k < r@.len() ==> r@[k] < i,
            decreases segments@.len() - i,
        {
            let ghost prev = r@;
            let s = &segments[i];
            if start <= s.start_secs && s.start_secs < end {
                r.push(i);
                proof {
                    assert forall|v: usize| #[trigger] r@.contains(v) implies (prev.contains(v)
                        || v == i) by {
                        let k = choose|k: int| 0 <= k < r@.len() && r@[k] == v;
                        if k < prev.len() {
                            assert(prev[k] == v);
                        }
                    }
                    assert forall|v: usize| prev.contains(v) implies #[trigger] r@.contains(
                        v,
                    ) by {
                        let k = choose|k: int| 0 <= k < prev.len() && prev[k] == v;
                        assert(r@[k] == v);
                    }
                    assert(r@[r@.len() - 1] == i);
                    assert(r@.contains(i));
                }
            }
            i = i + 1;
        }
        r
    }
}

} // verus!
