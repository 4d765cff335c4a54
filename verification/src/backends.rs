//! The speech-recognition backend registry.
//!
//! Backends are ranked by static priority.  A call selects the first
//! available backend; a backend that fails `disable_threshold` times in a
//! row is disabled for the rest of the run (it is never silently re-enabled)
//! and selection skips it from then on.  Every call updates the chosen
//! backend's usage and success statistics.

use vstd::prelude::*;

verus! {

/// The configured speech-recognition providers.
#[derive(Clone, Copy, Debug, PartialEq, Eq, Structural)]
pub enum BackendKind {
    Jianying,
    Kuaishou,
    Bcut,
}

/// One backend and its run statistics.
#[derive(Clone, Copy, Debug)]
pub struct AsrBackend {
    pub kind: BackendKind,
    /// Rank in the static selection order; lower is preferred.
    pub priority: u32,
    /// False once the circuit breaker has tripped; never reset in a run.
    pub available: bool,
    /// How often this backend was called.
    pub call_count: u64,
    /// How many of those calls succeeded.
    pub success_count: u64,
    /// Failures since the last success.
    pub consecutive_failures: u32,
}

/// The priority-ordered selection: the first available backend, if any.
pub open spec fn spec_select(s: Seq<AsrBackend>) -> Option<int>
    decreases s.len(),
{
    if s.len() == 0 {
        None
    } else if s[0].available {
        Some(0int)
    } else {
        match spec_select(s.drop_first()) {
            None => None,
            Some(i) => Some(i + 1),
        }
    }
}

/// The selected backend is the first available one.
pub proof fn lemma_select_first(s: Seq<AsrBackend>)
    ensures
        match spec_select(s) {
            Some(i) => 0 <= i < s.len() && s[i].available && forall|k: int|
                0 <= k < i ==> !s[k].available,
            None => forall|k: int| 0 <= k < s.len() ==> !s[k].available,
        },
    decreases s.len(),
{
    if s.len() > 0 && !s[0].available {
        lemma_select_first(s.drop_first());
        assert(forall|k: int| 0 <= k < s.len() - 1 ==> s.drop_first()[k] == s[k + 1]);
        match spec_select(s.drop_first()) {
            Option::None => {
                assert forall|k: int| 0 <= k < s.len() implies !s[k].available by {
                    if k > 0 {
                        assert(!s.drop_first()[k - 1].available);
                    }
                }
            },
            Option::Some(i) => {
                assert forall|k: int| 0 <= k < i + 1 implies !s[k].available by {
                    if k > 0 {
                        assert(!s.drop_first()[k - 1].available);
                    }
                }
            },
        }
    }
}

/// Failover: once the preferred backend is disabled, selection routes to the
/// next available one.
pub proof fn lemma_failover_to_next(s: Seq<AsrBackend>)
    requires
        s.len() >= 2,
        !s[0].available,
        s[1].available,
    ensures
        spec_select(s) == Some(1int),
{
    assert(s.drop_first()[0] == s[1]);
    assert(spec_select(s.drop_first()) == Some(0int));
}

/// Holds the configured backends in priority order, tracks their
/// statistics, and disables one after `disable_threshold` consecutive
/// failures.
pub struct AsrManager {
    pub backends: Vec<AsrBackend>,
    pub disable_threshold: u32,
}

/// The backends enabled by the configuration flags, most preferred first:
/// Jianying when it is preferred, then Bcut, then Kuaishou.
pub open spec fn spec_flag_kinds(
    use_jianying_first: bool,
    use_kuaishou: bool,
    use_bcut: bool,
) -> Seq<BackendKind> {
    (if use_jianying_first {
        seq![BackendKind::Jianying]
    } else {
        Seq::<BackendKind>::empty()
    }) + (if use_bcut {
        seq![BackendKind::Bcut]
    } else {
        Seq::<BackendKind>::empty()
    }) + (if use_kuaishou {
        seq![BackendKind::Kuaishou]
    } else {
        Seq::<BackendKind>::empty()
    })
}

impl AsrManager {
    pub open spec fn well_formed(&self) -> bool {
        &&& self.disable_threshold >= 1
        &&& forall|i: int|
            0 <= i < self.backends@.len() ==> (#[trigger] self.backends@[i]).priority == i + 1
        &&& forall|i: int|
            0 <= i < self.backends@.len() ==> (#[trigger] self.backends@[i]).success_count
                <= self.backends@[i].call_count
        &&& forall|i: int|
            0 <= i < self.backends@.len() ==> ((#[trigger] self.backends@[i]).available
                ==> self.backends@[i].consecutive_failures < self.disable_threshold)
    }

    /// A registry over the given providers, most preferred first, with fresh
    /// statistics and every backend available.
    pub fn new(kinds: &Vec<BackendKind>, disable_threshold: u32) -> (r: AsrManager)
        requires
            disable_threshold >= 1,
            kinds@.len() < u32::MAX,
        ensures
            r.well_formed(),
            r.disable_threshold == disable_threshold,
            r.backends@.len() == kinds@.len(),
            forall|i: int|
                0 <= i < kinds@.len() ==> {
                    let b = #[trigger] r.backends@[i];
                    &&& b.kind == kinds@[i]
                    &&& b.priority == i + 1
                    &&& b.available
                    &&& b.call_count == 0
                    &&& b.success_count == 0
                    &&& b.consecutive_failures == 0
                },
    {
        let mut backends: Vec<AsrBackend> = Vec::new();
        let mut i: usize = 0;
        while i < kinds.len()
            invariant
                i <= kinds@.len(),
                kinds@.len() < u32::MAX,
                backends@.len() == i,
                forall|k: int|
                    0 <= k < i ==> {
                        let b = #[trigger] backends@[k];
                        &&& b.kind == kinds@[k]
                        &&& b.priority == k + 1
                        &&& b.available
                        &&& b.call_count == 0
                        &&& b.success_count == 0
                        &&& b.consecutive_failures == 0
                    },
            decreases kinds@.len() - i,
        {
            backends.push(
                AsrBackend {
                    kind: kinds[i],
                    priority: (i as u32) + 1,
                    available: true,
                    call_count: 0,
                    success_count: 0,
                    consecutive_failures: 0,
                },
            );
            i = i + 1;
        }
        AsrManager { backends, disable_threshold }
    }

    /// The backends the configuration flags enable, most preferred first.
    pub fn from_flags(
        use_jianying_first: bool,
        use_kuaishou: bool,
        use_bcut: bool,
        disable_threshold: u32,
    ) -> (r: AsrManager)
        requires
            disable_threshold >= 1,
        ensures
            r.well_formed(),
            r.disable_threshold == disable_threshold,
            r.backends@.len() == spec_flag_kinds(use_jianying_first, use_kuaishou, use_bcut).len(),
            forall|i: int|
                0 <= i < r.backends@.len() ==> {
                    let b = #[trigger] r.backends@[i];
                    &&& b.kind == spec_flag_kinds(use_jianying_first, use_kuaishou, use_bcut)[i]
                    &&& b.available
                    &&& b.call_count == 0
                    &&& b.success_count == 0
                },
    {
        let mut kinds: Vec<BackendKind> = Vec::new();
        if use_jianying_first {
            kinds.push(BackendKind::Jianying);
        }
        if use_bcut {
            kinds.push(BackendKind::Bcut);
        }
        if use_kuaishou {
            kinds.push(BackendKind::Kuaishou);
        }
        proof {
            assert(kinds@ =~= spec_flag_kinds(use_jianying_first, use_kuaishou, use_bcut));
        }
        AsrManager::new(&kinds, disable_threshold)
    }

    /// Picks the backend for the next call: the first available one in
    /// priority order, or `None` when every backend is disabled (the call
    /// then fails with "no backend available").
    #[verifier::loop_isolation(false)]
    pub fn select_backend(&self) -> (r: Option<usize>)
        ensures
            match r {
                Some(i) => spec_select(self.backends@) == Some(i as int),
                None => spec_select(self.backends@) is None,
            },
    {
        proof {
            lemma_select_first(self.backends@);
        }
        let mut i: usize = 0;
        while i < self.backends.len()
            invariant
                i <= self.backends@.len(),
                forall|k: int| 0 <= k < i ==> !(#[trigger] self.backends@[k]).available,
            decreases self.backends@.len() - i,
        {
            if self.backends[i].available {
                proof {
                    match spec_select(self.backends@) {
                        Option::None => {
                            assert(!self.backends@[i as int].available);
                        },
                        Option::Some(j) => {
                            if j < i as int {
                                assert(!self.backends@[j].available);
                            }
                            if j > i as int {
                                assert(!self.backends@[i as int].available);
                            }
                        },
                    }
                }
                return Some(i);
            }
            i = i + 1;
        }
        None
    }

    /// Records the outcome of one call to backend `idx`: the call is
    /// counted; success resets the failure streak; a failure lengthens it,
    /// and the backend is disabled once the streak reaches the threshold.
    /// A disabled backend never becomes available again within the run.
    pub fn record_result(&mut self, idx: usize, success: bool)
        requires
            old(self).well_formed(),
            idx < old(self).backends@.len(),
            old(self).backends@[idx as int].call_count < u64::MAX,
            success ==> old(self).backends@[idx as int].success_count < u64::MAX,
            !success ==> old(self).backends@[idx as int].consecutive_failures < u32::MAX,
        ensures
            final(self).well_formed(),
            final(self).disable_threshold == old(self).disable_threshold,
            final(self).backends@.len() == old(self).backends@.len(),
            forall|j: int|
                0 <= j < old(self).backends@.len() && j != idx ==> final(self).backends@[j] == old(
                    self,
                ).backends@[j],
            ({
                let b = old(self).backends@[idx as int];
                let b2 = final(self).backends@[idx as int];
                &&& b2.kind == b.kind
                &&& b2.priority == b.priority
                &&& b2.call_count == b.call_count + 1
                &&& success ==> (b2.success_count == b.success_count + 1
                    && b2.consecutive_failures == 0 && b2.available == b.available)
                &&& !success ==> (b2.success_count == b.success_count && b2.consecutive_failures
                    == b.consecutive_failures + 1 && b2.available == (b.available
                    && b.consecutive_failures + 1 < old(self).disable_threshold))
            }),
    {
        let b = self.backends[idx];
        let updated = if success {
            AsrBackend {
                call_count: b.call_count + 1,
                success_count: b.success_count + 1,
                consecutive_failures: 0,
                ..b
            }
        } else {
            let streak = b.consecutive_failures + 1;
            AsrBackend {
                call_count: b.call_count + 1,
                consecutive_failures: streak,
                available: b.available && streak < self.disable_threshold,
                ..b
            }
        };
        self.backends.remove(idx);
        self.backends.insert(idx, updated);
        proof {
            assert(self.backends@ =~= old(self).backends@.update(idx as int, updated));
        }
    }

    /// A read-only snapshot of every backend's statistics, in priority
    /// order, for end-of-run reporting.
    pub fn get_service_stats(&self) -> (r: Vec<AsrBackend>)
        ensures
            r@ == self.backends@,
    {
        let mut r: Vec<AsrBackend> = Vec::new();
        let mut i: usize = 0;
        while i < self.backends.len()
            invariant
                i <= self.backends@.len(),
                r@ =~= self.backends@.take(i as int),
            decreases self.backends@.len() - i,
        {
            r.push(self.backends[i]);
            proof {
                assert(r@ =~= self.backends@.take(i as int + 1));
            }
            i = i + 1;
        }
        proof {
            assert(self.backends@.take(self.backends@.len() as int) =~= self.backends@);
        }
        r
    }
}

} // verus!
