//! Bounded retry with linear backoff and error-context counting.
//!
//! An operation is tried at most `max_retries` times.  Every failed attempt
//! is counted once under the operation's context label; between attempts the
//! caller waits `retry_delay_ms * attempt_number` (linear backoff).  Eventual
//! success counts one global success, however many attempts failed before;
//! exhaustion counts one global failure and yields a composite error naming
//! the context and the last underlying error.

use vstd::prelude::*;
use vstd::string::StringExecFns;

verus! {

/// A context label is counted at most once.
pub open spec fn count_keys_unique(s: Seq<(String, u64)>) -> bool {
    forall|i: int, j: int| 0 <= i < j < s.len() ==> s[i].0@ != s[j].0@
}

/// Some entry counts `label`.
pub open spec fn has_count_key(s: Seq<(String, u64)>, label: Seq<char>) -> bool {
    exists|i: int| 0 <= i < s.len() && s[i].0@ == label
}

/// How often `label` was counted; 0 if it never was.
pub open spec fn count_of(s: Seq<(String, u64)>, label: Seq<char>) -> u64 {
    if has_count_key(s, label) {
        let i = choose|i: int| 0 <= i < s.len() && s[i].0@ == label;
        s[i].1
    } else {
        0
    }
}

/// With unique keys, the count of `label` is the value stored at any entry
/// whose key is `label`.
proof fn lemma_count_at(s: Seq<(String, u64)>, label: Seq<char>, i: int)
    requires
        count_keys_unique(s),
        0 <= i < s.len(),
        s[i].0@ == label,
    ensures
        count_of(s, label) == s[i].1,
{
    assert(has_count_key(s, label));
    let j = choose|j: int| 0 <= j < s.len() && s[j].0@ == label;
    if i != j {
        assert(s[i].0@ != s[j].0@);
    }
}

/// Occurrence counts per error-context label, plus global totals.
pub struct ErrorCounter {
    pub context_counts: Vec<(String, u64)>,
    pub total_retries: u64,
    pub total_failures: u64,
    pub total_successes: u64,
}

impl ErrorCounter {
    pub open spec fn counts(&self) -> Seq<(String, u64)> {
        self.context_counts@
    }

    pub open spec fn well_formed(&self) -> bool {
        count_keys_unique(self.counts())
    }

    /// How often `label` was counted.
    pub open spec fn spec_count(&self, label: Seq<char>) -> u64 {
        count_of(self.counts(), label)
    }

    pub fn new() -> (r: ErrorCounter)
        ensures
            r.well_formed(),
            r.counts() =~= Seq::<(String, u64)>::empty(),
            r.total_retries == 0,
            r.total_failures == 0,
            r.total_successes == 0,
            forall|l: Seq<char>| r.spec_count(l) == 0,
    {
        let r = ErrorCounter {
            context_counts: Vec::new(),
            total_retries: 0,
            total_failures: 0,
            total_successes: 0,
        };
        proof {
            assert(forall|l: Seq<char>| !has_count_key(r.counts(), l));
        }
        r
    }

    /// The occurrence count of `label`, for reporting.
    pub fn count_for(&self, label: &String) -> (r: u64)
        requires
            self.well_formed(),
        ensures
            r == self.spec_count(label@),
    {
        let mut i: usize = 0;
        while i < self.context_counts.len()
            invariant
                i <= self.counts().len(),
                forall|k: int| 0 <= k < i ==> self.counts()[k].0@ != label@,
                self.well_formed(),
            decreases self.counts().len() - i,
        {
            if self.context_counts[i].0 == *label {
                proof {
                    lemma_count_at(self.counts(), label@, i as int);
                }
                return self.context_counts[i].1;
            }
            i = i + 1;
        }
        proof {
            assert(!has_count_key(self.counts(), label@));
        }
        0
    }

    /// Snapshot of every context label and its count, for reporting.
    pub fn context_counts(&self) -> (r: &Vec<(String, u64)>)
        ensures
            r@ == self.counts(),
    {
        &self.context_counts
    }

    /// Counts one more occurrence of `label`.
    #[verifier::loop_isolation(false)]
    pub fn increment_context(&mut self, label: &String)
        requires
            old(self).well_formed(),
            old(self).spec_count(label@) < u64::MAX,
        ensures
            final(self).well_formed(),
            final(self).spec_count(label@) == old(self).spec_count(label@) + 1,
            forall|l: Seq<char>|
                l != label@ ==> final(self).spec_count(l) == old(self).spec_count(l),
            final(self).total_retries == old(self).total_retries,
            final(self).total_failures == old(self).total_failures,
            final(self).total_successes == old(self).total_successes,
    {
        let ghost orig = self.counts();
        let mut i: usize = 0;
        while i < self.context_counts.len()
            invariant
                i <= orig.len(),
                self.counts() == orig,
                forall|k: int| 0 <= k < i ==> orig[k].0@ != label@,
                count_keys_unique(orig),
                self.total_retries == old(self).total_retries,
                self.total_failures == old(self).total_failures,
                self.total_successes == old(self).total_successes,
            decreases orig.len() - i,
        {
            if self.context_counts[i].0 == *label {
                proof {
                    lemma_count_at(orig, label@, i as int);
                }
                let entry = self.context_counts.remove(i);
                let n = entry.1;
                self.context_counts.insert(i, (entry.0, n + 1));
                proof {
                    let s = self.counts();
                    assert(forall|k: int| 0 <= k < s.len() && k != i ==> s[k] == orig[k]);
                    assert(s[i as int].0@ == label@ && s[i as int].1 == n + 1);
                    lemma_count_at(s, label@, i as int);
                    assert forall|l: Seq<char>| l != label@ implies count_of(s, l) == count_of(
                        orig,
                        l,
                    ) by {
                        if has_count_key(orig, l) {
                            let j = choose|j: int| 0 <= j < orig.len() && orig[j].0@ == l;
                            assert(s[j].0@ == l && s[j].1 == orig[j].1);
                            lemma_count_at(orig, l, j);
                            lemma_count_at(s, l, j);
                        } else {
                            if has_count_key(s, l) {
                                let j = choose|j: int| 0 <= j < s.len() && s[j].0@ == l;
                                assert(orig[j].0@ == l);
                            }
                        }
                    }
                }
                return ;
            }
            i = i + 1;
        }
        proof {
            assert(!has_count_key(orig, label@));
        }
        self.context_counts.push((label.clone(), 1));
        proof {
            let s = self.counts();
            assert(forall|k: int| 0 <= k < orig.len() ==> s[k] == orig[k]);
            assert(s[s.len() - 1].0@ == label@ && s[s.len() - 1].1 == 1);
            lemma_count_at(s, label@, s.len() - 1);
            assert forall|l: Seq<char>| l != label@ implies count_of(s, l) == count_of(
                orig,
                l,
            ) by {
                if has_count_key(orig, l) {
                    let j = choose|j: int| 0 <= j < orig.len() && orig[j].0@ == l;
                    assert(s[j].0@ == l && s[j].1 == orig[j].1);
                    lemma_count_at(orig, l, j);
                    lemma_count_at(s, l, j);
                } else {
                    if has_count_key(s, l) {
                        let j = choose|j: int| 0 <= j < s.len() && s[j].0@ == l;
                        assert(j < orig.len());
                        assert(orig[j].0@ == l);
                    }
                }
            }
        }
    }
}


/// Index of the first successful attempt, or the length if every attempt
/// failed.
pub open spec fn spec_first_ok(s: Seq<Result<String, String>>) -> int
    decreases s.len(),
{
    if s.len() == 0 {
        0
    } else if s[0] is Ok {
        0
    } else {
        1 + spec_first_ok(s.drop_first())
    }
}

/// If the first `i` attempts failed and attempt `i` (if there is one)
/// succeeded, then `i` is the first successful index.
proof fn lemma_first_ok_at(s: Seq<Result<String, String>>, i: int)
    requires
        0 <= i <= s.len(),
        forall|j: int| 0 <= j < i ==> s[j] is Err,
        i < s.len() ==> s[i] is Ok,
    ensures
        spec_first_ok(s) == i,
    decreases s.len(),
{
    if s.len() > 0 && !(s[0] is Ok) {
        lemma_first_ok_at(s.drop_first(), i - 1);
    }
}

/// The composite error returned when retries are exhausted: the context
/// label, then the last underlying error.
pub open spec fn spec_composite_error(context: Seq<char>, last: Seq<char>) -> Seq<char> {
    context + ": "@ + last
}

/// What the executor does after a failed attempt.
pub enum RetryDecision {
    /// Try again after this backoff delay.
    Retry { delay_ms: u64 },
    /// Retries are exhausted.
    GiveUp,
}

/// Executes fallible operations with bounded retry, counting every failed
/// attempt under the operation's context label.
pub struct ErrorHandler {
    /// Most attempts made for one operation.
    pub max_retries: u32,
    /// Base backoff delay; the wait after the n-th failure is `n` times it.
    pub retry_delay_ms: u32,
    /// Shared counters, read for end-of-run reporting.
    pub counters: ErrorCounter,
}

impl ErrorHandler {
    pub open spec fn well_formed(&self) -> bool {
        self.counters.well_formed()
    }

    pub fn new(max_retries: u32, retry_delay_ms: u32) -> (r: ErrorHandler)
        ensures
            r.well_formed(),
            r.max_retries == max_retries,
            r.retry_delay_ms == retry_delay_ms,
            r.counters.counts() =~= Seq::<(String, u64)>::empty(),
            r.counters.total_retries == 0,
            r.counters.total_failures == 0,
            r.counters.total_successes == 0,
            forall|l: Seq<char>| r.counters.spec_count(l) == 0,
    {
        ErrorHandler { max_retries, retry_delay_ms, counters: ErrorCounter::new() }
    }

    /// Linear backoff: the wait before re-trying after the n-th failure.
    pub fn backoff_delay_ms(&self, attempt: u32) -> (r: u64)
        ensures
            r == self.retry_delay_ms as u64 * attempt as u64,
    {
        proof {
            assert(self.retry_delay_ms as int * attempt as int <= 0xffff_ffff * 0xffff_ffff)
                by (nonlinear_arith)
                requires
                    self.retry_delay_ms <= 0xffff_ffffu32,
                    attempt <= 0xffff_ffffu32,
            ;
        }
        (self.retry_delay_ms as u64) * (attempt as u64)
    }

    /// Counts an eventual success, however many attempts failed before it.
    pub fn on_success(&mut self)
        requires
            old(self).well_formed(),
            old(self).counters.total_successes < u64::MAX,
        ensures
            final(self).well_formed(),
            final(self).counters.total_successes == old(self).counters.total_successes + 1,
            final(self).counters.total_retries == old(self).counters.total_retries,
            final(self).counters.total_failures == old(self).counters.total_failures,
            final(self).counters.counts() == old(self).counters.counts(),
            final(self).max_retries == old(self).max_retries,
            final(self).retry_delay_ms == old(self).retry_delay_ms,
    {
        self.counters.total_successes = self.counters.total_successes + 1;
    }

    /// Counts a failed attempt under `context` and decides whether to retry.
    /// `failures` is how many attempts of this operation have now failed.
    pub fn on_failure(&mut self, context: &String, failures: u32) -> (r: RetryDecision)
        requires
            old(self).well_formed(),
            1 <= failures <= old(self).max_retries,
            old(self).counters.spec_count(context@) < u64::MAX,
            old(self).counters.total_retries < u64::MAX,
            old(self).counters.total_failures < u64::MAX,
        ensures
            final(self).well_formed(),
            final(self).counters.spec_count(context@) == old(self).counters.spec_count(context@)
                + 1,
            forall|l: Seq<char>|
                l != context@ ==> final(self).counters.spec_count(l) == old(self).counters.spec_count(l),
            final(self).counters.total_retries == old(self).counters.total_retries + 1,
            final(self).counters.total_successes == old(self).counters.total_successes,
            failures < old(self).max_retries ==> (r matches RetryDecision::Retry { delay_ms }
                && delay_ms == old(self).retry_delay_ms as u64 * failures as u64 && final(self).counters.total_failures == old(self).counters.total_failures),
            failures == old(self).max_retries ==> (r matches RetryDecision::GiveUp && final(self).counters.total_failures == old(self).counters.total_failures + 1),
            final(self).max_retries == old(self).max_retries,
            final(self).retry_delay_ms == old(self).retry_delay_ms,
    {
        self.counters.increment_context(context);
        self.counters.total_retries = self.counters.total_retries + 1;
        if failures < self.max_retries {
            let delay_ms = self.backoff_delay_ms(failures);
            RetryDecision::Retry { delay_ms }
        } else {
            self.counters.total_failures = self.counters.total_failures + 1;
            RetryDecision::GiveUp
        }
    }

    /// Runs one operation with bounded retry; `attempts@[i]` is what the
    /// operation returns on its `i`-th try.  Returns the first success, or,
    /// when every attempt fails, a composite error naming the context and
    /// the last underlying error.  An operation that fails `k` times and then
    /// succeeds counts `k` occurrences of the context label and one success;
    /// one that always fails counts `max_retries` occurrences and one
    /// failure.
    #[verifier::loop_isolation(false)]
    pub fn safe_execute(&mut self, attempts: &Vec<Result<String, String>>, context: &String) -> (r:
        Result<String, String>)
        requires
            old(self).well_formed(),
            old(self).max_retries >= 1,
            attempts@.len() == old(self).max_retries as int,
            old(self).counters.spec_count(context@) + old(self).max_retries <= u64::MAX,
            old(self).counters.total_retries + old(self).max_retries <= u64::MAX,
            old(self).counters.total_successes < u64::MAX,
            old(self).counters.total_failures < u64::MAX,
        ensures
            final(self).well_formed(),
            final(self).max_retries == old(self).max_retries,
            final(self).retry_delay_ms == old(self).retry_delay_ms,
            forall|l: Seq<char>|
                l != context@ ==> final(self).counters.spec_count(l) == old(self).counters.spec_count(l),
            ({
                let n = attempts@.len() as int;
                let k = spec_first_ok(attempts@);
                &&& k < n ==> {
                    &&& r == attempts@[k]
                    &&& final(self).counters.spec_count(context@) == old(self).counters.spec_count(context@) + k
                    &&& final(self).counters.total_retries == old(self).counters.total_retries + k
                    &&& final(self).counters.total_successes == old(self).counters.total_successes + 1
                    &&& final(self).counters.total_failures == old(self).counters.total_failures
                }
                &&& k >= n ==> {
                    &&& (r matches Err(e) && attempts@[n - 1] matches Err(le) && e@
                        == spec_composite_error(context@, le@))
                    &&& final(self).counters.spec_count(context@) == old(self).counters.spec_count(context@) + n
                    &&& final(self).counters.total_retries == old(self).counters.total_retries + n
                    &&& final(self).counters.total_successes == old(self).counters.total_successes
                    &&& final(self).counters.total_failures == old(self).counters.total_failures
                        + 1
                }
            }),
    {
        let n = attempts.len();
        let mut i: usize = 0;
        while i + 1 < n
            invariant
                i < n,
                forall|j: int| 0 <= j < i ==> attempts@[j] is Err,
                self.well_formed(),
                self.counters.spec_count(context@) == old(self).counters.spec_count(context@)
                    + i,
                forall|l: Seq<char>|
                    l != context@ ==> self.counters.spec_count(l) == old(self).counters.spec_count(
                        l,
                    ),
                self.counters.total_retries == old(self).counters.total_retries + i,
                self.counters.total_successes == old(self).counters.total_successes,
                self.counters.total_failures == old(self).counters.total_failures,
                self.max_retries == old(self).max_retries,
                self.retry_delay_ms == old(self).retry_delay_ms,
            decreases n - i,
        {
            match &attempts[i] {
                Result::Ok(text) => {
                    self.on_success();
                    proof {
                        lemma_first_ok_at(attempts@, i as int);
                    }
                    return Ok(text.clone());
                },
                Result::Err(_) => {
                    self.on_failure(context, (i + 1) as u32);
                },
            }
            i = i + 1;
        }
        match &attempts[n - 1] {
            Result::Ok(text) => {
                self.on_success();
                proof {
                    lemma_first_ok_at(attempts@, n - 1);
                }
                Ok(text.clone())
            },
            Result::Err(last) => {
                self.on_failure(context, n as u32);
                proof {
                    lemma_first_ok_at(attempts@, n as int);
                }
                let mut msg = context.clone();
                msg.append(": ");
                msg.append(last.as_str());
                Err(msg)
            },
        }
    }
}

} // verus!
