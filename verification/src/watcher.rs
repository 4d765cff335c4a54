//! Debounced filesystem watching.
//!
//! Every create/modify event for a media path records the event's time and
//! schedules a deferred check one debounce window later.  A deferred check
//! that no longer matches the recorded time is stale — a newer event arrived
//! and its own check will proceed instead.  A burst of events on one path
//! therefore yields exactly one dispatch, driven by the last event of the
//! burst.  A dispatched path is in flight until its processing finishes;
//! events for it are ignored meanwhile.

use vstd::prelude::*;
use crate::file_utils::eq_ignore_ascii_case;
use crate::file_utils::get_file_extension;
use crate::file_utils::spec_ascii_lower;
use crate::file_utils::spec_extension;

verus! {

/// Each pending path is recorded at most once.
pub open spec fn pending_keys_unique(s: Seq<(String, u64)>) -> bool {
    forall|i: int, j: int| 0 <= i < j < s.len() ==> s[i].0@ != s[j].0@
}

/// The pending table records `path` with the event time `t`.
pub open spec fn has_pending(s: Seq<(String, u64)>, path: Seq<char>, t: u64) -> bool {
    exists|i: int| 0 <= i < s.len() && s[i].0@ == path && s[i].1 == t
}

/// The pending table records `path` at some time.
pub open spec fn has_pending_key(s: Seq<(String, u64)>, path: Seq<char>) -> bool {
    exists|i: int| 0 <= i < s.len() && s[i].0@ == path
}

/// The path set contains `path`.
pub open spec fn path_set_contains(s: Seq<String>, path: Seq<char>) -> bool {
    exists|i: int| 0 <= i < s.len() && s[i]@ == path
}

/// What the watcher does with a filesystem event.
pub enum WatchAction {
    /// The path is already in flight; nothing to do.
    Ignore,
    /// Check the path again once the debounce window has passed.
    Schedule { check_at: u64 },
}

/// What the watcher does when a deferred check fires.
pub enum TimerAction {
    /// A newer event superseded this check; do nothing.
    Stale,
    /// The path was quiet for a full window: hand it to the processor.
    Dispatch,
}

/// Debounces filesystem events per path and tracks which paths are being
/// processed.  Times are milliseconds on the driver's monotonic clock.
pub struct FileWatcher {
    /// Path of each pending file and the time of its most recent event.
    pub pending: Vec<(String, u64)>,
    /// Paths currently handed to the processor.
    pub in_flight: Vec<String>,
    /// How long a path must stay quiet before it is dispatched.
    pub debounce_ms: u64,
    /// The extra wait after dispatch before the file is assumed written out.
    pub settle_ms: u64,
    /// Recognized media file extensions, lower case, without the dot.
    pub media_extensions: Vec<String>,
}

impl FileWatcher {
    pub open spec fn well_formed(&self) -> bool {
        pending_keys_unique(self.pending@)
    }

    /// A watcher over the given media extensions with nothing pending.
    pub fn new(debounce_ms: u64, settle_ms: u64, media_extensions: Vec<String>) -> (r: FileWatcher)
        ensures
            r.well_formed(),
            r.pending@ =~= Seq::<(String, u64)>::empty(),
            r.in_flight@ =~= Seq::<String>::empty(),
            r.debounce_ms == debounce_ms,
            r.settle_ms == settle_ms,
            r.media_extensions == media_extensions,
    {
        FileWatcher {
            pending: Vec::new(),
            in_flight: Vec::new(),
            debounce_ms,
            settle_ms,
            media_extensions,
        }
    }

    /// The file name's extension is one of the recognized media extensions,
    /// compared without regard to ASCII case.
    pub open spec fn spec_is_media_file(&self, name: Seq<char>) -> bool {
        match spec_extension(name) {
            Some(ext) => exists|i: int|
                0 <= i < self.media_extensions@.len() && spec_ascii_lower(ext)
                    == spec_ascii_lower(self.media_extensions@[i]@),
            None => false,
        }
    }

    /// Whether the name carries a recognized media extension.
    pub fn is_media_file(&self, name: &String) -> (r: bool)
        ensures
            r == self.spec_is_media_file(name@),
    {
        match get_file_extension(name.as_str()) {
            Some(ext) => {
                let mut i: usize = 0;
                while i < self.media_extensions.len()
                    invariant
                        i <= self.media_extensions@.len(),
                        forall|k: int|
                            0 <= k < i ==> spec_ascii_lower(spec_extension(name@)->Some_0)
                                != spec_ascii_lower(self.media_extensions@[k]@),
                        spec_extension(name@) == Some(ext@),
                    decreases self.media_extensions@.len() - i,
                {
                    if eq_ignore_ascii_case(ext, self.media_extensions[i].as_str()) {
                        return true;
                    }
                    i = i + 1;
                }
                false
            },
            None => false,
        }
    }

    /// Whether the path is currently being processed.
    pub fn is_in_flight(&self, path: &String) -> (r: bool)
        ensures
            r == path_set_contains(self.in_flight@, path@),
    {
        let mut i: usize = 0;
        while i < self.in_flight.len()
            invariant
                i <= self.in_flight@.len(),
                forall|k: int| 0 <= k < i ==> self.in_flight@[k]@ != path@,
            decreases self.in_flight@.len() - i,
        {
            if self.in_flight[i] == *path {
                return true;
            }
            i = i + 1;
        }
        false
    }

    /// Takes one create/modify event at time `now`.  An in-flight path is
    /// ignored; otherwise the event time is recorded — replacing any earlier
    /// one, so that only a check scheduled for this newest event can
    /// dispatch — and a deferred check is due one debounce window from now.
    #[verifier::loop_isolation(false)]
    pub fn on_event(&mut self, path: &String, now: u64) -> (r: WatchAction)
        requires
            old(self).well_formed(),
            now + old(self).debounce_ms <= u64::MAX,
        ensures
            final(self).well_formed(),
            final(self).in_flight == old(self).in_flight,
            final(self).debounce_ms == old(self).debounce_ms,
            final(self).settle_ms == old(self).settle_ms,
            final(self).media_extensions == old(self).media_extensions,
            path_set_contains(old(self).in_flight@, path@) ==> (r matches WatchAction::Ignore
                && final(self).pending == old(self).pending),
            !path_set_contains(old(self).in_flight@, path@) ==> {
                &&& (r matches WatchAction::Schedule { check_at } && check_at == now + old(
                    self,
                ).debounce_ms)
                &&& has_pending(final(self).pending@, path@, now)
                &&& forall|t: u64| t != now ==> !has_pending(final(self).pending@, path@, t)
                &&& forall|p: Seq<char>, t: u64|
                    p != path@ ==> (has_pending(final(self).pending@, p, t) <==> has_pending(
                        old(self).pending@,
                        p,
                        t,
                    ))
            },
    {
        if self.is_in_flight(path) {
            return WatchAction::Ignore;
        }
        self.remove_pending(path);
        let ghost mid = self.pending@;
        self.pending.push((path.clone(), now));
        proof {
            let s = self.pending@;
            assert(s[s.len() - 1].0@ == path@ && s[s.len() - 1].1 == now);
            assert forall|p: Seq<char>, t: u64| has_pending(mid, p, t) implies has_pending(
                s,
                p,
                t,
            ) by {
                let j = choose|j: int| 0 <= j < mid.len() && mid[j].0@ == p && mid[j].1 == t;
                assert(s[j] == mid[j]);
            }
            assert forall|p: Seq<char>, t: u64|
                has_pending(s, p, t) && !(p == path@ && t == now) implies has_pending(
                mid,
                p,
                t,
            ) by {
                let j = choose|j: int| 0 <= j < s.len() && s[j].0@ == p && s[j].1 == t;
                assert(j < mid.len());
                assert(mid[j] == s[j]);
            }
            assert forall|t: u64| t != now implies !has_pending(s, path@, t) by {
                if has_pending(s, path@, t) {
                    assert(has_pending(mid, path@, t));
                }
            }
        }
        WatchAction::Schedule { check_at: now + self.debounce_ms }
    }

    /// Removes the pending entry for `path`, if any.
    #[verifier::loop_isolation(false)]
    fn remove_pending(&mut self, path: &String)
        requires
            old(self).well_formed(),
        ensures
            final(self).well_formed(),
            !has_pending_key(final(self).pending@, path@),
            forall|p: Seq<char>, t: u64|
                p != path@ ==> (has_pending(final(self).pending@, p, t) <==> has_pending(
                    old(self).pending@,
                    p,
                    t,
                )),
            final(self).in_flight == old(self).in_flight,
            final(self).debounce_ms == old(self).debounce_ms,
            final(self).settle_ms == old(self).settle_ms,
            final(self).media_extensions == old(self).media_extensions,
    {
        let ghost orig = self.pending@;
        let mut i: usize = 0;
        while i < self.pending.len()
            invariant
                i <= self.pending@.len(),
                self.pending@ == orig,
                forall|k: int| 0 <= k < i ==> orig[k].0@ != path@,
                self.in_flight == old(self).in_flight,
                self.debounce_ms == old(self).debounce_ms,
                self.settle_ms == old(self).settle_ms,
                self.media_extensions == old(self).media_extensions,
            decreases self.pending@.len() - i,
        {
            if self.pending[i].0 == *path {
                self.pending.remove(i);
                proof {
                    let s = self.pending@;
                    assert forall|p: Seq<char>, t: u64|
                        p != path@ && has_pending(orig, p, t) implies has_pending(s, p, t) by {
                        let j = choose|j: int|
                            0 <= j < orig.len() && orig[j].0@ == p && orig[j].1 == t;
                        if j < i {
                            assert(s[j] == orig[j]);
                        } else {
                            assert(s[j - 1] == orig[j]);
                        }
                    }
                    assert forall|p: Seq<char>, t: u64| has_pending(s, p, t) implies has_pending(
                        orig,
                        p,
                        t,
                    ) by {
                        let j = choose|j: int| 0 <= j < s.len() && s[j].0@ == p && s[j].1 == t;
                        if j < i {
                            assert(orig[j] == s[j]);
                        } else {
                            assert(orig[j + 1] == s[j]);
                        }
                    }
                    assert forall|j: int| 0 <= j < s.len() implies s[j].0@ != path@ by {
                        if j < i {
                            assert(s[j] == orig[j]);
                        } else {
                            assert(s[j] == orig[j + 1]);
                        }
                    }
                }
                return ;
            }
            i = i + 1;
        }
        proof {
            assert(!has_pending_key(self.pending@, path@));
        }
    }

    /// A deferred check fires for `path`, scheduled when its event arrived at
    /// `event_time`.  The check is stale unless that is still the recorded
    /// time: of a burst of events inside one window, only the check for the
    /// last event dispatches.  On dispatch the path moves from pending to in
    /// flight.
    #[verifier::loop_isolation(false)]
    pub fn on_timer(&mut self, path: &String, event_time: u64) -> (r: TimerAction)
        requires
            old(self).well_formed(),
        ensures
            final(self).well_formed(),
            final(self).debounce_ms == old(self).debounce_ms,
            final(self).settle_ms == old(self).settle_ms,
            final(self).media_extensions == old(self).media_extensions,
            !has_pending(old(self).pending@, path@, event_time) ==> (r matches TimerAction::Stale
                && final(self).pending == old(self).pending && final(self).in_flight == old(
                self,
            ).in_flight),
            has_pending(old(self).pending@, path@, event_time) ==> {
                &&& r matches TimerAction::Dispatch
                &&& !has_pending_key(final(self).pending@, path@)
                &&& forall|p: Seq<char>, t: u64|
                    p != path@ ==> (has_pending(final(self).pending@, p, t) <==> has_pending(
                        old(self).pending@,
                        p,
                        t,
                    ))
                &&& final(self).in_flight@ == old(self).in_flight@.push(*path)
            },
    {
        let ghost orig = self.pending@;
        let mut i: usize = 0;
        let mut found = false;
        while i < self.pending.len() && !found
            invariant
                i <= self.pending@.len(),
                self.pending@ == orig,
                self.in_flight == old(self).in_flight,
                found ==> i < orig.len() && orig[i as int].0@ == path@ && orig[i as int].1
                    == event_time,
                !found ==> forall|k: int|
                    0 <= k < i ==> !(orig[k].0@ == path@ && orig[k].1 == event_time),
            decreases self.pending@.len() - i + (if found {
                0int
            } else {
                1int
            }),
        {
            if self.pending[i].0 == *path && self.pending[i].1 == event_time {
                found = true;
            } else {
                i = i + 1;
            }
        }
        if !found {
            proof {
                assert(!has_pending(orig, path@, event_time));
            }
            return TimerAction::Stale;
        }
        proof {
            assert(has_pending(orig, path@, event_time)) by {
                assert(orig[i as int].0@ == path@ && orig[i as int].1 == event_time);
            }
        }
        self.remove_pending(path);
        self.in_flight.push(path.clone());
        TimerAction::Dispatch
    }

    /// Processing of `path` is over — it finished, or the file disappeared
    /// before it could start.  The path leaves the in-flight set, so new
    /// events for it are taken again.
    #[verifier::loop_isolation(false)]
    pub fn on_done(&mut self, path: &String)
        requires
            old(self).well_formed(),
        ensures
            final(self).well_formed(),
            !path_set_contains(final(self).in_flight@, path@),
            forall|p: Seq<char>|
                p != path@ ==> (path_set_contains(final(self).in_flight@, p) <==> path_set_contains(
                    old(self).in_flight@,
                    p,
                )),
            final(self).pending == old(self).pending,
            final(self).debounce_ms == old(self).debounce_ms,
            final(self).settle_ms == old(self).settle_ms,
            final(self).media_extensions == old(self).media_extensions,
    {
        let ghost orig = self.in_flight@;
        let mut i: usize = 0;
        let mut kept: Vec<String> = Vec::new();
        while i < self.in_flight.len()
            invariant
                i <= self.in_flight@.len(),
                self.in_flight@ == orig,
                forall|k: int| 0 <= k < kept@.len() ==> kept@[k]@ != path@,
                forall|p: Seq<char>|
                    p != path@ ==> (path_set_contains(kept@, p) <==> (exists|k: int|
                        0 <= k < i && orig[k]@ == p)),
            decreases self.in_flight@.len() - i,
        {
            let ghost prev = kept@;
            if !(self.in_flight[i] == *path) {
                let entry = self.in_flight[i].clone();
                kept.push(entry);
                proof {
                    assert(kept@[kept@.len() - 1]@ == orig[i as int]@);
                    assert forall|p: Seq<char>|
                        p != path@ && path_set_contains(kept@, p) implies (exists|k: int|
                        0 <= k < i + 1 && orig[k]@ == p) by {
                        let j = choose|j: int| 0 <= j < kept@.len() && kept@[j]@ == p;
                        if j < prev.len() {
                            assert(path_set_contains(prev, p));
                        } else {
                            assert(orig[i as int]@ == p);
                        }
                    }
                    assert forall|p: Seq<char>|
                        p != path@ && (exists|k: int| 0 <= k < i + 1 && orig[k]@ == p) implies
                        path_set_contains(kept@, p) by {
                        let k = choose|k: int| 0 <= k < i + 1 && orig[k]@ == p;
                        if k < i {
                            assert(path_set_contains(prev, p));
                            let j = choose|j: int| 0 <= j < prev.len() && prev[j]@ == p;
                            assert(kept@[j]@ == p);
                        } else {
                            assert(kept@[kept@.len() - 1]@ == p);
                        }
                    }
                }
            } else {
                proof {
                    assert forall|p: Seq<char>|
                        p != path@ && (exists|k: int| 0 <= k < i + 1 && orig[k]@ == p) implies
                        path_set_contains(kept@, p) by {
                        let k = choose|k: int| 0 <= k < i + 1 && orig[k]@ == p;
                        assert(k < i);
                    }
                }
            }
            i = i + 1;
        }
        self.in_flight = kept;
    }
}

} // verus!
