//! The cleanup scheduler's registry: at most one outstanding
//! control-stripping task per message, with idempotent supersession.
//!
//! Each scheduled task gets a fresh generation number.  Scheduling a key
//! that already has a task cancels the old generation before registering
//! the new one; a task only strips controls when its own generation is
//! still the registered one, and deregisters itself as it fires.  The
//! caller runs the timers and edits; this registry decides which single
//! task may act.

use vstd::prelude::*;

verus! {

/// The registry, keyed by message identity.
pub struct CleanupScheduler {
    next_generation: u64,
    entries: Vec<(u64, u64)>,
}

/// Mathematical image of the registry: the outstanding task generation
/// per message key, and the next generation to hand out.
pub struct CleanupRegistryV {
    pub tasks: Map<u64, u64>,
    pub next_generation: u64,
}

/// No message key occurs twice.
pub open spec fn unique_keys(s: Seq<(u64, u64)>) -> bool {
    forall|i: int, j: int| 0 <= i < j < s.len() ==> (#[trigger] s[i]).0 != (#[trigger] s[j]).0
}

/// Whether some entry carries `key`.
pub open spec fn reg_contains(s: Seq<(u64, u64)>, key: u64) -> bool {
    exists|i: int| 0 <= i < s.len() && (#[trigger] s[i]).0 == key
}

/// The registry as a map from message key to task generation.
pub open spec fn reg_map(s: Seq<(u64, u64)>) -> Map<u64, u64> {
    Map::new(
        |k: u64| reg_contains(s, k),
        |k: u64| s[choose|i: int| 0 <= i < s.len() && (#[trigger] s[i]).0 == k].1,
    )
}

impl View for CleanupScheduler {
    type V = CleanupRegistryV;

    closed spec fn view(&self) -> CleanupRegistryV {
        CleanupRegistryV {
            tasks: reg_map(self.entries@),
            next_generation: self.next_generation,
        }
    }
}

impl CleanupScheduler {
    /// Internal consistency: unique keys, and no generation at or past
    /// the next one to be handed out.
    pub closed spec fn wf(&self) -> bool {
        &&& unique_keys(self.entries@)
        &&& forall|i: int|
            0 <= i < self.entries@.len() ==> (#[trigger] self.entries@[i]).1
                < self.next_generation
    }

    /// An empty registry.
    pub fn new() -> (r: Self)
        ensures
            r.wf(),
            r@.tasks =~= Map::<u64, u64>::empty(),
            r@.next_generation == 0,
    {
        let r = CleanupScheduler { next_generation: 0, entries: Vec::new() };
        proof {
            assert(r@.tasks =~= Map::<u64, u64>::empty());
        }
        r
    }

    /// Whether another task can still be scheduled: the generation
    /// counter has room.
    pub fn can_schedule(&self) -> (r: bool)
        ensures
            r == (self@.next_generation < u64::MAX),
    {
        self.next_generation < u64::MAX
    }

    /// Register a fresh cleanup task for `message_key`, cancelling and
    /// replacing any outstanding one: the returned pair is the cancelled
    /// generation, if any, and the fresh generation.
    pub fn schedule(&mut self, message_key: u64) -> (r: (Option<u64>, u64))
        requires
            old(self).wf(),
            old(self)@.next_generation < u64::MAX,
        ensures
            final(self).wf(),
            r.1 == old(self)@.next_generation,
            final(self)@.next_generation == old(self)@.next_generation + 1,
            final(self)@.tasks =~= old(self)@.tasks.insert(message_key, r.1),
            r.0 == spec_cancelled(old(self)@, message_key),
    {
        let generation = self.next_generation;
        self.next_generation = generation + 1;
        let ghost s0 = self.entries@;
        let mut found: Option<usize> = None;
        let n = self.entries.len();
        let mut i: usize = 0;
        while i < n
            invariant
                0 <= i <= n,
                n == self.entries@.len(),
                self.entries@ == s0,
                unique_keys(s0),
                match found {
                    Some(j) => j < i && self.entries@[j as int].0 == message_key,
                    None => forall|j: int|
                        0 <= j < i ==> (#[trigger] self.entries@[j]).0 != message_key,
                },
            decreases n - i,
        {
            if self.entries[i].0 == message_key {
                found = Some(i);
            }
            i += 1;
        }
        let cancelled: Option<u64> = match found {
            Some(idx) => {
                let entry = self.entries.remove(idx);
                proof {
                    lemma_remove_key(s0, idx as int);
                }
                Some(entry.1)
            },
            None => None,
        };
        proof {
            match found {
                Some(idx) => {
                    lemma_reg_value(s0, idx as int);
                    assert(reg_map(s0).contains_pair(message_key, s0[idx as int].1));
                },
                None => {
                    assert(!reg_contains(s0, message_key));
                },
            }
            assert(!reg_contains(self.entries@, message_key));
        }
        let ghost s1 = self.entries@;
        self.entries.push((message_key, generation));
        proof {
            lemma_push_key(s1, message_key, generation);
            match found {
                Some(idx) => {
                    assert(reg_map(self.entries@) =~= reg_map(s0).remove(message_key).insert(
                        message_key,
                        generation,
                    ));
                    assert(reg_map(self.entries@) =~= reg_map(s0).insert(
                        message_key,
                        generation,
                    ));
                },
                None => {
                    assert(reg_map(self.entries@) =~= reg_map(s0).insert(
                        message_key,
                        generation,
                    ));
                },
            }
        }
        (cancelled, generation)
    }

    /// A task with `generation` fires for `message_key`: it may strip
    /// controls only if its generation is still the registered one, and
    /// it deregisters itself as it does.
    pub fn complete(&mut self, message_key: u64, generation: u64) -> (fired: bool)
        requires
            old(self).wf(),
        ensures
            final(self).wf(),
            final(self)@.next_generation == old(self)@.next_generation,
            fired == old(self)@.tasks.contains_pair(message_key, generation),
            final(self)@.tasks =~= if fired {
                old(self)@.tasks.remove(message_key)
            } else {
                old(self)@.tasks
            },
    {
        let ghost s0 = self.entries@;
        let n = self.entries.len();
        let mut i: usize = 0;
        while i < n
            invariant
                0 <= i <= n,
                n == self.entries@.len(),
                self.entries@ == s0,
                s0 == old(self).entries@,
                self.next_generation == old(self).next_generation,
                old(self).wf(),
                unique_keys(s0),
                forall|j: int|
                    0 <= j < i ==> !((#[trigger] self.entries@[j]).0 == message_key
                        && self.entries@[j].1 == generation),
            decreases n - i,
        {
            if self.entries[i].0 == message_key && self.entries[i].1 == generation {
                proof {
                    lemma_reg_value(s0, i as int);
                    lemma_remove_key(s0, i as int);
                }
                self.entries.remove(i);
                proof {
                    assert forall|j: int|
                        0 <= j < self.entries@.len() implies (#[trigger] self.entries@[j]).1
                        < self.next_generation by {
                        assert(self.entries@[j] == s0[j] || self.entries@[j] == s0[j + 1]);
                    }
                }
                return true;
            }
            i += 1;
        }
        proof {
            if reg_map(s0).contains_pair(message_key, generation) {
                let w = choose|k: int| 0 <= k < s0.len() && (#[trigger] s0[k]).0 == message_key;
                lemma_reg_value(s0, w);
            }
        }
        false
    }
}

/// The generation that scheduling `key` would cancel.
pub open spec fn spec_cancelled(r: CleanupRegistryV, key: u64) -> Option<u64> {
    if r.tasks.dom().contains(key) {
        Some(r.tasks[key])
    } else {
        None
    }
}

/// The registry after scheduling `key`, and the cancelled generation.
pub open spec fn spec_schedule(r: CleanupRegistryV, key: u64) -> (CleanupRegistryV, Option<u64>)
    recommends
        r.next_generation < u64::MAX,
{
    (
        CleanupRegistryV {
            tasks: r.tasks.insert(key, r.next_generation),
            next_generation: (r.next_generation + 1) as u64,
        },
        spec_cancelled(r, key),
    )
}

/// The registry after a task of `generation` fires for `key`, and whether
/// it was allowed to strip controls.
pub open spec fn spec_complete(r: CleanupRegistryV, key: u64, generation: u64) -> (
    CleanupRegistryV,
    bool,
) {
    if r.tasks.contains_pair(key, generation) {
        (CleanupRegistryV { tasks: r.tasks.remove(key), next_generation: r.next_generation }, true)
    } else {
        (r, false)
    }
}

/// Supersession law: scheduling a second cleanup for the same message
/// cancels the first, the superseded generation can never strip controls,
/// and the live generation strips exactly once.  This holds for any
/// starting registry; only the machine limit on the generation counter
/// is assumed.
pub proof fn lemma_cleanup_supersession(r0: CleanupRegistryV, key: u64)
    requires
        r0.next_generation + 1 < u64::MAX,
    ensures
        ({
            let g1 = r0.next_generation;
            let r1 = spec_schedule(r0, key).0;
            let g2 = r1.next_generation;
            let r2 = spec_schedule(r1, key).0;
            &&& spec_schedule(r1, key).1 == Some(g1)
            &&& spec_complete(r2, key, g1).1 == false
            &&& spec_complete(r2, key, g2).1 == true
            &&& spec_complete(spec_complete(r2, key, g2).0, key, g2).1 == false
        }),
{
}

/// A multi-page view needs its controls stripped later; a single page
/// never gets a cleanup task.
pub fn should_schedule_cleanup(total_pages: usize) -> (r: bool)
    ensures
        r == (total_pages > 1),
{
    total_pages > 1
}

/// A cleanup task sleeps until one second before the session timeout.
pub fn cleanup_delay_secs(timeout_secs: u64) -> (r: u64)
    ensures
        r == if timeout_secs >= 1 {
            timeout_secs - 1
        } else {
            0
        },
{
    if timeout_secs >= 1 {
        timeout_secs - 1
    } else {
        0
    }
}

/// With unique keys, the entry at a key's index gives that key's value
/// in the registry map.
proof fn lemma_reg_value(s: Seq<(u64, u64)>, i: int)
    requires
        unique_keys(s),
        0 <= i < s.len(),
    ensures
        reg_map(s).dom().contains(s[i].0),
        reg_map(s)[s[i].0] == s[i].1,
{
    let k = s[i].0;
    assert(reg_contains(s, k));
    let w = choose|j: int| 0 <= j < s.len() && (#[trigger] s[j]).0 == k;
    assert(w == i || s[w].0 != s[i].0 || s[w].1 == s[i].1);
    if w != i {
        if w < i {
            assert(s[w].0 != s[i].0);
        } else {
            assert(s[i].0 != s[w].0);
        }
    }
}

/// Removing the entry at a key's index removes exactly that key from the
/// registry map.
proof fn lemma_remove_key(s: Seq<(u64, u64)>, i: int)
    requires
        unique_keys(s),
        0 <= i < s.len(),
    ensures
        unique_keys(s.remove(i)),
        !reg_contains(s.remove(i), s[i].0),
        reg_map(s.remove(i)) =~= reg_map(s).remove(s[i].0),
        forall|j: int|
            0 <= j < s.remove(i).len() ==> (#[trigger] s.remove(i)[j]) == s[j] || s.remove(i)[j]
                == s[j + 1],
{
    let t = s.remove(i);
    s.remove_ensures(i);
    assert forall|j: int| 0 <= j < t.len() implies (#[trigger] t[j]) == s[j] || t[j] == s[j + 1] by {
        if j < i {
            assert(t[j] == s[j]);
        } else {
            assert(t[j] == s[j + 1]);
        }
    }
    assert forall|a: int, b: int| 0 <= a < b < t.len() implies (#[trigger] t[a]).0 != (
    #[trigger] t[b]).0 by {
        let a0 = if a < i {
            a
        } else {
            a + 1
        };
        let b0 = if b < i {
            b
        } else {
            b + 1
        };
        assert(t[a] == s[a0] && t[b] == s[b0]);
    }
    assert forall|j: int| 0 <= j < t.len() implies (#[trigger] t[j]).0 != s[i].0 by {
        let j0 = if j < i {
            j
        } else {
            j + 1
        };
        assert(t[j] == s[j0]);
    }
    assert forall|k: u64| #[trigger]
        reg_map(t).dom().contains(k) == reg_map(s).remove(s[i].0).dom().contains(k) by {
        if k == s[i].0 {
            assert(!reg_contains(t, k));
        } else {
            if reg_contains(s, k) {
                let w = choose|j: int| 0 <= j < s.len() && (#[trigger] s[j]).0 == k;
                let wt = if w < i {
                    w
                } else {
                    w - 1
                };
                assert(t[wt] == s[w]);
                assert(reg_contains(t, k));
            }
            if reg_contains(t, k) {
                let w = choose|j: int| 0 <= j < t.len() && (#[trigger] t[j]).0 == k;
                let ws = if w < i {
                    w
                } else {
                    w + 1
                };
                assert(s[ws] == t[w]);
                assert(reg_contains(s, k));
            }
        }
    }
    assert forall|k: u64|
        reg_map(t).dom().contains(k) implies #[trigger] reg_map(t)[k] == reg_map(s).remove(
        s[i].0,
    )[k] by {
        let w = choose|j: int| 0 <= j < t.len() && (#[trigger] t[j]).0 == k;
        lemma_reg_value(t, w);
        let ws = if w < i {
            w
        } else {
            w + 1
        };
        assert(s[ws] == t[w]);
        lemma_reg_value(s, ws);
    }
}

/// Pushing an entry for a fresh key adds exactly that pair to the
/// registry map.
proof fn lemma_push_key(s: Seq<(u64, u64)>, key: u64, generation: u64)
    requires
        unique_keys(s),
        !reg_contains(s, key),
    ensures
        unique_keys(s.push((key, generation))),
        reg_map(s.push((key, generation))) =~= reg_map(s).insert(key, generation),
{
    let t = s.push((key, generation));
    assert forall|a: int, b: int| 0 <= a < b < t.len() implies (#[trigger] t[a]).0 != (
    #[trigger] t[b]).0 by {
        if b < s.len() {
            assert(t[a] == s[a] && t[b] == s[b]);
        } else {
            assert(t[a] == s[a] && t[b] == (key, generation));
        }
    }
    assert forall|k: u64| #[trigger]
        reg_map(t).dom().contains(k) == reg_map(s).insert(key, generation).dom().contains(k) by {
        if k == key {
            assert(t[s.len() as int].0 == key);
            assert(reg_contains(t, k));
        } else {
            if reg_contains(s, k) {
                let w = choose|j: int| 0 <= j < s.len() && (#[trigger] s[j]).0 == k;
                assert(t[w] == s[w]);
                assert(reg_contains(t, k));
            }
            if reg_contains(t, k) {
                let w = choose|j: int| 0 <= j < t.len() && (#[trigger] t[j]).0 == k;
                assert(w < s.len());
                assert(s[w] == t[w]);
                assert(reg_contains(s, k));
            }
        }
    }
    assert forall|k: u64|
        reg_map(t).dom().contains(k) implies #[trigger] reg_map(t)[k] == reg_map(s).insert(
        key,
        generation,
    )[k] by {
        let w = choose|j: int| 0 <= j < t.len() && (#[trigger] t[j]).0 == k;
        lemma_reg_value(t, w);
        if k == key {
            assert(t[w].0 == key);
            assert(w == s.len() as int);
        } else {
            assert(w < s.len());
            assert(s[w] == t[w]);
            lemma_reg_value(s, w);
        }
    }
}

} // verus!
