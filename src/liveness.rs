//! Which reporters have been heard from recently.
use vstd::prelude::*;

verus! {

/// Seconds of silence after which a reporter is no longer alive.
pub const LIVENESS_TIMEOUT: u64 = 120;

/// The last time a reporter was heard from.
pub struct LivenessRecord {
    pub reporter_id: String,
    /// Unix seconds.
    pub last_seen: u64,
}

impl LivenessRecord {
    /// A field-for-field copy.
    pub fn duplicate(&self) -> (r: LivenessRecord)
        ensures
            r == *self,
    {
        LivenessRecord { reporter_id: self.reporter_id.clone(), last_seen: self.last_seen }
    }
}

/// A record last seen at `last_seen` has timed out at `now`.
pub open spec fn is_stale(last_seen: u64, now: u64) -> bool {
    (now as int) - (last_seen as int) >= LIVENESS_TIMEOUT as int
}

/// The records of `s` that have not timed out at `now`, in their order.
pub open spec fn kept(s: Seq<LivenessRecord>, now: u64) -> Seq<LivenessRecord>
    decreases s.len(),
{
    if s.len() == 0 {
        Seq::empty()
    } else {
        let rest = kept(s.drop_last(), now);
        if is_stale(s.last().last_seen, now) {
            rest
        } else {
            rest.push(s.last())
        }
    }
}

/// No reporter has two records.
pub open spec fn unique_ids(s: Seq<LivenessRecord>) -> bool {
    forall|i: int, j: int|
        0 <= i < j < s.len() ==> (#[trigger] s[i]).reporter_id@ != (#[trigger] s[j]).reporter_id@
}

/// Some record of `s` belongs to reporter `id`.
pub open spec fn has_id(s: Seq<LivenessRecord>, id: Seq<char>) -> bool {
    exists|i: int| 0 <= i < s.len() && (#[trigger] s[i]).reporter_id@ == id
}

/// The records after `reporter_id` is heard from at `now`: its record is
/// replaced, or a new one is appended.
pub open spec fn touched(s: Seq<LivenessRecord>, reporter_id: String, now: u64) -> Seq<
    LivenessRecord,
> {
    let rec = LivenessRecord { reporter_id, last_seen: now };
    if has_id(s, reporter_id@) {
        s.update(choose|i: int| 0 <= i < s.len() && (#[trigger] s[i]).reporter_id@ == reporter_id@, rec)
    } else {
        s.push(rec)
    }
}

/// Every record kept is a record of `s`, and none of them is stale.
pub proof fn lemma_kept_from(s: Seq<LivenessRecord>, now: u64)
    ensures
        kept(s, now).len() <= s.len(),
        forall|j: int|
            0 <= j < kept(s, now).len() ==> !is_stale(#[trigger] kept(s, now)[j].last_seen, now)
                && exists|i: int| 0 <= i < s.len() && s[i] == kept(s, now)[j],
    decreases s.len(),
{
    if s.len() > 0 {
        let t = s.drop_last();
        lemma_kept_from(t, now);
        assert forall|j: int| 0 <= j < kept(s, now).len() implies !is_stale(
            #[trigger] kept(s, now)[j].last_seen,
            now,
        ) && exists|i: int| 0 <= i < s.len() && s[i] == kept(s, now)[j] by {
            if j < kept(t, now).len() {
                assert(kept(s, now)[j] == kept(t, now)[j]);
                assert(!is_stale(kept(t, now)[j].last_seen, now));
                let i = choose|i: int| 0 <= i < t.len() && t[i] == kept(t, now)[j];
                assert(s[i] == t[i]);
            } else {
                assert(s[s.len() - 1] == kept(s, now)[j]);
            }
        }
    }
}

/// Sweeping keeps the reporters distinct.
pub proof fn lemma_kept_unique(s: Seq<LivenessRecord>, now: u64)
    requires
        unique_ids(s),
    ensures
        unique_ids(kept(s, now)),
    decreases s.len(),
{
    if s.len() > 0 {
        let t = s.drop_last();
        assert(unique_ids(t)) by {
            assert forall|i: int, j: int| 0 <= i < j < t.len() implies (#[trigger] t[i]).reporter_id@
                != (#[trigger] t[j]).reporter_id@ by {
                assert(t[i] == s[i] && t[j] == s[j]);
            }
        }
        lemma_kept_unique(t, now);
        lemma_kept_from(t, now);
        let k = kept(s, now);
        let kt = kept(t, now);
        if !is_stale(s.last().last_seen, now) {
            assert forall|i: int, j: int| 0 <= i < j < k.len() implies (#[trigger] k[i]).reporter_id@
                != (#[trigger] k[j]).reporter_id@ by {
                if j == k.len() - 1 {
                    assert(k[i] == kt[i]);
                    assert(!is_stale(kt[i].last_seen, now));
                    let a = choose|a: int| 0 <= a < t.len() && t[a] == kt[i];
                    assert(s[a] == t[a]);
                    assert(k[j] == s[s.len() - 1]);
                } else {
                    assert(k[i] == kt[i] && k[j] == kt[j]);
                }
            }
        }
    }
}

/// Sweeping twice at the same time removes nothing the second time.
pub proof fn lemma_sweep_idempotent(s: Seq<LivenessRecord>, now: u64)
    ensures
        kept(kept(s, now), now) == kept(s, now),
    decreases s.len(),
{
    if s.len() > 0 {
        let t = s.drop_last();
        lemma_sweep_idempotent(t, now);
        if !is_stale(s.last().last_seen, now) {
            let k = kept(s, now);
            assert(k.drop_last() == kept(t, now));
        }
    }
}

/// Reporter identity to last-seen time, one record per reporter.
pub struct LivenessTracker {
    records: Vec<LivenessRecord>,
}

impl View for LivenessTracker {
    type V = Seq<LivenessRecord>;

    closed spec fn view(&self) -> Seq<LivenessRecord> {
        self.records@
    }
}

impl LivenessTracker {
    pub open spec fn wf(&self) -> bool {
        unique_ids(self@)
    }

    pub fn new() -> (r: LivenessTracker)
        ensures
            r.wf(),
            r@ == Seq::<LivenessRecord>::empty(),
    {
        LivenessTracker { records: Vec::new() }
    }

    /// Records that `reporter_id` was heard from at `now`: its record is
    /// updated in place, or a new one is appended.
    pub fn touch(&mut self, reporter_id: String, now: u64)
        requires
            old(self).wf(),
        ensures
            final(self).wf(),
            final(self)@ == touched(old(self)@, reporter_id, now),
            has_id(old(self)@, reporter_id@) ==> exists|i: int|
                0 <= i < old(self)@.len() && (#[trigger] old(self)@[i]).reporter_id@ == reporter_id@
                    && final(self)@ == old(self)@.update(
                    i,
                    LivenessRecord { reporter_id, last_seen: now },
                ),
            !has_id(old(self)@, reporter_id@) ==> final(self)@ == old(self)@.push(
                LivenessRecord { reporter_id, last_seen: now },
            ),
    {
        let mut i: usize = 0;
        while i < self.records.len()
            invariant
                i <= self.records@.len(),
                self.records@ == old(self)@,
                unique_ids(old(self)@),
                forall|k: int| 0 <= k < i ==> (#[trigger] self.records@[k]).reporter_id@ != reporter_id@,
            decreases self.records@.len() - i,
        {
            if self.records[i].reporter_id == reporter_id {
                let ghost id = reporter_id@;
                assert(old(self)@[i as int].reporter_id@ == id);
                self.records.set(i, LivenessRecord { reporter_id, last_seen: now });
                assert(self@ == old(self)@.update(i as int, self@[i as int]));
                assert(has_id(old(self)@, id));
                let ghost c = choose|c: int|
                    0 <= c < old(self)@.len() && (#[trigger] old(self)@[c]).reporter_id@ == id;
                assert(c == i) by {
                    if c != i {
                        if c < i {
                            assert(old(self)@[c].reporter_id@ != old(self)@[i as int].reporter_id@);
                        } else {
                            assert(old(self)@[i as int].reporter_id@ != old(self)@[c].reporter_id@);
                        }
                    }
                }
                assert(unique_ids(self@)) by {
                    assert forall|a: int, b: int| 0 <= a < b < self@.len() implies (
                    #[trigger] self@[a]).reporter_id@ != (#[trigger] self@[b]).reporter_id@ by {
                        assert(unique_ids(old(self)@));
                        if a != i && b != i {
                            assert(self@[a] == old(self)@[a] && self@[b] == old(self)@[b]);
                        } else if a == i {
                            assert(self@[b] == old(self)@[b]);
                            assert(old(self)@[a].reporter_id@ != old(self)@[b].reporter_id@);
                        } else {
                            assert(self@[a] == old(self)@[a]);
                            assert(old(self)@[a].reporter_id@ != old(self)@[b].reporter_id@);
                        }
                    }
                }
                return;
            }
            i = i + 1;
        }
        self.records.push(LivenessRecord { reporter_id, last_seen: now });
        assert(unique_ids(self@)) by {
            assert forall|a: int, b: int| 0 <= a < b < self@.len() implies (
            #[trigger] self@[a]).reporter_id@ != (#[trigger] self@[b]).reporter_id@ by {
                assert(self@[a] == old(self)@[a]);
                if b < old(self)@.len() {
                    assert(self@[b] == old(self)@[b]);
                }
            }
        }
    }

    /// Removes every record that has timed out at `now` and returns how many
    /// were removed; the others stay, in their order.
    pub fn sweep(&mut self, now: u64) -> (removed: usize)
        requires
            old(self).wf(),
        ensures
            final(self).wf(),
            final(self)@ == kept(old(self)@, now),
            removed == old(self)@.len() - final(self)@.len(),
    {
        let mut fresh: Vec<LivenessRecord> = Vec::new();
        let mut i: usize = 0;
        while i < self.records.len()
            invariant
                i <= self.records@.len(),
                self.records@ == old(self)@,
                fresh@ == kept(self.records@.take(i as int), now),
            decreases self.records@.len() - i,
        {
            proof {
                assert(self.records@.take(i + 1).drop_last() == self.records@.take(i as int));
            }
            let r = &self.records[i];
            if now < r.last_seen || now - r.last_seen < LIVENESS_TIMEOUT {
                fresh.push(r.duplicate());
            }
            i = i + 1;
        }
        proof {
            assert(self.records@.take(self.records@.len() as int) == self.records@);
            lemma_kept_from(old(self)@, now);
            lemma_kept_unique(old(self)@, now);
        }
        let before = self.records.len();
        self.records = fresh;
        before - self.records.len()
    }

    /// The number of reporters currently tracked.
    pub fn active_count(&self) -> (r: usize)
        ensures
            r == self@.len(),
    {
        self.records.len()
    }
}

} // verus!
