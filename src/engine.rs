//! The single owner of the submission log and the liveness records.
use crate::liveness::{kept, touched, unique_ids, LivenessRecord, LivenessTracker};
use crate::decimal::DecimalPrice;
use crate::validator::{validate_decimal, validate_exact_spec, PriceRejection};
use crate::window::{compute, count_fresh, fresh_prices, is_median_of, Median, Submission};
use vstd::prelude::*;

verus! {

/// The most submissions the log holds.
pub const MAX_ENTRIES: usize = 100;

/// The most recent `MAX_ENTRIES` entries of `h`, in arrival order.
pub open spec fn latest(h: Seq<Submission>) -> Seq<Submission> {
    if h.len() > MAX_ENTRIES {
        h.subrange(h.len() - MAX_ENTRIES, h.len() as int)
    } else {
        h
    }
}

/// The consensus over the entries of a log that are fresh at some instant.
pub struct ConsensusResult {
    /// `None` when no entry is fresh.
    pub median: Option<Median>,
    /// The number of fresh entries.
    pub sample_count: usize,
    /// The instant the consensus was computed for, in Unix seconds.
    pub computed_at: u64,
}

/// `r` is the consensus over `log` at `now`.
pub open spec fn is_consensus_of(r: ConsensusResult, log: Seq<Submission>, now: u64) -> bool {
    &&& r.computed_at == now
    &&& r.sample_count == fresh_prices(log, now).len()
    &&& (r.median.is_some() <==> fresh_prices(log, now).len() > 0)
    &&& (r.median matches Some(m) ==> is_median_of(m, fresh_prices(log, now)))
}

/// The last `n` entries of `log` (or all of them if fewer), most recent first.
pub open spec fn is_recent_of(r: Seq<Submission>, log: Seq<Submission>, n: nat) -> bool {
    &&& r.len() == if n < log.len() { n } else { log.len() }
    &&& forall|i: int| 0 <= i < r.len() ==> r[i] == log[log.len() - 1 - i]
}

/// How many recent submissions a snapshot carries.
pub const SNAPSHOT_RECENT: usize = 10;

/// What a price query reports: the consensus and the latest submissions.
pub struct AggregatedSnapshot {
    pub consensus: ConsensusResult,
    /// At most `SNAPSHOT_RECENT` submissions, most recent first.
    pub recent: Vec<Submission>,
}

/// Submission log and reporter liveness.
pub struct AggregationStateEngine {
    log: Vec<Submission>,
    liveness: LivenessTracker,
}

impl AggregationStateEngine {
    /// The submissions held, oldest first.
    pub closed spec fn log(&self) -> Seq<Submission> {
        self.log@
    }

    /// The liveness records held.
    pub closed spec fn reporters(&self) -> Seq<LivenessRecord> {
        self.liveness@
    }

    pub closed spec fn wf(&self) -> bool {
        self.log@.len() <= MAX_ENTRIES && self.liveness.wf()
    }

    pub fn new() -> (r: AggregationStateEngine)
        ensures
            r.wf(),
            r.log() == Seq::<Submission>::empty(),
            r.reporters() == Seq::<LivenessRecord>::empty(),
            unique_ids(r.reporters()),
    {
        AggregationStateEngine { log: Vec::new(), liveness: LivenessTracker::new() }
    }

    /// Appends `sub` to the log, drops the oldest entry beyond `MAX_ENTRIES`,
    /// marks its reporter alive at `now`, removes the reporters that have timed
    /// out, and returns the consensus at `now`.
    pub fn submit(&mut self, sub: Submission, now: u64) -> (r: ConsensusResult)
        requires
            old(self).wf(),
        ensures
            final(self).wf(),
            unique_ids(final(self).reporters()),
            final(self).log() == latest(old(self).log().push(sub)),
            final(self).reporters() == kept(
                touched(old(self).reporters(), sub.reporter_id, now),
                now,
            ),
            is_consensus_of(r, final(self).log(), now),
    {
        let reporter_id = sub.reporter_id.clone();
        let ghost full = self.log@.push(sub);
        self.log.push(sub);
        if self.log.len() > MAX_ENTRIES {
            self.log.remove(0);
            assert(self.log@ == full.subrange(1, full.len() as int));
        }
        self.liveness.touch(reporter_id, now);
        self.liveness.sweep(now);
        self.current_consensus(now)
    }

    /// Checks a price read from text before anything changes: one that is not
    /// above zero is refused and the engine is left as it was; any other is
    /// submitted at its value rounded to cents.
    pub fn submit_validated(
        &mut self,
        price: DecimalPrice,
        observed_at: u64,
        source: String,
        reporter_id: String,
        now: u64,
    ) -> (r: Result<ConsensusResult, PriceRejection>)
        requires
            old(self).wf(),
            price.wf(),
        ensures
            final(self).wf(),
            unique_ids(final(self).reporters()),
            validate_exact_spec(price) matches Err(e) ==> r == Err::<ConsensusResult, PriceRejection>(
                e,
            ) && *final(self) == *old(self),
            validate_exact_spec(price).is_ok() ==> {
                let sub = Submission {
                    price: price.cents as u64,
                    observed_at,
                    source,
                    reporter_id,
                };
                &&& final(self).log() == latest(old(self).log().push(sub))
                &&& final(self).reporters() == kept(
                    touched(old(self).reporters(), reporter_id, now),
                    now,
                )
                &&& r matches Ok(c) && is_consensus_of(c, final(self).log(), now)
            },
    {
        if let Err(e) = validate_decimal(price) {
            return Err(e);
        }
        let sub = Submission::new(price.cents as u64, observed_at, source, reporter_id);
        Ok(self.submit(sub, now))
    }

    /// The consensus at `now` together with the `SNAPSHOT_RECENT` latest
    /// submissions; nothing is changed.
    pub fn snapshot(&self, now: u64) -> (r: AggregatedSnapshot)
        ensures
            is_consensus_of(r.consensus, self.log(), now),
            is_recent_of(r.recent@, self.log(), SNAPSHOT_RECENT as nat),
    {
        AggregatedSnapshot { consensus: self.current_consensus(now), recent: self.recent(SNAPSHOT_RECENT) }
    }

    /// The consensus over the log at `now`; the log and the liveness records
    /// are left as they are.
    pub fn current_consensus(&self, now: u64) -> (r: ConsensusResult)
        ensures
            is_consensus_of(r, self.log(), now),
    {
        let median = compute(&self.log, now);
        let sample_count = count_fresh(&self.log, now);
        ConsensusResult { median, sample_count, computed_at: now }
    }

    /// Copies of up to `n` of the most recent submissions, most recent first.
    pub fn recent(&self, n: usize) -> (r: Vec<Submission>)
        ensures
            is_recent_of(r@, self.log(), n as nat),
    {
        let mut out: Vec<Submission> = Vec::new();
        let len = self.log.len();
        let mut i: usize = 0;
        while i < n && i < len
            invariant
                len == self.log@.len(),
                i <= n,
                i <= len,
                out@.len() == i,
                forall|k: int| 0 <= k < i ==> out@[k] == self.log@[len - 1 - k],
            decreases len - i,
        {
            out.push(self.log[len - 1 - i].duplicate());
            i = i + 1;
        }
        out
    }

    /// The number of reporters currently considered alive.
    pub fn health(&self) -> (r: usize)
        ensures
            r == self.reporters().len(),
    {
        self.liveness.active_count()
    }
}

/// If the log holds the latest entries of a history, then after one more
/// submission it holds the latest entries of the history extended by it: the
/// log never exceeds `MAX_ENTRIES` and keeps the newest ones in arrival order.
pub proof fn lemma_log_keeps_latest(history: Seq<Submission>, sub: Submission)
    ensures
        latest(latest(history).push(sub)) == latest(history.push(sub)),
        latest(history.push(sub)).len() <= MAX_ENTRIES,
{
    let h = history.push(sub);
    if history.len() > MAX_ENTRIES {
        assert(latest(history).push(sub).subrange(1, MAX_ENTRIES + 1) =~= h.subrange(
            h.len() - MAX_ENTRIES,
            h.len() as int,
        ));
    } else if history.len() == MAX_ENTRIES {
        assert(latest(history).push(sub) == h);
    }
}

} // verus!
