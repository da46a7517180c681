//! Median consensus over the submissions that are still fresh.
use vstd::prelude::*;
use vstd::seq_lib::{to_multiset_build, to_multiset_insert};

verus! {

/// Seconds during which a submission counts toward consensus.
pub const FRESHNESS_WINDOW: u64 = 60;

/// One observed price report. `price` is in integer minor units (cents).
pub struct Submission {
    pub price: u64,
    /// Unix seconds supplied by the reporter.
    pub observed_at: u64,
    pub source: String,
    pub reporter_id: String,
}

impl Submission {
    pub fn new(price: u64, observed_at: u64, source: String, reporter_id: String) -> (r: Submission)
        ensures
            r.price == price,
            r.observed_at == observed_at,
            r.source == source,
            r.reporter_id == reporter_id,
    {
        Submission { price, observed_at, source, reporter_id }
    }

    /// A field-for-field copy.
    pub fn duplicate(&self) -> (r: Submission)
        ensures
            r == *self,
    {
        Submission {
            price: self.price,
            observed_at: self.observed_at,
            source: self.source.clone(),
            reporter_id: self.reporter_id.clone(),
        }
    }
}

/// The two middle elements of the sorted fresh prices; they coincide when the
/// count is odd, and the consensus value is their mean.
#[derive(Clone, Copy, Debug, PartialEq, Eq, Structural)]
pub struct Median {
    pub lower: u64,
    pub upper: u64,
}

impl Median {
    /// Twice the consensus value, which is always an integer.
    pub open spec fn twice_value(self) -> int {
        self.lower + self.upper
    }

    /// The consensus value rounded down.
    pub fn floor_value(&self) -> (r: u64)
        ensures
            r as int == self.twice_value() / 2,
    {
        self.lower / 2 + self.upper / 2 + (self.lower % 2 + self.upper % 2) / 2
    }

    /// Whether the consensus value has a fractional half.
    pub fn has_half(&self) -> (r: bool)
        ensures
            r == (self.twice_value() % 2 == 1),
    {
        self.lower % 2 != self.upper % 2
    }
}

/// A submission observed at `observed_at` is fresh at `now` when less than
/// `FRESHNESS_WINDOW` seconds separate them.
pub open spec fn is_fresh(observed_at: u64, now: u64) -> bool {
    (now as int) - (observed_at as int) < FRESHNESS_WINDOW as int
}

/// The prices of the fresh entries, in log order.
pub open spec fn fresh_prices(entries: Seq<Submission>, now: u64) -> Seq<u64>
    decreases entries.len(),
{
    if entries.len() == 0 {
        Seq::empty()
    } else {
        let rest = fresh_prices(entries.drop_last(), now);
        if is_fresh(entries.last().observed_at, now) {
            rest.push(entries.last().price)
        } else {
            rest
        }
    }
}

pub open spec fn is_sorted(s: Seq<u64>) -> bool {
    forall|i: int, j: int| 0 <= i <= j < s.len() ==> s[i] <= s[j]
}

/// `s` is `p` in ascending order.
pub open spec fn is_sorted_of(s: Seq<u64>, p: Seq<u64>) -> bool {
    is_sorted(s) && s.len() == p.len() && s.to_multiset() == p.to_multiset()
}

/// `m` holds the middle element(s) of `p` sorted ascending: the element at
/// `(n - 1) / 2` and the one at `n / 2`, which are the same when `n` is odd.
pub open spec fn is_median_of(m: Median, p: Seq<u64>) -> bool {
    p.len() > 0 && exists|s: Seq<u64>|
        #![trigger is_sorted_of(s, p)]
        is_sorted_of(s, p) && m.lower == s[(p.len() - 1) / 2] && m.upper == s[p.len() as int / 2]
}

pub proof fn lemma_fresh_prices_empty(entries: Seq<Submission>, now: u64)
    ensures
        fresh_prices(entries, now).len() == 0 <==> forall|i: int|
            0 <= i < entries.len() ==> !is_fresh(#[trigger] entries[i].observed_at, now),
    decreases entries.len(),
{
    if entries.len() > 0 {
        lemma_fresh_prices_empty(entries.drop_last(), now);
        assert(forall|i: int| 0 <= i < entries.len() - 1 ==> entries.drop_last()[i] == entries[i]);
        if fresh_prices(entries, now).len() == 0 {
            assert forall|i: int| 0 <= i < entries.len() implies !is_fresh(
                #[trigger] entries[i].observed_at,
                now,
            ) by {
                if i < entries.len() - 1 {
                    assert(entries.drop_last()[i] == entries[i]);
                }
            }
        }
    }
}

fn is_fresh_exec(observed_at: u64, now: u64) -> (r: bool)
    ensures
        r == is_fresh(observed_at, now),
{
    if now < observed_at {
        true
    } else {
        now - observed_at < FRESHNESS_WINDOW
    }
}

/// The number of entries fresh at `now`.
pub fn count_fresh(entries: &Vec<Submission>, now: u64) -> (r: usize)
    ensures
        r == fresh_prices(entries@, now).len(),
{
    let mut c: usize = 0;
    let mut i: usize = 0;
    while i < entries.len()
        invariant
            i <= entries.len(),
            c == fresh_prices(entries@.take(i as int), now).len(),
            c <= i,
        decreases entries.len() - i,
    {
        proof {
            assert(entries@.take(i + 1).drop_last() == entries@.take(i as int));
        }
        if is_fresh_exec(entries[i].observed_at, now) {
            c = c + 1;
        }
        i = i + 1;
    }
    proof {
        assert(entries@.take(entries@.len() as int) == entries@);
    }
    c
}

/// Inserts `x` into the sorted vector `v`, keeping it sorted.
fn insert_sorted(v: &mut Vec<u64>, x: u64)
    requires
        is_sorted(old(v)@),
    ensures
        is_sorted(final(v)@),
        final(v)@.len() == old(v)@.len() + 1,
        final(v)@.to_multiset() == old(v)@.to_multiset().insert(x),
{
    let mut i: usize = 0;
    while i < v.len() && v[i] < x
        invariant
            i <= v.len(),
            v@ == old(v)@,
            forall|k: int| 0 <= k < i ==> v@[k] < x,
        decreases v.len() - i,
    {
        i = i + 1;
    }
    proof {
        to_multiset_insert(v@, i as int, x);
    }
    v.insert(i, x);
}

/// The median of the prices fresh at `now`, or `None` when no entry is fresh.
pub fn compute(entries: &Vec<Submission>, now: u64) -> (r: Option<Median>)
    ensures
        r.is_some() <==> fresh_prices(entries@, now).len() > 0,
        r.is_none() <==> forall|i: int|
            0 <= i < entries@.len() ==> !is_fresh(#[trigger] entries@[i].observed_at, now),
        r matches Some(m) ==> is_median_of(m, fresh_prices(entries@, now)),
{
    let mut sorted: Vec<u64> = Vec::new();
    let mut i: usize = 0;
    while i < entries.len()
        invariant
            i <= entries.len(),
            is_sorted(sorted@),
            sorted@.len() == fresh_prices(entries@.take(i as int), now).len(),
            sorted@.to_multiset() == fresh_prices(entries@.take(i as int), now).to_multiset(),
        decreases entries.len() - i,
    {
        let e = &entries[i];
        proof {
            assert(entries@.take(i + 1).drop_last() == entries@.take(i as int));
            to_multiset_build(fresh_prices(entries@.take(i as int), now), e.price);
        }
        if is_fresh_exec(e.observed_at, now) {
            insert_sorted(&mut sorted, e.price);
        }
        i = i + 1;
    }
    proof {
        assert(entries@.take(entries@.len() as int) == entries@);
        lemma_fresh_prices_empty(entries@, now);
    }
    let n = sorted.len();
    if n == 0 {
        None
    } else {
        let m = Median { lower: sorted[(n - 1) / 2], upper: sorted[n / 2] };
        assert(is_sorted_of(sorted@, fresh_prices(entries@, now)));
        Some(m)
    }
}

} // verus!
