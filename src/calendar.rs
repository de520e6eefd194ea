use vstd::prelude::*;
use std::collections::HashMap;

verus! {

broadcast use vstd::std_specs::hash::group_hash_axioms;

/// The number of commits that a day-to-count mapping gives a day: 0 where it holds none.
pub open spec fn count_spec(m: Map<i64, u64>, day: int) -> nat {
    if m.contains_key(day as i64) {
        m[day as i64] as nat
    } else {
        0
    }
}

/// The mapping after one more commit on `day`; a count stays at `u64::MAX` once there.
pub open spec fn bump_spec(m: Map<i64, u64>, day: i64) -> Map<i64, u64> {
    if m.contains_key(day) {
        m.insert(day, if m[day] < u64::MAX { (m[day] + 1) as u64 } else { m[day] })
    } else {
        m.insert(day, 1)
    }
}

/// Number of commits per day, for the days that have at least one.
pub struct Calendar {
    counts: HashMap<i64, u64>,
}

impl View for Calendar {
    type V = Map<i64, u64>;

    closed spec fn view(&self) -> Map<i64, u64> {
        self.counts@
    }
}

impl Calendar {
    /// Every day held has a count of at least one.
    pub closed spec fn wf(&self) -> bool {
        forall|d: i64| #[trigger] self.counts@.contains_key(d) ==> self.counts@[d] >= 1
    }

    /// A calendar without any commit.
    pub fn new() -> (r: Calendar)
        ensures
            r@ == Map::<i64, u64>::empty(),
            r.wf(),
    {
        Calendar { counts: HashMap::new() }
    }

    /// The number of commits recorded on `day`.
    pub fn count(&self, day: i64) -> (r: u64)
        ensures
            r == count_spec(self@, day as int),
    {
        match self.counts.get(&day) {
            Some(v) => *v,
            None => 0,
        }
    }

    /// Records one more commit on `day`.
    pub fn record(&mut self, day: i64)
        requires
            old(self).wf(),
        ensures
            final(self)@ == bump_spec(old(self)@, day),
            final(self).wf(),
    {
        let next: u64 = match self.counts.get(&day) {
            Some(v) => if *v < u64::MAX { *v + 1 } else { *v },
            None => 1,
        };
        self.counts.insert(day, next);
    }
}

} // verus!
