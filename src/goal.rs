use vstd::prelude::*;

use crate::compare::Compare;
use crate::keymap::{keys_sorted, OrderedMap};

verus! {

/// A conjunction of requirements, one comparison per key.
#[derive(Clone, Debug, PartialEq, Eq, Hash)]
pub struct Goal {
    pub requirements: OrderedMap<Compare>,
}

impl Goal {
    /// The requirements as (key, comparison) pairs in key order.
    pub open spec fn reqs(self) -> Seq<(Seq<char>, Compare)> {
        self.requirements.entries_view()
    }

    /// The requirements as a map from key to comparison.
    pub open spec fn req_map(self) -> Map<Seq<char>, Compare> {
        self.requirements.map_view()
    }

    /// Makes the ordering of the requirement keys known to the caller's proof.
    pub fn reveal_sorted(&self)
        ensures
            keys_sorted(self.reqs()),
    {
        self.requirements.reveal_sorted();
    }

    pub fn new() -> (r: Goal)
        ensures
            r.reqs().len() == 0,
            r.req_map() == Map::<Seq<char>, Compare>::empty(),
    {
        Goal { requirements: OrderedMap::new() }
    }

    /// The goal with `compare` required of `key`, replacing an earlier requirement on it.
    pub fn with_req(self, key: &str, compare: Compare) -> (r: Goal)
        ensures
            r.req_map() == self.req_map().insert(key@, compare),
    {
        let mut g = self;
        g.requirements.insert(key, compare);
        g
    }

    /// A goal from a list of requirements; a later pair on a key replaces an earlier one.
    pub fn from_reqs(preconditions: &[(String, Compare)]) -> (r: Goal)
        ensures
            forall|k: Seq<char>| #[trigger] r.req_map().contains_key(k) <==> exists|i: int|
                0 <= i < preconditions@.len() && preconditions@[i].0@ == k,
            forall|i: int|
                0 <= i < preconditions@.len() && (forall|j: int|
                    i < j < preconditions@.len() ==> preconditions@[j].0@ != preconditions@[i].0@)
                    ==> r.req_map()[#[trigger] preconditions@[i].0@] == preconditions@[i].1,
    {
        let mut goal = Goal::new();
        let n = preconditions.len();
        let mut i: usize = 0;
        while i < n
            invariant
                n == preconditions@.len(),
                i <= n,
                forall|k: Seq<char>| #[trigger] goal.req_map().contains_key(k) <==> exists|j: int|
                    0 <= j < i && preconditions@[j].0@ == k,
                forall|j: int|
                    0 <= j < i && (forall|m: int|
                        j < m < i ==> preconditions@[m].0@ != preconditions@[j].0@)
                        ==> goal.req_map()[#[trigger] preconditions@[j].0@] == preconditions@[j].1,
            decreases n - i,
        {
            let ghost before = goal.req_map();
            goal = goal.with_req(preconditions[i].0.as_str(), preconditions[i].1);
            proof {
                assert forall|k: Seq<char>| #[trigger] goal.req_map().contains_key(k) <==> exists|j: int|
                    0 <= j < i + 1 && preconditions@[j].0@ == k by {
                    if k == preconditions@[i as int].0@ {
                        assert(0 <= i < i + 1 && preconditions@[i as int].0@ == k);
                    }
                    if exists|j: int| 0 <= j < i + 1 && preconditions@[j].0@ == k {
                        let j = choose|j: int| 0 <= j < i + 1 && preconditions@[j].0@ == k;
                        if j < i {
                            assert(before.contains_key(k));
                        }
                    }
                }
            }
            i = i + 1;
        }
        goal
    }
}

impl Default for Goal {
    fn default() -> (r: Goal)
        ensures
            r.req_map() == Map::<Seq<char>, Compare>::empty(),
    {
        Goal::new()
    }
}

} // verus!
