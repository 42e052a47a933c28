use vstd::prelude::*;

use crate::compare::{compare_value, Compare};
use crate::datum::{datum_distance, same_variant, Datum};
use crate::goal::Goal;
use crate::keymap::OrderedMap;

verus! {

/// The distance that one goal requirement contributes: the distance from the
/// state's value to the requirement's value, and 1 where the key is missing or
/// holds another variant.
pub open spec fn requirement_distance(s: Map<Seq<char>, Datum>, req: (Seq<char>, Compare)) -> nat {
    if !s.contains_key(req.0) {
        1
    } else if !same_variant(s[req.0], compare_value(req.1)) {
        1
    } else {
        datum_distance(s[req.0], compare_value(req.1))
    }
}

/// The sum of the requirements' distances.
pub open spec fn goal_distance(s: Map<Seq<char>, Datum>, reqs: Seq<(Seq<char>, Compare)>) -> nat
    decreases reqs.len(),
{
    if reqs.len() == 0 {
        0
    } else {
        goal_distance(s, reqs.drop_last()) + requirement_distance(s, reqs.last())
    }
}

/// A world state: a map from string keys to values.
#[derive(Clone, Debug, PartialEq, Eq, Hash)]
pub struct LocalState {
    pub data: OrderedMap<Datum>,
}

impl View for LocalState {
    type V = Map<Seq<char>, Datum>;

    open spec fn view(&self) -> Map<Seq<char>, Datum> {
        self.data.map_view()
    }
}

impl LocalState {
    pub fn new() -> (r: LocalState)
        ensures
            r@ == Map::<Seq<char>, Datum>::empty(),
    {
        LocalState { data: OrderedMap::new() }
    }

    /// The state with `value` stored under `key`.
    pub fn with_datum(self, key: &str, value: Datum) -> (r: LocalState)
        ensures
            r@ == self@.insert(key@, value),
    {
        let mut s = self;
        s.data.insert(key, value);
        s
    }

    /// Stores `value` under `key`.
    pub fn set(&mut self, key: &str, value: Datum)
        ensures
            final(self)@ == old(self)@.insert(key@, value),
    {
        self.data.insert(key, value);
    }

    /// The value stored under `key`.
    pub fn get(&self, key: &str) -> (r: Option<Datum>)
        ensures
            r == if self@.contains_key(key@) {
                Some(self@[key@])
            } else {
                None::<Datum>
            },
    {
        self.data.get(key)
    }

    /// A copy of the state.
    pub fn duplicate(&self) -> (r: LocalState)
        ensures
            r@ == self@,
    {
        LocalState { data: self.data.duplicate() }
    }

    /// Sum over the goal's requirements of the distance from this state to the
    /// requirement's value (1 for a missing key), saturating at `u64::MAX`.
    pub fn distance_to_goal(&self, goal: &Goal) -> (r: u64)
        ensures
            r == if goal_distance(self@, goal.reqs()) <= u64::MAX {
                goal_distance(self@, goal.reqs())
            } else {
                u64::MAX as nat
            },
    {
        let n = goal.requirements.len();
        let mut total: u64 = 0;
        let mut i: usize = 0;
        while i < n
            invariant
                n == goal.reqs().len(),
                i <= n,
                total == if goal_distance(self@, goal.reqs().take(i as int)) <= u64::MAX {
                    goal_distance(self@, goal.reqs().take(i as int))
                } else {
                    u64::MAX as nat
                },
            decreases n - i,
        {
            let key = goal.requirements.key_at(i);
            let target = goal.requirements.value_at(i).value();
            let d: u64 = match self.get(key.as_str()) {
                Some(v) => if v.same_variant_as(&target) { v.distance(&target) } else { 1 },
                None => 1,
            };
            proof {
                let t = goal.reqs().take(i as int + 1);
                assert(t.drop_last() =~= goal.reqs().take(i as int));
                assert(t.last() == goal.reqs()[i as int]);
                assert(d == requirement_distance(self@, t.last()));
            }
            total = total.saturating_add(d);
            i = i + 1;
        }
        assert(goal.reqs().take(n as int) =~= goal.reqs());
        total
    }
}

impl Default for LocalState {
    fn default() -> (r: LocalState)
        ensures
            r@ == Map::<Seq<char>, Datum>::empty(),
    {
        LocalState::new()
    }
}

} // verus!
