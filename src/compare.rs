use vstd::prelude::*;

use crate::action::Action;
use crate::datum::{datum_le, Datum};
use crate::state::LocalState;

verus! {

/// A predicate over one value: used in preconditions and goals.
#[derive(Clone, Copy, Debug, PartialEq, Eq, Structural, Hash)]
pub enum Compare {
    Equals(Datum),
    NotEquals(Datum),
    GreaterThanEquals(Datum),
    LessThanEquals(Datum),
}

/// The value embedded in a comparison.
pub open spec fn compare_value(c: Compare) -> Datum {
    match c {
        Compare::Equals(d) => d,
        Compare::NotEquals(d) => d,
        Compare::GreaterThanEquals(d) => d,
        Compare::LessThanEquals(d) => d,
    }
}

/// `value` meets the comparison.
pub open spec fn satisfies(c: Compare, value: Datum) -> bool {
    match c {
        Compare::Equals(d) => value == d,
        Compare::NotEquals(d) => value != d,
        Compare::GreaterThanEquals(d) => datum_le(d, value),
        Compare::LessThanEquals(d) => datum_le(value, d),
    }
}

/// A list of (key, comparison) pairs with the keys as character sequences.
pub open spec fn pairs_view(v: Seq<(String, Compare)>) -> Seq<(Seq<char>, Compare)> {
    v.map_values(|p: (String, Compare)| (p.0@, p.1))
}

/// Every pair holds in `s`: its key is present and its value meets the comparison.
pub open spec fn all_hold(s: Map<Seq<char>, Datum>, reqs: Seq<(Seq<char>, Compare)>) -> bool {
    forall|i: int|
        0 <= i < reqs.len() ==> s.contains_key(#[trigger] reqs[i].0) && satisfies(
            reqs[i].1,
            s[reqs[i].0],
        )
}

impl Compare {
    pub fn value(&self) -> (r: Datum)
        ensures
            r == compare_value(*self),
    {
        match self {
            Compare::Equals(d) => *d,
            Compare::NotEquals(d) => *d,
            Compare::GreaterThanEquals(d) => *d,
            Compare::LessThanEquals(d) => *d,
        }
    }
}

/// Whether `value` meets `comparison`.
pub fn compare_values(comparison: &Compare, value: &Datum) -> (r: bool)
    ensures
        r == satisfies(*comparison, *value),
{
    match comparison {
        Compare::Equals(v) => value.equals(v),
        Compare::NotEquals(v) => !value.equals(v),
        Compare::GreaterThanEquals(v) => value.ge(v),
        Compare::LessThanEquals(v) => value.le(v),
    }
}

/// Whether each (key, comparison) pair holds in `state`, in order; a key that
/// the state lacks fails its pair.
pub fn check_pairs(state: &LocalState, pairs: &Vec<(String, Compare)>) -> (r: bool)
    ensures
        r == all_hold(state@, pairs_view(pairs@)),
{
    let n = pairs.len();
    let mut i: usize = 0;
    while i < n
        invariant
            n == pairs@.len(),
            i <= n,
            forall|j: int|
                0 <= j < i ==> state@.contains_key(#[trigger] pairs_view(pairs@)[j].0)
                    && satisfies(pairs_view(pairs@)[j].1, state@[pairs_view(pairs@)[j].0]),
        decreases n - i,
    {
        let (key, cmp) = (&pairs[i].0, &pairs[i].1);
        match state.get(key.as_str()) {
            Some(v) => {
                if !compare_values(cmp, &v) {
                    assert(!all_hold(state@, pairs_view(pairs@))) by {
                        assert(pairs_view(pairs@)[i as int].0 == key@);
                    }
                    return false;
                }
            },
            None => {
                assert(!all_hold(state@, pairs_view(pairs@))) by {
                    assert(pairs_view(pairs@)[i as int].0 == key@);
                }
                return false;
            },
        }
        i = i + 1;
    }
    true
}

/// Whether all of the action's preconditions hold in `state`. An empty list holds.
pub fn check_preconditions(state: &LocalState, action: &Action) -> (r: bool)
    ensures
        r == all_hold(state@, pairs_view(action.preconditions@)),
{
    check_pairs(state, &action.preconditions)
}

} // verus!
