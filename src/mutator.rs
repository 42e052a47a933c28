use vstd::prelude::*;

use crate::datum::{can_add, can_sub, datum_int, Datum};
use crate::state::LocalState;

verus! {

/// A change to one key of a state.
#[derive(Clone, Debug, PartialEq, Eq, Hash)]
pub enum Mutator {
    /// Stores the value under the key.
    Assign(String, Datum),
    /// Adds the value to the integer under the key.
    Increment(String, Datum),
    /// Subtracts the value from the integer under the key.
    Decrement(String, Datum),
}

pub open spec fn mutator_key(m: Mutator) -> Seq<char> {
    match m {
        Mutator::Assign(k, _) => k@,
        Mutator::Increment(k, _) => k@,
        Mutator::Decrement(k, _) => k@,
    }
}

pub open spec fn mutator_value(m: Mutator) -> Datum {
    match m {
        Mutator::Assign(_, d) => d,
        Mutator::Increment(_, d) => d,
        Mutator::Decrement(_, d) => d,
    }
}

/// The mutator can be applied to `s`: a set always can; an increment or a
/// decrement of a missing key does nothing, and of a present one needs two
/// integers whose result fits in an `i64`.
pub open spec fn mutator_applies(s: Map<Seq<char>, Datum>, m: Mutator) -> bool {
    match m {
        Mutator::Assign(_, _) => true,
        Mutator::Increment(k, d) => !s.contains_key(k@) || can_add(s[k@], d),
        Mutator::Decrement(k, d) => !s.contains_key(k@) || can_sub(s[k@], d),
    }
}

/// The state after applying the mutator.
pub open spec fn apply_spec(s: Map<Seq<char>, Datum>, m: Mutator) -> Map<Seq<char>, Datum> {
    match m {
        Mutator::Assign(k, d) => s.insert(k@, d),
        Mutator::Increment(k, d) => if s.contains_key(k@) {
            s.insert(k@, Datum::I64((datum_int(s[k@]) + datum_int(d)) as i64))
        } else {
            s
        },
        Mutator::Decrement(k, d) => if s.contains_key(k@) {
            s.insert(k@, Datum::I64((datum_int(s[k@]) - datum_int(d)) as i64))
        } else {
            s
        },
    }
}

/// The state after applying the mutators in order.
pub open spec fn apply_all(s: Map<Seq<char>, Datum>, ms: Seq<Mutator>) -> Map<Seq<char>, Datum>
    decreases ms.len(),
{
    if ms.len() == 0 {
        s
    } else {
        apply_spec(apply_all(s, ms.drop_last()), ms.last())
    }
}

/// Each mutator applies to the state that the ones before it produced.
pub open spec fn all_apply(s: Map<Seq<char>, Datum>, ms: Seq<Mutator>) -> bool
    decreases ms.len(),
{
    if ms.len() == 0 {
        true
    } else {
        all_apply(s, ms.drop_last()) && mutator_applies(apply_all(s, ms.drop_last()), ms.last())
    }
}

impl Mutator {
    /// A copy of the mutator.
    pub fn duplicate(&self) -> (r: Mutator)
        ensures
            r == *self,
    {
        match self {
            Mutator::Assign(k, d) => Mutator::Assign(k.clone(), *d),
            Mutator::Increment(k, d) => Mutator::Increment(k.clone(), *d),
            Mutator::Decrement(k, d) => Mutator::Decrement(k.clone(), *d),
        }
    }
}

/// A copy of a list of mutators.
pub fn copy_mutators(ms: &Vec<Mutator>) -> (r: Vec<Mutator>)
    ensures
        r@ == ms@,
{
    let mut out: Vec<Mutator> = Vec::new();
    let n = ms.len();
    let mut i: usize = 0;
    while i < n
        invariant
            n == ms@.len(),
            i <= n,
            out@ == ms@.take(i as int),
        decreases n - i,
    {
        out.push(ms[i].duplicate());
        i = i + 1;
        assert(out@ =~= ms@.take(i as int));
    }
    assert(ms@.take(n as int) =~= ms@);
    out
}

/// Whether the mutator can be applied to `state` (see `mutator_applies`).
pub fn mutator_can_apply(state: &LocalState, m: &Mutator) -> (r: bool)
    ensures
        r == mutator_applies(state@, *m),
{
    match m {
        Mutator::Assign(_, _) => true,
        Mutator::Increment(k, d) => match state.get(k.as_str()) {
            None => true,
            Some(Datum::I64(x)) => match d {
                Datum::I64(y) => x.checked_add(*y).is_some(),
                _ => false,
            },
            Some(_) => false,
        },
        Mutator::Decrement(k, d) => match state.get(k.as_str()) {
            None => true,
            Some(Datum::I64(x)) => match d {
                Datum::I64(y) => x.checked_sub(*y).is_some(),
                _ => false,
            },
            Some(_) => false,
        },
    }
}

/// Applies one mutator in place. A set stores its value; an increment or a
/// decrement changes the integer under a present key and leaves a missing key alone.
pub fn apply_mutator(state: &mut LocalState, m: &Mutator)
    requires
        mutator_applies(old(state)@, *m),
    ensures
        final(state)@ == apply_spec(old(state)@, *m),
{
    match m {
        Mutator::Assign(k, d) => {
            state.set(k.as_str(), *d);
        },
        Mutator::Increment(k, d) => {
            if let Some(mut v) = state.get(k.as_str()) {
                v.add_assign(*d);
                state.set(k.as_str(), v);
            }
        },
        Mutator::Decrement(k, d) => {
            if let Some(mut v) = state.get(k.as_str()) {
                v.sub_assign(*d);
                state.set(k.as_str(), v);
            }
        },
    }
}

/// The state after applying the mutators in order, or `None` where one of them
/// cannot be applied; `state` itself is left as it was.
pub fn apply_mutators(state: &LocalState, ms: &Vec<Mutator>) -> (r: Option<LocalState>)
    ensures
        r is Some <==> all_apply(state@, ms@),
        r matches Some(t) ==> t@ == apply_all(state@, ms@),
{
    let mut cur = state.duplicate();
    let n = ms.len();
    let mut i: usize = 0;
    while i < n
        invariant
            n == ms@.len(),
            i <= n,
            all_apply(state@, ms@.take(i as int)),
            cur@ == apply_all(state@, ms@.take(i as int)),
        decreases n - i,
    {
        proof {
            let t = ms@.take(i as int + 1);
            assert(t.drop_last() =~= ms@.take(i as int));
        }
        if !mutator_can_apply(&cur, &ms[i]) {
            proof {
                if all_apply(state@, ms@) {
                    lemma_all_apply_prefix(state@, ms@, i as int + 1);
                }
            }
            return None;
        }
        apply_mutator(&mut cur, &ms[i]);
        i = i + 1;
    }
    assert(ms@.take(n as int) =~= ms@);
    Some(cur)
}

/// A list of mutators applies only if each of its prefixes does.
pub proof fn lemma_all_apply_prefix(s: Map<Seq<char>, Datum>, ms: Seq<Mutator>, k: int)
    requires
        0 <= k <= ms.len(),
        all_apply(s, ms),
    ensures
        all_apply(s, ms.take(k)),
    decreases ms.len(),
{
    if k < ms.len() {
        assert(ms.drop_last().take(k) =~= ms.take(k));
        lemma_all_apply_prefix(s, ms.drop_last(), k);
    } else {
        assert(ms.take(k) =~= ms);
    }
}

} // verus!
