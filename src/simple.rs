use vstd::prelude::*;

use crate::action::Action;
use crate::compare::Compare;
use crate::datum::Datum;
use crate::effect::Effect;
use crate::mutator::{mutator_key, mutator_value, Mutator};
use crate::state::LocalState;

verus! {

/// `a` has the name `name`, no preconditions, and one effect of that name at
/// cost 1 with an empty state and the given mutators.
pub open spec fn is_simple_action(a: Action, name: Seq<char>, ms: Seq<Mutator>) -> bool {
    &&& a.key@ == name
    &&& a.preconditions@.len() == 0
    &&& a.effects@.len() == 1
    &&& a.effects@[0].action@ == name
    &&& a.effects@[0].cost == 1
    &&& a.effects@[0].state@.len() == 0
    &&& a.effects@[0].mutators@ == ms
}

fn single_effect_action(name: &str, mutators: Vec<Mutator>) -> (r: Action)
    ensures
        is_simple_action(r, name@, mutators@),
{
    let effect = Effect { action: name.to_owned(), mutators, state: LocalState::new(), cost: 1 };
    let mut effects: Vec<Effect> = Vec::new();
    effects.push(effect);
    Action { key: name.to_owned(), preconditions: Vec::new(), effects }
}

/// An action that stores `from_value` under `key_to_mutate`.
pub fn simple_action(name: &str, key_to_mutate: &str, from_value: Datum) -> (r: Action)
    ensures
        r.effects@.len() == 1,
        is_simple_action(r, name@, r.effects@[0].mutators@),
        r.effects@[0].mutators@.len() == 1,
        r.effects@[0].mutators@[0] is Assign,
        mutator_key(r.effects@[0].mutators@[0]) == key_to_mutate@,
        mutator_value(r.effects@[0].mutators@[0]) == from_value,
{
    let mut ms: Vec<Mutator> = Vec::new();
    ms.push(Mutator::Assign(key_to_mutate.to_owned(), from_value));
    single_effect_action(name, ms)
}

/// An action that stores each value under its key, in order.
pub fn simple_multi_mutate_action(name: &str, muts: Vec<(&str, Datum)>) -> (r: Action)
    ensures
        r.effects@.len() == 1,
        is_simple_action(r, name@, r.effects@[0].mutators@),
        r.effects@[0].mutators@.len() == muts@.len(),
        forall|i: int| 0 <= i < muts@.len() ==> (#[trigger] r.effects@[0].mutators@[i]) is Assign
            && mutator_key(r.effects@[0].mutators@[i]) == muts@[i].0@
            && mutator_value(r.effects@[0].mutators@[i]) == muts@[i].1,
{
    let mut ms: Vec<Mutator> = Vec::new();
    let n = muts.len();
    let mut i: usize = 0;
    while i < n
        invariant
            n == muts@.len(),
            i <= n,
            ms@.len() == i,
            forall|j: int| 0 <= j < i ==> (#[trigger] ms@[j]) is Assign
                && mutator_key(ms@[j]) == muts@[j].0@
                && mutator_value(ms@[j]) == muts@[j].1,
        decreases n - i,
    {
        ms.push(Mutator::Assign(muts[i].0.to_owned(), muts[i].1));
        i = i + 1;
    }
    single_effect_action(name, ms)
}

/// An action that adds `from_value` to the integer under `key_to_mutate`.
pub fn simple_increment_action(name: &str, key_to_mutate: &str, from_value: Datum) -> (r: Action)
    ensures
        r.effects@.len() == 1,
        is_simple_action(r, name@, r.effects@[0].mutators@),
        r.effects@[0].mutators@.len() == 1,
        r.effects@[0].mutators@[0] is Increment,
        mutator_key(r.effects@[0].mutators@[0]) == key_to_mutate@,
        mutator_value(r.effects@[0].mutators@[0]) == from_value,
{
    let mut ms: Vec<Mutator> = Vec::new();
    ms.push(Mutator::Increment(key_to_mutate.to_owned(), from_value));
    single_effect_action(name, ms)
}

/// An action that subtracts `from_value` from the integer under `key_to_mutate`.
pub fn simple_decrement_action(name: &str, key_to_mutate: &str, from_value: Datum) -> (r: Action)
    ensures
        r.effects@.len() == 1,
        is_simple_action(r, name@, r.effects@[0].mutators@),
        r.effects@[0].mutators@.len() == 1,
        r.effects@[0].mutators@[0] is Decrement,
        mutator_key(r.effects@[0].mutators@[0]) == key_to_mutate@,
        mutator_value(r.effects@[0].mutators@[0]) == from_value,
{
    let mut ms: Vec<Mutator> = Vec::new();
    ms.push(Mutator::Decrement(key_to_mutate.to_owned(), from_value));
    single_effect_action(name, ms)
}

/// Appends the preconditions to the action's list, in order.
pub fn add_preconditions(action: &mut Action, preconds: Vec<(&str, Compare)>)
    ensures
        final(action).key == old(action).key,
        final(action).effects == old(action).effects,
        final(action).preconditions@.len() == old(action).preconditions@.len() + preconds@.len(),
        forall|i: int| 0 <= i < old(action).preconditions@.len() ==> #[trigger] final(action).preconditions@[i] == old(action).preconditions@[i],
        forall|i: int| 0 <= i < preconds@.len() ==> (#[trigger] final(action).preconditions@[old(action).preconditions@.len() + i]).0@ == preconds@[i].0@
            && final(action).preconditions@[old(action).preconditions@.len() + i].1 == preconds@[i].1,
{
    let ghost base = action.preconditions@;
    let n = preconds.len();
    let mut i: usize = 0;
    while i < n
        invariant
            n == preconds@.len(),
            i <= n,
            action.key == old(action).key,
            action.effects == old(action).effects,
            base == old(action).preconditions@,
            action.preconditions@.len() == base.len() + i,
            forall|j: int| 0 <= j < base.len() ==> #[trigger] action.preconditions@[j] == base[j],
            forall|j: int| 0 <= j < i ==> (#[trigger] action.preconditions@[base.len() + j]).0@ == preconds@[j].0@
                && action.preconditions@[base.len() + j].1 == preconds@[j].1,
        decreases n - i,
    {
        action.preconditions.push((preconds[i].0.to_owned(), preconds[i].1));
        i = i + 1;
    }
}

} // verus!
