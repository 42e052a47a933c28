use vstd::prelude::*;

use crate::action::Action;
use crate::compare::{Compare, satisfies};
use crate::datum::{can_add, can_sub, Datum};
use crate::effect::Effect;
use crate::goal::Goal;
use crate::keymap::{keys_sorted, key_lt, lemma_key_lt_irreflexive};
use crate::mutator::{all_apply, apply_all, apply_spec, mutator_applies, mutator_key, mutator_value, Mutator};
use crate::planner::{admissible, can_step, effects_of, goal_met, heuristic_spec, is_path, is_plan, is_step, node_state, path_cost, planned, Node};
use crate::state::{goal_distance, requirement_distance};

verus! {

/// The size of an integer increment or decrement, 0 for anything else.
pub open spec fn mutator_weight(m: Mutator) -> nat {
    match m {
        Mutator::Increment(_, Datum::I64(d)) => if d >= 0 { d as nat } else { (-d) as nat },
        Mutator::Decrement(_, Datum::I64(d)) => if d >= 0 { d as nat } else { (-d) as nat },
        _ => 0,
    }
}

/// An increment or a decrement by an integer.
pub open spec fn is_integer_step(m: Mutator) -> bool {
    match m {
        Mutator::Increment(_, Datum::I64(_)) => true,
        Mutator::Decrement(_, Datum::I64(_)) => true,
        _ => false,
    }
}

/// The summed size of the mutators.
pub open spec fn total_weight(ms: Seq<Mutator>) -> nat
    decreases ms.len(),
{
    if ms.len() == 0 {
        0
    } else {
        total_weight(ms.drop_last()) + mutator_weight(ms.last())
    }
}

/// Every action's first effect only increments or decrements integers, by no
/// more in all than its cost.
pub open spec fn unit_bounded(actions: Seq<Action>) -> bool {
    forall|i: int|
        0 <= i < actions.len() && (#[trigger] actions[i]).effects@.len() > 0 ==> {
            &&& forall|j: int|
                0 <= j < actions[i].effects@[0].mutators@.len() ==> is_integer_step(
                    #[trigger] actions[i].effects@[0].mutators@[j],
                )
            &&& total_weight(actions[i].effects@[0].mutators@) <= actions[i].effects@[0].cost
        }
}

/// Every requirement of the goal is an equality.
pub open spec fn equals_only(goal: Goal) -> bool {
    forall|i: int| 0 <= i < goal.reqs().len() ==> (#[trigger] goal.reqs()[i]).1 is Equals
}

/// The two states agree on every key but `k`.
pub open spec fn agree_except(s: Map<Seq<char>, Datum>, t: Map<Seq<char>, Datum>, k: Seq<char>) -> bool {
    forall|j: Seq<char>|
        j != k ==> (#[trigger] s.contains_key(j) == t.contains_key(j)) && (s.contains_key(j) ==> s[j]
            == t[j])
}

/// The states folded from `start` along the effects' mutators.
pub open spec fn replay(start: Map<Seq<char>, Datum>, effects: Seq<Effect>) -> Map<Seq<char>, Datum>
    decreases effects.len(),
{
    if effects.len() == 0 {
        start
    } else {
        apply_all(replay(start, effects.drop_last()), effects.last().mutators@)
    }
}

proof fn lemma_distance_unchanged(
    s: Map<Seq<char>, Datum>,
    t: Map<Seq<char>, Datum>,
    k: Seq<char>,
    reqs: Seq<(Seq<char>, Compare)>,
)
    requires
        agree_except(s, t, k),
        forall|i: int| 0 <= i < reqs.len() ==> (#[trigger] reqs[i]).0 != k,
    ensures
        goal_distance(s, reqs) == goal_distance(t, reqs),
    decreases reqs.len(),
{
    if reqs.len() > 0 {
        let last = reqs.last();
        assert(last.0 != k);
        assert(s.contains_key(last.0) == t.contains_key(last.0));
        lemma_distance_unchanged(s, t, k, reqs.drop_last());
    }
}

/// One integer step changes the goal distance by at most its size.
proof fn lemma_step_distance(s: Map<Seq<char>, Datum>, m: Mutator, reqs: Seq<(Seq<char>, Compare)>)
    requires
        is_integer_step(m),
        mutator_applies(s, m),
        keys_sorted(reqs),
    ensures
        goal_distance(s, reqs) <= goal_distance(apply_spec(s, m), reqs) + mutator_weight(m),
    decreases reqs.len(),
{
    let t = apply_spec(s, m);
    let k = mutator_key(m);
    assert(agree_except(s, t, k));
    if reqs.len() > 0 {
        let rest = reqs.drop_last();
        let last = reqs.last();
        assert(keys_sorted(rest));
        if last.0 == k {
            assert forall|i: int| 0 <= i < rest.len() implies (#[trigger] rest[i]).0 != k by {
                assert(key_lt(reqs[i].0, reqs[reqs.len() - 1].0));
                lemma_key_lt_irreflexive(k);
            }
            lemma_distance_unchanged(s, t, k, rest);
        } else {
            lemma_step_distance(s, m, rest);
            assert(s.contains_key(last.0) == t.contains_key(last.0));
        }
    }
}

proof fn lemma_steps_distance(s: Map<Seq<char>, Datum>, ms: Seq<Mutator>, reqs: Seq<(Seq<char>, Compare)>)
    requires
        forall|j: int| 0 <= j < ms.len() ==> is_integer_step(#[trigger] ms[j]),
        all_apply(s, ms),
        keys_sorted(reqs),
    ensures
        goal_distance(s, reqs) <= goal_distance(apply_all(s, ms), reqs) + total_weight(ms),
    decreases ms.len(),
{
    if ms.len() > 0 {
        let front = ms.drop_last();
        assert forall|j: int| 0 <= j < front.len() implies is_integer_step(#[trigger] front[j]) by {
            assert(front[j] == ms[j]);
        }
        lemma_steps_distance(s, front, reqs);
        assert(is_integer_step(ms[ms.len() - 1]));
        lemma_step_distance(apply_all(s, front), ms.last(), reqs);
    }
}

/// A state that meets a goal of equalities is at distance 0 from it.
proof fn lemma_met_distance_zero(s: Map<Seq<char>, Datum>, reqs: Seq<(Seq<char>, Compare)>)
    requires
        forall|i: int| 0 <= i < reqs.len() ==> (#[trigger] reqs[i]).1 is Equals,
        forall|i: int|
            0 <= i < reqs.len() ==> s.contains_key(#[trigger] reqs[i].0) && satisfies(reqs[i].1, s[reqs[i].0]),
    ensures
        goal_distance(s, reqs) == 0,
    decreases reqs.len(),
{
    if reqs.len() > 0 {
        let rest = reqs.drop_last();
        assert forall|i: int| 0 <= i < rest.len() implies (#[trigger] rest[i]).1 is Equals by {
            assert(rest[i] == reqs[i]);
        }
        assert forall|i: int| 0 <= i < rest.len() implies s.contains_key(#[trigger] rest[i].0) && satisfies(rest[i].1, s[rest[i].0]) by {
            assert(rest[i] == reqs[i]);
        }
        lemma_met_distance_zero(s, rest);
        assert(reqs[reqs.len() - 1].1 is Equals);
        assert(s.contains_key(reqs[reqs.len() - 1].0));
    }
}

/// Along a path of bounded actions the goal distance falls by at most the cost paid.
proof fn lemma_path_distance(actions: Seq<Action>, goal: Goal, p: Seq<Node>)
    requires
        unit_bounded(actions),
        keys_sorted(goal.reqs()),
        is_path(actions, p),
    ensures
        goal_distance(node_state(p[0]), goal.reqs()) <= path_cost(p) + goal_distance(
            node_state(p.last()),
            goal.reqs(),
        ),
    decreases p.len(),
{
    if p.len() > 1 {
        let front = p.drop_last();
        assert forall|i: int| 0 <= i < front.len() - 1 implies can_step(actions, #[trigger] front[i], front[i + 1]) by {
            assert(can_step(actions, p[i], p[i + 1]));
        }
        lemma_path_distance(actions, goal, front);
        let prev = p[p.len() - 2];
        assert(can_step(actions, p[p.len() - 2], p[p.len() - 1]));
        let i = choose|i: int| 0 <= i < actions.len() && is_step(node_state(prev), #[trigger] actions[i], p.last());
        let ms = actions[i].effects@[0].mutators@;
        assert(actions[i].effects@.len() > 0);
        lemma_steps_distance(node_state(prev), ms, goal.reqs());
    }
}

/// On any plan of bounded actions towards a goal of equalities, the heuristic at
/// each node is at most the cost that remains from it to the end of the plan.
pub proof fn lemma_heuristic_admissible(actions: Seq<Action>, goal: Goal, p: Seq<Node>, i: int)
    requires
        unit_bounded(actions),
        equals_only(goal),
        keys_sorted(goal.reqs()),
        is_path(actions, p),
        goal_met(node_state(p.last()), goal),
        0 <= i < p.len(),
    ensures
        heuristic_spec(p[i], goal) <= path_cost(p.skip(i)),
{
    let q = p.skip(i);
    assert forall|j: int| 0 <= j < q.len() - 1 implies can_step(actions, #[trigger] q[j], q[j + 1]) by {
        assert(can_step(actions, p[i + j], p[i + j + 1]));
    }
    assert(q.last() == p.last());
    lemma_path_distance(actions, goal, q);
    lemma_met_distance_zero(node_state(p.last()), goal.reqs());
}

/// Bounded actions and a goal of equalities make the heuristic admissible, so the
/// plans found for them are cheapest.
pub proof fn lemma_bounded_domain_admissible(actions: Seq<Action>, goal: Goal)
    requires
        unit_bounded(actions),
        equals_only(goal),
        keys_sorted(goal.reqs()),
    ensures
        admissible(actions, goal),
{
    assert forall|p: Seq<Node>|
        is_path(actions, p) && goal_met(node_state(p.last()), goal) implies heuristic_spec(p[0], goal)
        <= #[trigger] path_cost(p) by {
        lemma_heuristic_admissible(actions, goal, p, 0);
        assert(p.skip(0) =~= p);
    }
}

/// Every node of a plan holds the state that folding the mutators of the plan's
/// effects up to that node over the start state gives.
pub proof fn lemma_plan_replays(start: Map<Seq<char>, Datum>, actions: Seq<Action>, goal: Goal, p: Seq<Node>, i: int)
    requires
        is_plan(start, actions, goal, p),
        0 <= i < p.len(),
    ensures
        node_state(p[i]) == replay(start, effects_of(p.take(i + 1))),
    decreases i,
{
    if i == 0 {
        assert(p.take(1).drop_last() =~= Seq::<Node>::empty());
        assert(p.take(1).last() == p[0]);
        assert(effects_of(Seq::<Node>::empty()) =~= Seq::<Effect>::empty());
        assert(effects_of(p.take(1)) =~= Seq::<Effect>::empty());
    } else {
        lemma_plan_replays(start, actions, goal, p, i - 1);
        assert(p.take(i + 1).drop_last() =~= p.take(i));
        assert(can_step(actions, p[i - 1], p[i]));
        let k = choose|k: int| 0 <= k < actions.len() && is_step(node_state(p[i - 1]), #[trigger] actions[k], p[i]);
        assert(p[i] is Effect);
        assert(p.take(i + 1).last() == p[i]);
        let e = p[i]->Effect_0;
        assert(effects_of(p.take(i + 1)) == effects_of(p.take(i)).push(e));
        assert(effects_of(p.take(i + 1)).drop_last() =~= effects_of(p.take(i)));
    }
}

/// Sums and differences, and increments or decrements of a present key, are
/// admitted only on two integers: every other pairing of variants is refused.
pub proof fn lemma_arithmetic_needs_integers(s: Map<Seq<char>, Datum>, m: Mutator, a: Datum, b: Datum)
    ensures
        can_add(a, b) || can_sub(a, b) ==> a is I64 && b is I64,
        !(m is Assign) && s.contains_key(mutator_key(m)) && mutator_applies(s, m) ==> s[mutator_key(m)] is I64
            && mutator_value(m) is I64,
{
}

/// Planning twice on the same state, actions and goal gives the same plan.
pub proof fn lemma_plan_deterministic(
    start: Map<Seq<char>, Datum>,
    actions: Seq<Action>,
    goal: Goal,
    r1: Option<(Seq<Node>, usize)>,
    r2: Option<(Seq<Node>, usize)>,
)
    requires
        r1 == planned(start, actions, goal),
        r2 == planned(start, actions, goal),
    ensures
        r1 == r2,
{
}

} // verus!
