use vstd::prelude::*;

use crate::action::Action;
use crate::compare::{all_hold, compare_values, pairs_view, check_preconditions};
use crate::datum::Datum;
use crate::effect::Effect;
use crate::goal::Goal;
use crate::mutator::{all_apply, apply_all, apply_mutators, copy_mutators};
use crate::state::{goal_distance, LocalState};

verus! {

/// Largest value the search heuristic takes; a smaller estimate stays admissible.
pub const HEURISTIC_CAP: u64 = 4294967295;

/// Largest step cost the search accepts, so that path costs stay far from `usize::MAX`.
pub const MAX_STEP_COST: usize = 4294967295;

/// A search node: the start state, or an effect that carries the state it produced.
#[derive(Clone, Debug, PartialEq, Eq, Hash)]
pub enum Node {
    Effect(Effect),
    State(LocalState),
}

/// The state a node stands for.
pub open spec fn node_state(n: Node) -> Map<Seq<char>, Datum> {
    match n {
        Node::Effect(e) => e.state@,
        Node::State(s) => s@,
    }
}

/// The cost of arriving at a node: its effect's cost, or 0 for a start node.
pub open spec fn step_cost(n: Node) -> nat {
    match n {
        Node::Effect(e) => e.cost as nat,
        Node::State(_) => 0,
    }
}

/// Every requirement of the goal holds in `s`.
pub open spec fn goal_met(s: Map<Seq<char>, Datum>, goal: Goal) -> bool {
    all_hold(s, goal.reqs())
}

/// The action can be taken in `s`: its preconditions hold, and it has a first
/// effect whose mutator list is not empty and applies to `s`.
pub open spec fn applicable(s: Map<Seq<char>, Datum>, a: Action) -> bool {
    &&& all_hold(s, pairs_view(a.preconditions@))
    &&& a.effects@.len() > 0
    &&& a.effects@[0].mutators@.len() > 0
    &&& all_apply(s, a.effects@[0].mutators@)
}

/// Taking action `a` in state `s` leads to node `to`: an effect with the first
/// effect's name, mutators and cost, carrying the state that the mutators produce.
pub open spec fn is_step(s: Map<Seq<char>, Datum>, a: Action, to: Node) -> bool {
    &&& applicable(s, a)
    &&& match to {
        Node::Effect(e) => {
            &&& e.action@ == a.effects@[0].action@
            &&& e.mutators@ == a.effects@[0].mutators@
            &&& e.state@ == apply_all(s, a.effects@[0].mutators@)
            &&& e.cost == a.effects@[0].cost
        },
        Node::State(_) => false,
    }
}

/// Indices of the actions that can be taken in `s`, in list order.
pub open spec fn applicable_indices(s: Map<Seq<char>, Datum>, actions: Seq<Action>) -> Seq<int>
    decreases actions.len(),
{
    if actions.len() == 0 {
        Seq::empty()
    } else {
        let p = applicable_indices(s, actions.drop_last());
        if applicable(s, actions.last()) {
            p.push(actions.len() - 1)
        } else {
            p
        }
    }
}

/// Some action of the list leads from `from` to `to`.
pub open spec fn can_step(actions: Seq<Action>, from: Node, to: Node) -> bool {
    exists|i: int| 0 <= i < actions.len() && is_step(node_state(from), #[trigger] actions[i], to)
}

/// A non-empty sequence of nodes, each reached from the one before by an action.
pub open spec fn is_path(actions: Seq<Action>, p: Seq<Node>) -> bool {
    &&& p.len() >= 1
    &&& forall|i: int| 0 <= i < p.len() - 1 ==> can_step(actions, #[trigger] p[i], p[i + 1])
}

/// The sum of the step costs after the first node.
pub open spec fn path_cost(p: Seq<Node>) -> nat
    decreases p.len(),
{
    if p.len() <= 1 {
        0
    } else {
        path_cost(p.drop_last()) + step_cost(p.last())
    }
}

/// A path from a start node holding `start` that ends in a state meeting the goal.
pub open spec fn is_plan(start: Map<Seq<char>, Datum>, actions: Seq<Action>, goal: Goal, p: Seq<Node>) -> bool {
    &&& is_path(actions, p)
    &&& p[0] is State
    &&& node_state(p[0]) == start
    &&& goal_met(node_state(p.last()), goal)
}

/// The search heuristic: the state's distance to the goal, capped.
pub open spec fn heuristic_spec(n: Node, goal: Goal) -> nat {
    let d = goal_distance(node_state(n), goal.reqs());
    if d <= HEURISTIC_CAP {
        d
    } else {
        HEURISTIC_CAP as nat
    }
}

/// The heuristic never exceeds the cost of a path that reaches the goal.
pub open spec fn admissible(actions: Seq<Action>, goal: Goal) -> bool {
    forall|p: Seq<Node>|
        is_path(actions, p) && goal_met(node_state(p.last()), goal) ==> heuristic_spec(p[0], goal)
            <= #[trigger] path_cost(p)
}

/// Every action's first effect costs at most `MAX_STEP_COST`.
pub open spec fn costs_bounded(actions: Seq<Action>) -> bool {
    forall|i: int|
        0 <= i < actions.len() && (#[trigger] actions[i]).effects@.len() > 0 ==> actions[i].effects@[0].cost
            <= MAX_STEP_COST
}

/// The effects of a path, in order, without its start node.
pub open spec fn effects_of(p: Seq<Node>) -> Seq<Effect>
    decreases p.len(),
{
    if p.len() == 0 {
        Seq::empty()
    } else {
        match p.last() {
            Node::Effect(e) => effects_of(p.drop_last()).push(e),
            Node::State(_) => effects_of(p.drop_last()),
        }
    }
}

/// What the A* search returns for a start state, an action list and a goal.
pub uninterp spec fn astar_outcome(start: Map<Seq<char>, Datum>, actions: Seq<Action>, goal: Goal) -> Option<(Seq<Node>, usize)>;

/// A search result with its path as a sequence.
pub open spec fn outcome_view(r: Option<(Vec<Node>, usize)>) -> Option<(Seq<Node>, usize)> {
    match r {
        Some((p, c)) => Some((p@, c)),
        None => None,
    }
}

/// A found plan of the start node alone, at cost 0.
pub open spec fn is_empty_plan(r: Option<(Vec<Node>, usize)>) -> bool {
    match r {
        Some((p, c)) => p@.len() == 1 && c == 0,
        None => false,
    }
}

impl Node {
    /// The state the node stands for.
    pub fn state(&self) -> (r: &LocalState)
        ensures
            r@ == node_state(*self),
    {
        match self {
            Node::Effect(effect) => &effect.state,
            Node::State(state) => state,
        }
    }
}

/// The node that taking `action` in `state` leads to, if the action can be taken.
pub fn expand(state: &LocalState, action: &Action) -> (r: Option<Node>)
    ensures
        r is Some <==> applicable(state@, *action),
        r matches Some(n) ==> is_step(state@, *action, n),
{
    if !check_preconditions(state, action) || action.effects.len() == 0 {
        return None;
    }
    let effect = &action.effects[0];
    if effect.mutators.len() == 0 {
        return None;
    }
    match apply_mutators(state, &effect.mutators) {
        None => None,
        Some(new_state) => Some(
            Node::Effect(
                Effect {
                    action: effect.action.clone(),
                    mutators: copy_mutators(&effect.mutators),
                    state: new_state,
                    cost: effect.cost,
                },
            ),
        ),
    }
}

/// The nodes reachable in one step from `node`, one per action that can be
/// taken, in the order of `actions`, each with its effect's cost.
pub fn successors(node: &Node, actions: &[Action]) -> (r: Vec<(Node, usize)>)
    ensures
        r@.len() == applicable_indices(node_state(*node), actions@).len(),
        forall|j: int|
            0 <= j < r@.len() ==> is_step(
                node_state(*node),
                actions@[applicable_indices(node_state(*node), actions@)[j]],
                #[trigger] r@[j].0,
            ) && r@[j].1 as nat == step_cost(r@[j].0),
        forall|j: int|
            0 <= j < r@.len() ==> 0 <= #[trigger] applicable_indices(node_state(*node), actions@)[j]
                < actions@.len(),
{
    let state = node.state();
    let ghost s = node_state(*node);
    let mut out: Vec<(Node, usize)> = Vec::new();
    let n = actions.len();
    let mut i: usize = 0;
    while i < n
        invariant
            n == actions@.len(),
            i <= n,
            state@ == s,
            out@.len() == applicable_indices(s, actions@.take(i as int)).len(),
            forall|j: int|
                0 <= j < out@.len() ==> is_step(
                    s,
                    actions@[applicable_indices(s, actions@.take(i as int))[j]],
                    #[trigger] out@[j].0,
                ) && out@[j].1 as nat == step_cost(out@[j].0),
            forall|j: int|
                0 <= j < out@.len() ==> 0 <= #[trigger] applicable_indices(s, actions@.take(i as int))[j]
                    < i,
        decreases n - i,
    {
        proof {
            let t = actions@.take(i as int + 1);
            assert(t.drop_last() =~= actions@.take(i as int));
            assert(t.last() == actions@[i as int]);
        }
        match expand(state, &actions[i]) {
            Some(next) => {
                let cost = actions[i].effects[0].cost;
                out.push((next, cost));
            },
            None => {},
        }
        i = i + 1;
    }
    assert(actions@.take(n as int) =~= actions@);
    out
}

/// The heuristic for `node`: its state's distance to the goal, capped at `HEURISTIC_CAP`.
pub fn heuristic(node: &Node, goal: &Goal) -> (r: usize)
    ensures
        r as nat == heuristic_spec(*node, *goal),
{
    let d = node.state().distance_to_goal(goal);
    if d <= HEURISTIC_CAP {
        d as usize
    } else {
        HEURISTIC_CAP as usize
    }
}

/// Whether every requirement of the goal holds in the node's state; a key the
/// state lacks fails its requirement.
pub fn is_goal(node: &Node, goal: &Goal) -> (r: bool)
    ensures
        r == goal_met(node_state(*node), *goal),
{
    let state = node.state();
    let n = goal.requirements.len();
    let mut i: usize = 0;
    while i < n
        invariant
            n == goal.reqs().len(),
            i <= n,
            state@ == node_state(*node),
            forall|j: int|
                0 <= j < i ==> state@.contains_key(#[trigger] goal.reqs()[j].0) && crate::compare::satisfies(
                    goal.reqs()[j].1,
                    state@[goal.reqs()[j].0],
                ),
        decreases n - i,
    {
        let key = goal.requirements.key_at(i);
        let cmp = goal.requirements.value_at(i);
        match state.get(key.as_str()) {
            Some(v) => {
                if !compare_values(cmp, &v) {
                    return false;
                }
            },
            None => {
                return false;
            },
        }
        i = i + 1;
    }
    true
}

/// Relies on `pathfinding::directed::astar::astar`, called from a start node that
/// holds `start`, with `successors`, `heuristic` and `is_goal`. From its
/// documentation and source: the start node is tested first, so a start that meets
/// the goal comes back alone at cost 0; a returned path runs from the start node
/// through successors to a node that meets the goal; `None` comes only once every
/// reachable node was expanded; where the heuristic never overestimates, the path is
/// a cheapest one and the cost is its cost. The search keeps no state between calls
/// and breaks ties by the order in which successors come, so the outcome is a
/// function of the arguments. It may run forever on an unbounded state space with no
/// reachable goal, and it adds costs in `usize`; `costs_bounded` and `HEURISTIC_CAP`
/// keep those sums small.
#[verifier::external_body]
fn astar_search(start: &LocalState, actions: &[Action], goal: &Goal) -> (r: Option<(Vec<Node>, usize)>)
    requires
        costs_bounded(actions@),
    ensures
        astar_outcome(start@, actions@, *goal) == outcome_view(r),
        goal_met(start@, *goal) ==> is_empty_plan(r),
        r matches Some((p, c)) ==> is_plan(start@, actions@, *goal, p@),
        r is None ==> forall|p: Seq<Node>| !is_plan(start@, actions@, *goal, p),
        r matches Some((p, c)) ==> admissible(actions@, *goal) ==> c == path_cost(p@)
            && forall|q: Seq<Node>| is_plan(start@, actions@, *goal, q) ==> path_cost(p@) <= #[trigger] path_cost(q),
{
    let start_node = Node::State(start.clone());
    pathfinding::directed::astar::astar(
        &start_node,
        |n: &Node| successors(n, actions),
        |n: &Node| heuristic(n, goal),
        |n: &Node| is_goal(n, goal),
    )
}

/// How a plan is searched for.
#[derive(Clone, Copy, Debug, PartialEq, Eq, Structural)]
pub enum PlanningStrategy {
    /// Forward from the current state to the goal; finds a cheapest plan.
    StartToGoal,
    /// Backward from the goal; reserved, not available.
    GoalToStart,
}

impl Default for PlanningStrategy {
    fn default() -> (r: PlanningStrategy)
        ensures
            r == PlanningStrategy::StartToGoal,
    {
        PlanningStrategy::StartToGoal
    }
}

/// `n` capped at `usize::MAX`.
pub open spec fn cap_usize(n: nat) -> usize {
    if n <= usize::MAX {
        n as usize
    } else {
        usize::MAX
    }
}

/// The plan for a start state, an action list and a goal: the path that the
/// search finds, with the sum of its step costs.
pub open spec fn planned(start: Map<Seq<char>, Datum>, actions: Seq<Action>, goal: Goal) -> Option<(Seq<Node>, usize)> {
    match astar_outcome(start, actions, goal) {
        Some((p, _)) => Some((p, cap_usize(path_cost(p)))),
        None => None,
    }
}

/// The sum of the step costs of a path after its first node, saturating at `usize::MAX`.
pub fn plan_cost(path: &Vec<Node>) -> (r: usize)
    ensures
        r == cap_usize(path_cost(path@)),
{
    let n = path.len();
    if n == 0 {
        return 0;
    }
    let mut total: usize = 0;
    let mut i: usize = 1;
    while i < n
        invariant
            n == path@.len(),
            1 <= i <= n,
            total == cap_usize(path_cost(path@.take(i as int))),
        decreases n - i,
    {
        let c: usize = match &path[i] {
            Node::Effect(e) => e.cost,
            Node::State(_) => 0,
        };
        proof {
            let t = path@.take(i as int + 1);
            assert(t.drop_last() =~= path@.take(i as int));
        }
        total = total.saturating_add(c);
        i = i + 1;
    }
    assert(path@.take(n as int) =~= path@);
    total
}

/// Searches for a cheapest plan with the given strategy. Only `StartToGoal` is
/// available.
///
/// Returns `None` exactly when no sequence of actions leads from `start` to a state
/// meeting `goal`. Otherwise the path starts with the start state, each further node
/// is the effect of an action taken in the state before it (so folding the effects'
/// mutators over the start state reproduces every node's state), the last node meets
/// the goal, and the cost is the sum of the effects' costs. A start that already
/// meets the goal gives a path of that node alone at cost 0. Where the heuristic
/// never overestimates, no plan costs less.
pub fn make_plan_with_strategy(
    strategy: PlanningStrategy,
    start: &LocalState,
    actions: &[Action],
    goal: &Goal,
) -> (r: Option<(Vec<Node>, usize)>)
    requires
        strategy == PlanningStrategy::StartToGoal,
        costs_bounded(actions@),
    ensures
        outcome_view(r) == planned(start@, actions@, *goal),
        r is None <==> forall|p: Seq<Node>| !is_plan(start@, actions@, *goal, p),
        r matches Some((p, c)) ==> is_plan(start@, actions@, *goal, p@) && c == cap_usize(path_cost(p@)),
        goal_met(start@, *goal) ==> is_empty_plan(r),
        r matches Some((p, c)) ==> admissible(actions@, *goal) ==> forall|q: Seq<Node>|
            is_plan(start@, actions@, *goal, q) ==> path_cost(p@) <= #[trigger] path_cost(q),
{
    match astar_search(start, actions, goal) {
        Some((path, _)) => {
            let cost = plan_cost(&path);
            proof {
                if goal_met(start@, *goal) {
                    assert(path@.len() == 1);
                    assert(path_cost(path@) == 0);
                }
            }
            Some((path, cost))
        },
        None => None,
    }
}

/// `make_plan_with_strategy` with `StartToGoal`.
pub fn make_plan(start: &LocalState, actions: &[Action], goal: &Goal) -> (r: Option<(Vec<Node>, usize)>)
    requires
        costs_bounded(actions@),
    ensures
        outcome_view(r) == planned(start@, actions@, *goal),
        r is None <==> forall|p: Seq<Node>| !is_plan(start@, actions@, *goal, p),
        r matches Some((p, c)) ==> is_plan(start@, actions@, *goal, p@) && c == cap_usize(path_cost(p@)),
        goal_met(start@, *goal) ==> is_empty_plan(r),
        r matches Some((p, c)) ==> admissible(actions@, *goal) ==> forall|q: Seq<Node>|
            is_plan(start@, actions@, *goal, q) ==> path_cost(p@) <= #[trigger] path_cost(q),
{
    make_plan_with_strategy(PlanningStrategy::StartToGoal, start, actions, goal)
}

/// The effects of a plan, in order, without its start node.
pub fn get_effects_from_plan(plan: Vec<Node>) -> (r: Vec<Effect>)
    ensures
        r@ == effects_of(plan@),
{
    let mut out: Vec<Effect> = Vec::new();
    let mut rest = plan;
    let ghost all = rest@;
    let n = rest.len();
    let mut i: usize = 0;
    while i < n
        invariant
            n == all.len(),
            i <= n,
            rest@ == all.skip(i as int),
            out@ == effects_of(all.take(i as int)),
        decreases n - i,
    {
        let node = rest.remove(0);
        proof {
            let t = all.take(i as int + 1);
            assert(t.drop_last() =~= all.take(i as int));
            assert(t.last() == node);
            assert(rest@ =~= all.skip(i as int + 1));
        }
        match node {
            Node::Effect(e) => out.push(e),
            Node::State(_) => {},
        }
        i = i + 1;
    }
    assert(all.take(n as int) =~= all);
    out
}

} // verus!
