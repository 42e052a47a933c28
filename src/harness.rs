use vstd::prelude::*;

use crate::action::Action;
use crate::datum::Datum;
use crate::goal::Goal;
use crate::planner::{effects_of, get_effects_from_plan, Node};
use crate::state::LocalState;

verus! {

/// What the host does with the action markers on its agent after a search.
#[derive(Clone, Debug, PartialEq, Eq)]
pub enum MarkerUpdate {
    /// Leave the markers as they are.
    Keep,
    /// Attach the named action's marker, first detaching every marker the
    /// planner manages where `detach_all` is set.
    Attach { detach_all: bool, action: String },
}

/// The per-agent planner: the agent's state, its goals and actions, what it is
/// doing now, and the flags that decide when to search.
#[derive(Clone, Debug)]
pub struct Planner {
    /// The state searches start from, synced from the host.
    pub state: LocalState,
    /// Every goal of the agent.
    pub goals: Vec<Goal>,
    /// The goal searches aim at.
    pub current_goal: Option<Goal>,
    /// The action whose marker is attached.
    pub current_action: Option<Action>,
    /// Names of the actions of the latest plan, first is current.
    pub current_plan: Vec<String>,
    /// The actions searches may use, in tie-breaking order.
    pub actions: Vec<Action>,
    /// Search on every tick.
    pub always_plan: bool,
    /// Drop the current goal when a search finds no plan.
    pub remove_goal_on_no_plan_found: bool,
    /// Search once on the next tick.
    pub plan_next_tick: bool,
    /// A search is in flight.
    pub is_planning: bool,
}

/// The state after storing each (key, value) pair in order.
pub open spec fn with_all(s: Map<Seq<char>, Datum>, datums: Seq<(String, Datum)>) -> Map<Seq<char>, Datum>
    decreases datums.len(),
{
    if datums.len() == 0 {
        s
    } else {
        with_all(s, datums.drop_last()).insert(datums.last().0@, datums.last().1)
    }
}

/// Whether a search should start: none is in flight, planning is asked for, and
/// there is a goal.
pub open spec fn wants_search(p: Planner) -> bool {
    !p.is_planning && (p.always_plan || p.plan_next_tick) && p.current_goal is Some
}

/// Index of the first action named `name`.
pub open spec fn first_action_named(actions: Seq<Action>, name: Seq<char>, i: int) -> bool {
    &&& 0 <= i < actions.len()
    &&& actions[i].key@ == name
    &&& forall|j: int| 0 <= j < i ==> (#[trigger] actions[j]).key@ != name
}

/// `g` holds the requirements of `goal`.
pub open spec fn holds_goal(g: Option<Goal>, goal: Goal) -> bool {
    match g {
        Some(x) => x.reqs() == goal.reqs() && x.req_map() == goal.req_map(),
        None => false,
    }
}

/// `a` holds a copy of `action`: its name and preconditions.
pub open spec fn holds_action(a: Option<Action>, action: Action) -> bool {
    match a {
        Some(x) => x.key == action.key && x.preconditions@ == action.preconditions@,
        None => false,
    }
}

/// An action other than `name` is current.
pub open spec fn other_current(a: Option<Action>, name: Seq<char>) -> bool {
    match a {
        Some(x) => x.key@ != name,
        None => false,
    }
}

/// The update attaches the marker of `name`, detaching all first exactly when `detach`.
pub open spec fn attaches(r: MarkerUpdate, name: Seq<char>, detach: bool) -> bool {
    match r {
        MarkerUpdate::Attach { detach_all, action } => action@ == name && detach_all == detach,
        MarkerUpdate::Keep => false,
    }
}

impl Planner {
    /// A planner aiming at the first goal, that searches on every tick and drops a
    /// goal it finds no plan for.
    pub fn new(state: LocalState, goals: Vec<Goal>, actions: Vec<Action>) -> (r: Planner)
        ensures
            r.state == state,
            r.goals == goals,
            r.actions == actions,
            goals@.len() == 0 ==> r.current_goal is None,
            goals@.len() > 0 ==> holds_goal(r.current_goal, goals@[0]),
            r.current_action is None,
            r.current_plan@.len() == 0,
            r.always_plan,
            r.remove_goal_on_no_plan_found,
            !r.plan_next_tick,
            !r.is_planning,
    {
        let current_goal = if goals.len() > 0 {
            Some(Goal { requirements: goals[0].requirements.duplicate() })
        } else {
            None
        };
        Planner {
            state,
            goals,
            current_goal,
            current_action: None,
            current_plan: Vec::new(),
            actions,
            always_plan: true,
            remove_goal_on_no_plan_found: true,
            plan_next_tick: false,
            is_planning: false,
        }
    }
}

/// Copies the agent's current values into the planner's state, in order.
pub fn update_planner_local_state(planner: &mut Planner, datums: &Vec<(String, Datum)>)
    ensures
        final(planner).state@ == with_all(old(planner).state@, datums@),
        final(planner).goals == old(planner).goals,
        final(planner).current_goal == old(planner).current_goal,
        final(planner).current_action == old(planner).current_action,
        final(planner).current_plan == old(planner).current_plan,
        final(planner).actions == old(planner).actions,
        final(planner).always_plan == old(planner).always_plan,
        final(planner).remove_goal_on_no_plan_found == old(planner).remove_goal_on_no_plan_found,
        final(planner).plan_next_tick == old(planner).plan_next_tick,
        final(planner).is_planning == old(planner).is_planning,
{
    let n = datums.len();
    let mut i: usize = 0;
    while i < n
        invariant
            n == datums@.len(),
            i <= n,
            planner.state@ == with_all(old(planner).state@, datums@.take(i as int)),
            planner.goals == old(planner).goals,
            planner.current_goal == old(planner).current_goal,
            planner.current_action == old(planner).current_action,
            planner.current_plan == old(planner).current_plan,
            planner.actions == old(planner).actions,
            planner.always_plan == old(planner).always_plan,
            planner.remove_goal_on_no_plan_found == old(planner).remove_goal_on_no_plan_found,
            planner.plan_next_tick == old(planner).plan_next_tick,
            planner.is_planning == old(planner).is_planning,
        decreases n - i,
    {
        planner.state.set(datums[i].0.as_str(), datums[i].1);
        proof {
            let t = datums@.take(i as int + 1);
            assert(t.drop_last() =~= datums@.take(i as int));
        }
        i = i + 1;
    }
    assert(datums@.take(n as int) =~= datums@);
}

/// Decides whether to start a search this tick. Where it does, the planner is
/// marked as planning and a one-off request is cleared; the host then runs
/// `make_plan` on the planner's state, actions and current goal.
pub fn create_planner_tasks(planner: &mut Planner) -> (r: bool)
    ensures
        r == wants_search(*old(planner)),
        r ==> final(planner).is_planning && !final(planner).plan_next_tick,
        !r ==> final(planner).is_planning == old(planner).is_planning
            && final(planner).plan_next_tick == old(planner).plan_next_tick,
        final(planner).state == old(planner).state,
        final(planner).goals == old(planner).goals,
        final(planner).current_goal == old(planner).current_goal,
        final(planner).current_action == old(planner).current_action,
        final(planner).current_plan == old(planner).current_plan,
        final(planner).actions == old(planner).actions,
        final(planner).always_plan == old(planner).always_plan,
        final(planner).remove_goal_on_no_plan_found == old(planner).remove_goal_on_no_plan_found,
{
    let go = !planner.is_planning && (planner.always_plan || planner.plan_next_tick)
        && planner.current_goal.is_some();
    if go {
        planner.is_planning = true;
        planner.plan_next_tick = false;
    }
    go
}

/// Index of the first action named `name`, if any.
fn find_action(actions: &Vec<Action>, name: &String) -> (r: Option<usize>)
    ensures
        match r {
            Some(i) => first_action_named(actions@, name@, i as int),
            None => forall|j: int| 0 <= j < actions@.len() ==> (#[trigger] actions@[j]).key@ != name@,
        },
{
    let n = actions.len();
    let mut i: usize = 0;
    while i < n
        invariant
            n == actions@.len(),
            i <= n,
            forall|j: int| 0 <= j < i ==> (#[trigger] actions@[j]).key@ != name@,
        decreases n - i,
    {
        if actions[i].key == *name {
            return Some(i);
        }
        i = i + 1;
    }
    None
}

/// Takes in a finished search. The planner is no longer planning. With no plan,
/// the current goal is dropped where `remove_goal_on_no_plan_found` is set. With
/// a plan, `current_plan` becomes the names of its effects; where it has a first
/// effect naming one of the planner's actions, that action becomes current and its
/// marker is attached, all markers being detached first where another action was
/// current.
pub fn handle_planner_tasks(planner: &mut Planner, result: Option<(Vec<Node>, usize)>) -> (r: MarkerUpdate)
    ensures
        !final(planner).is_planning,
        final(planner).state == old(planner).state,
        final(planner).goals == old(planner).goals,
        final(planner).actions == old(planner).actions,
        final(planner).always_plan == old(planner).always_plan,
        final(planner).remove_goal_on_no_plan_found == old(planner).remove_goal_on_no_plan_found,
        final(planner).plan_next_tick == old(planner).plan_next_tick,
        result is None ==> r is Keep && final(planner).current_action == old(planner).current_action
            && final(planner).current_plan == old(planner).current_plan
            && final(planner).current_goal == (if old(planner).remove_goal_on_no_plan_found {
                None::<Goal>
            } else {
                old(planner).current_goal
            }),
        result matches Some((p, c)) ==> final(planner).current_goal == old(planner).current_goal
            && final(planner).current_plan@.len() == effects_of(p@).len()
            && (forall|i: int| 0 <= i < effects_of(p@).len() ==> (#[trigger] final(planner).current_plan@[i])@ == effects_of(p@)[i].action@),
        result matches Some((p, c)) ==> (effects_of(p@).len() == 0 || forall|j: int| 0 <= j < old(planner).actions@.len()
            ==> (#[trigger] old(planner).actions@[j]).key@ != effects_of(p@)[0].action@)
            ==> r is Keep && final(planner).current_action == old(planner).current_action,
        result matches Some((p, c)) ==> effects_of(p@).len() > 0 ==> forall|i: int|
            #[trigger] first_action_named(old(planner).actions@, effects_of(p@)[0].action@, i) ==> (
            holds_action(final(planner).current_action, old(planner).actions@[i])
            && attaches(r, effects_of(p@)[0].action@, other_current(old(planner).current_action, effects_of(p@)[0].action@))),
{
    planner.is_planning = false;
    match result {
        None => {
            if planner.remove_goal_on_no_plan_found {
                planner.current_goal = None;
            }
            MarkerUpdate::Keep
        },
        Some((path, _)) => {
            let effects = get_effects_from_plan(path);
            let mut names: Vec<String> = Vec::new();
            let n = effects.len();
            let mut i: usize = 0;
            while i < n
                invariant
                    n == effects@.len(),
                    i <= n,
                    names@.len() == i,
                    forall|j: int| 0 <= j < i ==> (#[trigger] names@[j])@ == effects@[j].action@,
                decreases n - i,
            {
                names.push(effects[i].action.clone());
                i = i + 1;
            }
            planner.current_plan = names;
            if n == 0 {
                return MarkerUpdate::Keep;
            }
            let name = &effects[0].action;
            match find_action(&planner.actions, name) {
                None => MarkerUpdate::Keep,
                Some(k) => {
                    let detach_all = match &planner.current_action {
                        Some(b) => b.key != *name,
                        None => false,
                    };
                    let chosen = planner.actions[k].duplicate();
                    planner.current_action = Some(chosen);
                    proof {
                        assert forall|i: int| #[trigger] first_action_named(planner.actions@, name@, i) implies i == k by {
                            if i < k {
                                assert(planner.actions@[i].key@ != name@);
                            } else if k < i {
                                assert(planner.actions@[k as int].key@ != name@);
                            }
                        }
                    }
                    MarkerUpdate::Attach { detach_all, action: name.clone() }
                },
            }
        },
    }
}

} // verus!
