use dogoap::action::Action;
use dogoap::compare::Compare;
use dogoap::datum::Datum;
use dogoap::effect::Effect;
use dogoap::goal::Goal;
use dogoap::harness::{
    create_planner_tasks, handle_planner_tasks, update_planner_local_state, MarkerUpdate, Planner,
};
use dogoap::mutator::{apply_mutators, Mutator};
use dogoap::planner::{
    get_effects_from_plan, heuristic, is_goal, make_plan, make_plan_with_strategy, plan_cost,
    successors, Node, PlanningStrategy,
};
use dogoap::simple::{
    add_preconditions, simple_action, simple_decrement_action, simple_increment_action,
    simple_multi_mutate_action,
};
use dogoap::state::LocalState;

fn names(effects: &[Effect]) -> Vec<String> {
    effects.iter().map(|e| e.action.clone()).collect()
}

#[test]
fn scenario_single_bool_cost() {
    let start = LocalState::new().with_datum("is_hungry", Datum::Bool(true));
    let goal = Goal::new().with_req("is_hungry", Compare::Equals(Datum::Bool(false)));
    let actions = vec![simple_action("eat", "is_hungry", Datum::Bool(false))];
    let (path, cost) = make_plan(&start, &actions, &goal).unwrap();
    assert_eq!(cost, 1);
    let effects = get_effects_from_plan(path);
    assert_eq!(names(&effects), vec!["eat"]);
    assert_eq!(effects[0].state, LocalState::new().with_datum("is_hungry", Datum::Bool(false)));
}

#[test]
fn scenario_preconditioned_chain_cost() {
    let start = LocalState::new()
        .with_datum("is_hungry", Datum::Bool(true))
        .with_datum("is_tired", Datum::Bool(true));
    let goal = Goal::new()
        .with_req("is_hungry", Compare::Equals(Datum::Bool(false)))
        .with_req("is_tired", Compare::Equals(Datum::Bool(false)));
    let mut eat = simple_multi_mutate_action(
        "eat",
        vec![("is_hungry", Datum::Bool(false)), ("is_tired", Datum::Bool(true))],
    );
    add_preconditions(&mut eat, vec![("is_tired", Compare::Equals(Datum::Bool(false)))]);
    let sleep = simple_action("sleep", "is_tired", Datum::Bool(false));
    let (path, cost) = make_plan(&start, &[eat, sleep], &goal).unwrap();
    assert_eq!(cost, 3);
    assert_eq!(names(&get_effects_from_plan(path)), vec!["sleep", "eat", "sleep"]);
}

#[test]
fn scenario_cost_preference() {
    let start = LocalState::new().with_datum("gold", Datum::I64(0));
    let goal = Goal::new().with_req("gold", Compare::Equals(Datum::I64(10)));
    let cheap = Action::new("cheap")
        .add_mutator(Mutator::Increment("gold".to_string(), Datum::I64(1)))
        .set_cost(1);
    let expensive = Action::new("expensive")
        .add_mutator(Mutator::Increment("gold".to_string(), Datum::I64(3)))
        .set_cost(4);
    let (path, cost) = make_plan(&start, &[cheap, expensive], &goal).unwrap();
    assert_eq!(cost, 10);
    let effects = get_effects_from_plan(path);
    assert_eq!(effects.len(), 10);
    assert!(effects.iter().all(|e| e.action == "cheap"));
}

#[test]
fn scenario_enum_navigation_cost() {
    let (house, outside, market, ramen) =
        (Datum::Enum(0), Datum::Enum(1), Datum::Enum(2), Datum::Enum(3));
    let start = LocalState::new().with_datum("at", house);
    let goal = Goal::new().with_req("at", Compare::Equals(ramen));
    let actions = vec![
        simple_action("go_outside", "at", outside).with_precondition("at", Compare::Equals(house)),
        simple_action("go_to_market", "at", market)
            .with_precondition("at", Compare::Equals(outside)),
        simple_action("go_to_ramen", "at", ramen).with_precondition("at", Compare::Equals(outside)),
    ];
    let (path, cost) = make_plan(&start, &actions, &goal).unwrap();
    assert_eq!(cost, 2);
    assert_eq!(names(&get_effects_from_plan(path)), vec!["go_outside", "go_to_ramen"]);

    let actions = vec![
        simple_action("go_outside", "at", outside).with_precondition("at", Compare::Equals(house)),
        simple_action("go_to_market", "at", market)
            .with_precondition("at", Compare::Equals(outside)),
        simple_action("go_to_ramen", "at", ramen).with_precondition("at", Compare::Equals(market)),
    ];
    let (path, cost) = make_plan(&start, &actions, &goal).unwrap();
    assert_eq!(cost, 3);
    assert_eq!(
        names(&get_effects_from_plan(path)),
        vec!["go_outside", "go_to_market", "go_to_ramen"]
    );
}

#[test]
fn scenario_integer_targeting_cost() {
    let start = LocalState::new().with_datum("energy", Datum::I64(0));
    let goal = Goal::new().with_req("energy", Compare::GreaterThanEquals(Datum::I64(50)));
    let actions = vec![simple_increment_action("eat", "energy", Datum::I64(6))];
    let (path, cost) = make_plan(&start, &actions, &goal).unwrap();
    assert_eq!(cost, 9);
    let effects = get_effects_from_plan(path);
    assert_eq!(effects.len(), 9);
    assert_eq!(effects.last().unwrap().state.get("energy"), Some(Datum::I64(54)));
}

#[test]
fn scenario_resource_chain_cost() {
    let start = LocalState::new()
        .with_datum("energy", Datum::I64(30))
        .with_datum("hunger", Datum::I64(70))
        .with_datum("gold", Datum::I64(0));
    let goal = Goal::new().with_req("gold", Compare::Equals(Datum::I64(10)));
    let sleep = simple_increment_action("sleep", "energy", Datum::I64(1));
    let eat = simple_decrement_action("eat", "hunger", Datum::I64(1))
        .with_precondition("energy", Compare::GreaterThanEquals(Datum::I64(50)));
    let rob = simple_increment_action("rob", "gold", Datum::I64(1))
        .with_precondition("hunger", Compare::LessThanEquals(Datum::I64(50)))
        .with_precondition("energy", Compare::GreaterThanEquals(Datum::I64(50)));
    let (path, cost) = make_plan(&start, &[sleep, eat, rob], &goal).unwrap();
    assert_eq!(cost, 50);
    let effects = get_effects_from_plan(path);
    assert_eq!(effects.len(), 50);
    let expected = LocalState::new()
        .with_datum("energy", Datum::I64(50))
        .with_datum("hunger", Datum::I64(50))
        .with_datum("gold", Datum::I64(10));
    assert_eq!(effects.last().unwrap().state, expected);
}

#[test]
fn no_plan_when_unreachable() {
    let start = LocalState::new().with_datum("door", Datum::Bool(false));
    let goal = Goal::new().with_req("door", Compare::Equals(Datum::Bool(true)));
    let actions = vec![simple_action("close", "door", Datum::Bool(false))];
    assert!(make_plan(&start, &actions, &goal).is_none());
}

#[test]
fn missing_goal_key_is_not_met() {
    let start = LocalState::new().with_datum("a", Datum::Bool(true));
    let goal = Goal::new().with_req("b", Compare::Equals(Datum::Bool(true)));
    assert!(!is_goal(&Node::State(start.clone()), &goal));
    let actions = vec![simple_action("make_b", "b", Datum::Bool(true))];
    let (path, cost) = make_plan(&start, &actions, &goal).unwrap();
    assert_eq!(cost, 1);
    assert_eq!(path.len(), 2);
}

#[test]
fn empty_mutator_list_gives_no_successor() {
    let start = LocalState::new().with_datum("a", Datum::Bool(true));
    let idle = Action::new("idle").with_effect(Effect::new("idle"));
    let act = simple_action("act", "a", Datum::Bool(false));
    let node = Node::State(start);
    let next = successors(&node, &[idle, Action::new("no_effect"), act]);
    assert_eq!(next.len(), 1);
    match &next[0].0 {
        Node::Effect(e) => assert_eq!(e.action, "act"),
        Node::State(_) => panic!("expected an effect node"),
    }
    assert_eq!(next[0].1, 1);
}

#[test]
fn determinism_repeated_plans_equal() {
    let start = LocalState::new()
        .with_datum("is_hungry", Datum::Bool(true))
        .with_datum("is_tired", Datum::Bool(true));
    let goal = Goal::new()
        .with_req("is_hungry", Compare::Equals(Datum::Bool(false)))
        .with_req("is_tired", Compare::Equals(Datum::Bool(false)));
    let actions = vec![
        simple_action("eat", "is_hungry", Datum::Bool(false)),
        simple_action("sleep", "is_tired", Datum::Bool(false)),
    ];
    let first = make_plan(&start, &actions, &goal).unwrap();
    for _ in 0..5 {
        let again = make_plan(&start, &actions, &goal).unwrap();
        assert_eq!(first.0, again.0);
        assert_eq!(first.1, again.1);
    }
}

#[test]
fn no_op_plan_is_start_alone() {
    let start = LocalState::new().with_datum("gold", Datum::I64(10));
    let goal = Goal::new().with_req("gold", Compare::Equals(Datum::I64(10)));
    let actions = vec![simple_increment_action("earn", "gold", Datum::I64(1))];
    let (path, cost) = make_plan_with_strategy(PlanningStrategy::default(), &start, &actions, &goal)
        .unwrap();
    assert_eq!(path.len(), 1);
    assert_eq!(cost, 0);
    assert_eq!(path[0], Node::State(start));
    assert!(get_effects_from_plan(path).is_empty());
}

#[test]
fn replaying_effects_reproduces_states() {
    let start = LocalState::new()
        .with_datum("energy", Datum::I64(30))
        .with_datum("hunger", Datum::I64(70))
        .with_datum("gold", Datum::I64(0));
    let goal = Goal::new().with_req("gold", Compare::Equals(Datum::I64(3)));
    let sleep = simple_increment_action("sleep", "energy", Datum::I64(10));
    let eat = simple_decrement_action("eat", "hunger", Datum::I64(10));
    let rob = simple_increment_action("rob", "gold", Datum::I64(1))
        .with_precondition("hunger", Compare::LessThanEquals(Datum::I64(50)))
        .with_precondition("energy", Compare::GreaterThanEquals(Datum::I64(50)));
    let (path, _) = make_plan(&start, &[sleep, eat, rob], &goal).unwrap();
    let mut state = start.clone();
    for effect in get_effects_from_plan(path) {
        state = apply_mutators(&state, &effect.mutators).unwrap();
        assert_eq!(state, effect.state);
    }
    assert_eq!(state.get("gold"), Some(Datum::I64(3)));
}

#[test]
fn heuristic_admissible_on_bounded_plan() {
    let start = LocalState::new()
        .with_datum("gold", Datum::I64(0))
        .with_datum("wood", Datum::I64(2));
    let goal = Goal::new()
        .with_req("gold", Compare::Equals(Datum::I64(4)))
        .with_req("wood", Compare::Equals(Datum::I64(0)));
    let mine = Action::new("mine")
        .add_mutator(Mutator::Increment("gold".to_string(), Datum::I64(2)))
        .set_cost(3);
    let chop = simple_decrement_action("burn", "wood", Datum::I64(1));
    let (path, cost) = make_plan(&start, &[mine, chop], &goal).unwrap();
    assert_eq!(cost, 8);
    for i in 0..path.len() {
        let remaining = plan_cost(&path[i..].to_vec());
        assert!(heuristic(&path[i], &goal) <= remaining);
    }
    assert_eq!(heuristic(&path[path.len() - 1], &goal), 0);
}

#[test]
fn distance_zero_iff_equal_values() {
    let values = [
        Datum::Bool(true),
        Datum::Bool(false),
        Datum::I64(-3),
        Datum::I64(0),
        Datum::I64(7),
    ];
    for a in values.iter() {
        for b in values.iter() {
            if a.same_variant_as(b) {
                assert_eq!(a.distance(b) == 0, a == b);
                assert_eq!(a.distance(b), b.distance(a));
            }
        }
    }
    assert_eq!(Datum::Enum(4).distance(&Datum::Enum(4)), 0);
    assert_eq!(Datum::Enum(4).distance(&Datum::Enum(2)), 1);
}

#[test]
fn harness_lifecycle() {
    let goal = Goal::new().with_req("is_hungry", Compare::Equals(Datum::Bool(false)));
    let actions = vec![
        simple_action("eat", "is_hungry", Datum::Bool(false)),
        simple_action("sleep", "is_tired", Datum::Bool(false)),
    ];
    let mut planner = Planner::new(LocalState::new(), vec![goal], actions);
    assert!(planner.current_goal.is_some());
    update_planner_local_state(&mut planner, &vec![("is_hungry".to_string(), Datum::Bool(true))]);
    assert_eq!(planner.state.get("is_hungry"), Some(Datum::Bool(true)));

    assert!(create_planner_tasks(&mut planner));
    assert!(planner.is_planning);
    assert!(!create_planner_tasks(&mut planner));

    let goal = planner.current_goal.clone().unwrap();
    let result = make_plan(&planner.state, &planner.actions, &goal);
    let update = handle_planner_tasks(&mut planner, result);
    assert_eq!(update, MarkerUpdate::Attach { detach_all: false, action: "eat".to_string() });
    assert!(!planner.is_planning);
    assert_eq!(planner.current_plan, vec!["eat".to_string()]);
    assert_eq!(planner.current_action.as_ref().unwrap().key, "eat");

    let sleep_plan = Some((
        vec![
            Node::State(LocalState::new()),
            Node::Effect(Effect::new("sleep")),
        ],
        1,
    ));
    let update = handle_planner_tasks(&mut planner, sleep_plan);
    assert_eq!(update, MarkerUpdate::Attach { detach_all: true, action: "sleep".to_string() });
    assert_eq!(planner.current_action.as_ref().unwrap().key, "sleep");

    let update = handle_planner_tasks(&mut planner, None);
    assert_eq!(update, MarkerUpdate::Keep);
    assert!(planner.current_goal.is_none());
    assert!(!create_planner_tasks(&mut planner));
}

#[test]
fn harness_plan_next_tick_is_one_off() {
    let goal = Goal::new().with_req("x", Compare::Equals(Datum::Bool(true)));
    let mut planner = Planner::new(LocalState::new(), vec![goal], vec![]);
    planner.always_plan = false;
    planner.remove_goal_on_no_plan_found = false;
    assert!(!create_planner_tasks(&mut planner));
    planner.plan_next_tick = true;
    assert!(create_planner_tasks(&mut planner));
    assert!(!planner.plan_next_tick);
    assert_eq!(handle_planner_tasks(&mut planner, None), MarkerUpdate::Keep);
    assert!(planner.current_goal.is_some());
    assert!(!create_planner_tasks(&mut planner));
}

#[test]
fn harness_empty_plan_keeps_action_and_goal() {
    let goal = Goal::new().with_req("done", Compare::Equals(Datum::Bool(true)));
    let actions = vec![simple_action("finish", "done", Datum::Bool(true))];
    let start = LocalState::new().with_datum("done", Datum::Bool(true));
    let mut planner = Planner::new(start, vec![goal], actions);
    assert!(create_planner_tasks(&mut planner));
    let goal = planner.current_goal.clone().unwrap();
    let result = make_plan(&planner.state, &planner.actions, &goal);
    assert_eq!(result.as_ref().unwrap().0.len(), 1);
    assert_eq!(handle_planner_tasks(&mut planner, result), MarkerUpdate::Keep);
    assert!(planner.current_goal.is_some());
    assert!(planner.current_plan.is_empty());
    assert!(planner.current_action.is_none());
}
