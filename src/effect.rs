use vstd::prelude::*;

use crate::datum::Datum;
use crate::mutator::{copy_mutators, Mutator};
use crate::state::LocalState;

verus! {

/// What happens when an action is carried out: its mutators and its cost. In a
/// plan it also holds the state that results.
#[derive(Clone, Debug, PartialEq, Eq, Hash)]
pub struct Effect {
    pub action: String,
    pub mutators: Vec<Mutator>,
    pub state: LocalState,
    pub cost: usize,
}

impl Effect {
    /// An effect of the named action with no mutators, an empty state and cost 1.
    pub fn new(action_name: &str) -> (r: Effect)
        ensures
            r.action@ == action_name@,
            r.mutators@.len() == 0,
            r.state@ == Map::<Seq<char>, Datum>::empty(),
            r.cost == 1,
    {
        Effect {
            action: action_name.to_owned(),
            mutators: Vec::new(),
            state: LocalState::new(),
            cost: 1,
        }
    }

    /// A copy of the effect.
    pub fn duplicate(&self) -> (r: Effect)
        ensures
            r.action == self.action,
            r.mutators@ == self.mutators@,
            r.state@ == self.state@,
            r.cost == self.cost,
    {
        Effect {
            action: self.action.clone(),
            mutators: copy_mutators(&self.mutators),
            state: self.state.duplicate(),
            cost: self.cost,
        }
    }

    /// The effect with `mutator` appended.
    pub fn with_mutator(self, mutator: Mutator) -> (r: Effect)
        ensures
            r.action == self.action,
            r.mutators@ == self.mutators@.push(mutator),
            r.state == self.state,
            r.cost == self.cost,
    {
        let mut e = self;
        e.mutators.push(mutator);
        e
    }
}

impl Default for Effect {
    fn default() -> (r: Effect)
        ensures
            r.action@.len() == 0,
            r.mutators@.len() == 0,
            r.state@ == Map::<Seq<char>, Datum>::empty(),
            r.cost == 1,
    {
        Effect { action: String::new(), mutators: Vec::new(), state: LocalState::new(), cost: 1 }
    }
}

} // verus!
