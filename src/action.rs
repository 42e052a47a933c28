use vstd::prelude::*;

use crate::compare::Compare;
use crate::effect::Effect;
use crate::mutator::Mutator;

verus! {

/// Something an agent can do: preconditions that must hold, and effects; the
/// planner uses the first effect.
#[derive(Clone, Debug, PartialEq, Eq, Hash)]
pub struct Action {
    /// The action's name, such as `eat_action`.
    pub key: String,
    pub preconditions: Vec<(String, Compare)>,
    pub effects: Vec<Effect>,
}

impl Action {
    pub fn new(key: &str) -> (r: Action)
        ensures
            r.key@ == key@,
            r.preconditions@.len() == 0,
            r.effects@.len() == 0,
    {
        Action { key: key.to_owned(), preconditions: Vec::new(), effects: Vec::new() }
    }

    /// A copy of the action.
    pub fn duplicate(&self) -> (r: Action)
        ensures
            r.key == self.key,
            r.preconditions@ == self.preconditions@,
            r.effects@.len() == self.effects@.len(),
            forall|i: int| 0 <= i < self.effects@.len() ==> (#[trigger] r.effects@[i]).action == self.effects@[i].action
                && r.effects@[i].mutators@ == self.effects@[i].mutators@
                && r.effects@[i].state@ == self.effects@[i].state@
                && r.effects@[i].cost == self.effects@[i].cost,
    {
        let mut preconditions: Vec<(String, Compare)> = Vec::new();
        let n = self.preconditions.len();
        let mut i: usize = 0;
        while i < n
            invariant
                n == self.preconditions@.len(),
                i <= n,
                preconditions@ == self.preconditions@.take(i as int),
            decreases n - i,
        {
            preconditions.push((self.preconditions[i].0.clone(), self.preconditions[i].1));
            i = i + 1;
            assert(preconditions@ =~= self.preconditions@.take(i as int));
        }
        assert(self.preconditions@.take(n as int) =~= self.preconditions@);
        let mut effects: Vec<Effect> = Vec::new();
        let m = self.effects.len();
        let mut j: usize = 0;
        while j < m
            invariant
                m == self.effects@.len(),
                j <= m,
                effects@.len() == j,
                forall|k: int| 0 <= k < j ==> (#[trigger] effects@[k]).action == self.effects@[k].action
                    && effects@[k].mutators@ == self.effects@[k].mutators@
                    && effects@[k].state@ == self.effects@[k].state@
                    && effects@[k].cost == self.effects@[k].cost,
            decreases m - j,
        {
            effects.push(self.effects[j].duplicate());
            j = j + 1;
        }
        Action { key: self.key.clone(), preconditions, effects }
    }

    /// An action with an empty name and nothing else.
    pub fn build() -> (r: Action)
        ensures
            r.key@.len() == 0,
            r.preconditions@.len() == 0,
            r.effects@.len() == 0,
    {
        Action { key: String::new(), preconditions: Vec::new(), effects: Vec::new() }
    }

    pub fn with_precondition(self, key: &str, compare: Compare) -> (r: Action)
        ensures
            r.key == self.key,
            r.effects == self.effects,
            r.preconditions@.len() == self.preconditions@.len() + 1,
            r.preconditions@.take(self.preconditions@.len() as int) == self.preconditions@,
            r.preconditions@.last().0@ == key@,
            r.preconditions@.last().1 == compare,
    {
        self.add_precondition((key.to_owned(), compare))
    }

    pub fn with_effect(self, effect: Effect) -> (r: Action)
        ensures
            r.key == self.key,
            r.preconditions == self.preconditions,
            r.effects@ == self.effects@.push(effect),
    {
        let mut a = self;
        a.effects.push(effect);
        a
    }

    pub fn add_precondition(self, precondition: (String, Compare)) -> (r: Action)
        ensures
            r.key == self.key,
            r.effects == self.effects,
            r.preconditions@ == self.preconditions@.push(precondition),
    {
        let mut a = self;
        a.preconditions.push(precondition);
        assert(a.preconditions@.take(a.preconditions@.len() - 1) =~= self.preconditions@);
        a
    }

    /// Appends `mutator` to the first effect, creating that effect (named after
    /// the action, cost 1) where there is none.
    pub fn add_mutator(self, mutator: Mutator) -> (r: Action)
        ensures
            r.key == self.key,
            r.preconditions == self.preconditions,
            r.effects@.len() == if self.effects@.len() == 0 { 1 } else { self.effects@.len() },
            self.effects@.len() == 0 ==> r.effects@[0].action@ == self.key@ && r.effects@[0].cost
                == 1 && r.effects@[0].mutators@ == seq![mutator] && r.effects@[0].state@.len() == 0,
            self.effects@.len() > 0 ==> r.effects@[0].action == self.effects@[0].action
                && r.effects@[0].cost == self.effects@[0].cost && r.effects@[0].state
                == self.effects@[0].state && r.effects@[0].mutators@
                == self.effects@[0].mutators@.push(mutator),
            forall|i: int| 1 <= i < r.effects@.len() ==> r.effects@[i] == self.effects@[i],
    {
        let mut a = self;
        if a.effects.len() == 0 {
            let e = Effect::new(a.key.as_str()).with_mutator(mutator);
            assert(e.mutators@ =~= seq![mutator]);
            a.effects.push(e);
        } else {
            let mut first = a.effects.remove(0);
            first.mutators.push(mutator);
            a.effects.insert(0, first);
        }
        a
    }

    /// Sets the cost of the first effect.
    pub fn set_cost(self, new_cost: usize) -> (r: Action)
        requires
            self.effects@.len() > 0,
        ensures
            r.key == self.key,
            r.preconditions == self.preconditions,
            r.effects@.len() == self.effects@.len(),
            r.effects@[0].action == self.effects@[0].action,
            r.effects@[0].mutators == self.effects@[0].mutators,
            r.effects@[0].state == self.effects@[0].state,
            r.effects@[0].cost == new_cost,
            forall|i: int| 1 <= i < r.effects@.len() ==> r.effects@[i] == self.effects@[i],
    {
        let mut a = self;
        let mut first = a.effects.remove(0);
        first.cost = new_cost;
        a.effects.insert(0, first);
        a
    }
}

impl Default for Action {
    fn default() -> (r: Action)
        ensures
            r.key@.len() == 0,
            r.preconditions@.len() == 0,
            r.effects@.len() == 0,
    {
        Action { key: String::new(), preconditions: Vec::new(), effects: Vec::new() }
    }
}

} // verus!
