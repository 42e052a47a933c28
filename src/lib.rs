//! Goal-oriented action planning: a typed key/value world state, actions made of
//! preconditions and mutators, goals as conjunctions of comparisons, and an A*
//! search that turns them into least-cost plans.

pub mod datum;
pub mod keymap;
pub mod compare;
pub mod mutator;
pub mod effect;
pub mod action;
pub mod goal;
pub mod state;
pub mod planner;
pub mod simple;
pub mod naming;
pub mod harness;
pub mod laws;
