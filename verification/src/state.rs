//! Mutations: what the root state is asked to change by.

use vstd::prelude::*;

verus! {

/// A request to change the state: the name of the mutator to run, and what
/// it is given.
pub struct Mutation {
    pub name: &'static str,
    pub value: String,
    pub number: isize,
}

impl Mutation {
    /// A mutation for the mutator `name`.
    pub fn new(name: &'static str, value: String, number: isize) -> (m: Mutation)
        ensures
            m.name == name,
            m.value == value,
            m.number == number,
    {
        Mutation { name, value, number }
    }
}

} // verus!
