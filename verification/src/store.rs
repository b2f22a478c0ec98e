//! Actions: what the store is asked to reduce its state by.

use vstd::prelude::*;

verus! {

/// A request to reduce the state: the name of the reducer to run, and what
/// it is given.
pub struct Action {
    pub name: &'static str,
    pub value: String,
    pub number: isize,
}

impl Action {
    /// An action for the reducer `name`.
    pub fn new(name: &'static str, value: String, number: isize) -> (a: Action)
        ensures
            a.name == name,
            a.value == value,
            a.number == number,
    {
        Action { name, value, number }
    }
}

} // verus!
