use vstd::prelude::*;

verus! {

/// Resolver group for task queries.
#[derive(PartialEq, Eq, Structural)]
pub struct TaskQuery {}

impl Default for TaskQuery {
    fn default() -> (r: Self)
        ensures
            r == (TaskQuery {}),
    {
        TaskQuery {}
    }
}

/// Resolver group for task mutations.
#[derive(PartialEq, Eq, Structural)]
pub struct TaskMutation {}

impl Default for TaskMutation {
    fn default() -> (r: Self)
        ensures
            r == (TaskMutation {}),
    {
        TaskMutation {}
    }
}

} // verus!
