use vstd::prelude::*;

verus! {

/// Resolver group for work-interval queries.
#[derive(PartialEq, Eq, Structural)]
pub struct Timer {}

impl Default for Timer {
    fn default() -> (r: Self)
        ensures
            r == (Timer {}),
    {
        Timer {}
    }
}

/// Resolver group for work-interval mutations.
#[derive(PartialEq, Eq, Structural)]
pub struct TimerMutation {}

impl Default for TimerMutation {
    fn default() -> (r: Self)
        ensures
            r == (TimerMutation {}),
    {
        TimerMutation {}
    }
}

} // verus!
