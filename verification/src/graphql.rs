use vstd::prelude::*;

pub mod employee;
pub mod hello;
pub mod logs;
pub mod pdf;
pub mod query;
pub mod task;
pub mod timer;
pub mod world;

use self::pdf::PDFQuery;
use self::task::{TaskMutation, TaskQuery};
use self::timer::{Timer, TimerMutation};
use self::employee::EmployeeMutation;

verus! {

/// Root query object of the schema: the timer, task and report resolver
/// groups merged into one.  The resolvers themselves perform I/O and live
/// with the server around the library.
#[derive(PartialEq, Eq, Structural)]
pub struct Query(pub Timer, pub TaskQuery, pub PDFQuery);

impl Default for Query {
    fn default() -> (r: Self)
        ensures
            r == (Query(Timer {}, TaskQuery {}, PDFQuery {})),
    {
        Query(Timer {}, TaskQuery {}, PDFQuery {})
    }
}

/// Root mutation object of the schema: the timer, task and employee
/// mutation groups merged into one.
#[derive(PartialEq, Eq, Structural)]
pub struct Mutation(pub TimerMutation, pub TaskMutation, pub EmployeeMutation);

impl Default for Mutation {
    fn default() -> (r: Self)
        ensures
            r == (Mutation(TimerMutation {}, TaskMutation {}, EmployeeMutation {})),
    {
        Mutation(TimerMutation {}, TaskMutation {}, EmployeeMutation {})
    }
}

} // verus!
