use vstd::prelude::*;

verus! {

/// Resolver group for employee mutations; its password-change resolver
/// drives the salt rotation and re-hashing of the credential core.
#[derive(PartialEq, Eq, Structural)]
pub struct EmployeeMutation {}

impl Default for EmployeeMutation {
    fn default() -> (r: Self)
        ensures
            r == (EmployeeMutation {}),
    {
        EmployeeMutation {}
    }
}

/// Resolver group for employee queries.
#[derive(PartialEq, Eq, Structural)]
pub struct EmployeeQuery {}

impl Default for EmployeeQuery {
    fn default() -> (r: Self)
        ensures
            r == (EmployeeQuery {}),
    {
        EmployeeQuery {}
    }
}

} // verus!
