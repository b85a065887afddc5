use vstd::prelude::*;

verus! {

/// Minimal root query used while the schema is probed.
#[derive(PartialEq, Eq, Structural)]
pub struct Query {}

impl Query {
    /// The fixed answer of the probe.
    pub fn hello(&self) -> (r: String)
        ensures
            r@ == "world"@,
    {
        "world".to_owned()
    }
}

} // verus!
