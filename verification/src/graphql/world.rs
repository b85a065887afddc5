use vstd::prelude::*;

verus! {

/// Resolver group answering the world probe.
#[derive(PartialEq, Eq, Structural)]
pub struct World {}

impl World {
    /// The fixed answer of the probe.
    pub fn world(&self) -> (r: String)
        ensures
            r@ == "world"@,
    {
        "world".to_owned()
    }
}

impl Default for World {
    fn default() -> (r: Self)
        ensures
            r == (World {}),
    {
        World {}
    }
}

} // verus!
