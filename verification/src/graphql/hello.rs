use vstd::prelude::*;

verus! {

/// Resolver group answering the hello probe.
#[derive(PartialEq, Eq, Structural)]
pub struct Hello {}

impl Hello {
    /// The fixed greeting the probe answers with.
    pub fn hello(&self) -> (r: String)
        ensures
            r@ == "hello"@,
    {
        "hello".to_owned()
    }
}

impl Default for Hello {
    fn default() -> (r: Self)
        ensures
            r == (Hello {}),
    {
        Hello {}
    }
}

} // verus!
