use vstd::prelude::*;

verus! {

/// Resolver group for the monthly report query.
#[derive(PartialEq, Eq, Structural)]
pub struct PDFQuery {}

impl Default for PDFQuery {
    fn default() -> (r: Self)
        ensures
            r == (PDFQuery {}),
    {
        PDFQuery {}
    }
}

} // verus!
