use vstd::prelude::*;

verus! {

/// A mode that is never active: it stands in for the active mode while that
/// one is taken out to compute its successor.
pub struct DummyMode;

impl DummyMode {
    pub fn new() -> (r: DummyMode) {
        DummyMode
    }

    /// The placeholder shows nothing.
    pub fn status_msg(&self) -> (r: String)
        ensures
            r@ == Seq::<char>::empty(),
    {
        String::new()
    }
}

} // verus!
