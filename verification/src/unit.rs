use vstd::prelude::*;

verus! {

/// The index of a compilation unit; `usize::MAX` marks an id that was never
/// assigned.
#[derive(Debug, Clone, Copy, PartialEq, Eq, Structural)]
pub struct CompilationUnitId(pub usize);

impl CompilationUnitId {
    /// The id that no compilation unit carries.
    #[allow(non_snake_case)]
    pub fn Invalid() -> (res: Self)
        ensures
            res.0 == usize::MAX,
    {
        CompilationUnitId(usize::MAX)
    }

    /// The raw index of a valid id.
    pub fn unwrap(&self) -> (res: usize)
        requires
            self.0 != usize::MAX,
        ensures
            res == self.0,
    {
        self.0
    }
}

} // verus!
