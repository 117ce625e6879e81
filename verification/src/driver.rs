use vstd::prelude::*;

use crate::source::SourceRegistry;

verus! {

/// The compiler's driver: the registry of the sources it compiles.
#[derive(Debug)]
pub struct Driver {
    pub registry: SourceRegistry,
}

} // verus!
