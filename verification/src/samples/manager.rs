//! Sample manager cache statistics.

use vstd::prelude::*;

verus! {

/// Sample manager cache statistics.
#[derive(Debug, Clone)]
pub struct CacheStats {
    pub prepared_samples: usize,
}

} // verus!
