//! Where an asset lives, relative to the configured asset root.

use vstd::prelude::*;

verus! {

/// An asset's location: its path under the asset root.
#[derive(Debug, Clone, PartialEq, Eq, Hash)]
pub struct Loc {
    pub path: String,
}

impl Loc {
    pub fn new(path: String) -> (l: Loc)
        ensures
            l.path == path,
    {
        Loc { path }
    }
}

} // verus!
