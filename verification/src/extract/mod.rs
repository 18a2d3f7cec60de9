//! Extractors: what a job takes from the state and from its context.
pub mod args;
pub mod system;
pub mod target;
pub mod view;

use vstd::prelude::*;
use vstd::view::View as _;

pub use args::Args;
pub use system::System;
pub use target::Target;
pub use view::{Pointer, View};

verus! {

/// The kinds of extractor. A job declares the ones it uses.
#[derive(Clone, Copy, PartialEq, Eq, Structural)]
pub enum Extractor {
    /// The value at the context's path, which must be there.
    View,
    /// The value at the context's path, which may be absent.
    Pointer,
    /// The target of the context.
    Target,
    /// An argument of the context.
    Args,
    /// The whole state.
    System,
}

impl Extractor {
    /// Whether the extractor reads nothing but what belongs to the path.
    pub open spec fn scoped(self) -> bool {
        !(self is System)
    }

    /// Whether the extractor reads nothing but what belongs to the path:
    /// every kind but `System`.
    pub fn is_scoped(&self) -> (r: bool)
        ensures
            r == self.scoped(),
    {
        match self {
            Extractor::System => false,
            _ => true,
        }
    }
}

/// Whether every one of the extractors is scoped.
pub fn all_scoped(extractors: &Vec<Extractor>) -> (r: bool)
    ensures
        r <==> forall|i: int| 0 <= i < extractors@.len() ==> (#[trigger] extractors@[i]).scoped(),
{
    let mut i: usize = 0;
    while i < extractors.len()
        invariant
            0 <= i <= extractors.len(),
            forall|j: int| 0 <= j < i ==> (#[trigger] extractors@[j]).scoped(),
        decreases extractors.len() - i,
    {
        if !extractors[i].is_scoped() {
            return false;
        }
        i += 1;
    }
    true
}

} // verus!
