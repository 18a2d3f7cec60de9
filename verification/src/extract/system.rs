//! The extractor of the whole state.
use serde_json::Value;
use vstd::prelude::*;

verus! {

/// The whole state document. A job that takes it reads more than what
/// belongs to its path, and is not scoped.
pub struct System(pub Value);

impl System {
    /// The whole state.
    pub fn from_system(system: &crate::system::System) -> (r: System)
        ensures
            r.0 == system@,
    {
        System(system.root().clone())
    }

    /// The state.
    pub fn get(&self) -> (r: &Value)
        ensures
            *r == self.0,
    {
        &self.0
    }
}

} // verus!
