//! The target extractor.
use crate::context::Context;
use serde_json::Value;
use vstd::prelude::*;

verus! {

/// The target of a task: the part of the target state at the task's path.
pub struct Target(pub Value);

impl Target {
    /// The target of the context.
    pub fn from_context(context: &Context) -> (r: Target)
        ensures
            r.0 == context@.target,
    {
        Target(context.target.clone())
    }

    /// The target.
    pub fn get(&self) -> (r: &Value)
        ensures
            *r == self.0,
    {
        &self.0
    }
}

} // verus!
