//! The state document that tasks read and patches change.
use crate::error::{Error, UnexpectedError};
use crate::json::{apply, apply_all, json_resolve, json_text, resolve, text, ResolveFailure};
use crate::patch::{ops_model, Patch, PatchOp};
use crate::path::Path;
use serde_json::Value;
use vstd::prelude::*;

verus! {

/// The state document.
pub struct System {
    state: Value,
}

impl View for System {
    type V = Value;

    closed spec fn view(&self) -> Value {
        self.state
    }
}

impl Clone for System {
    fn clone(&self) -> (r: Self)
        ensures
            r@ == self@,
    {
        System { state: self.state.clone() }
    }
}

impl System {
    /// The state that a document describes.
    pub fn new(state: Value) -> (r: System)
        ensures
            r@ == state,
    {
        System { state }
    }

    /// The whole document.
    pub fn root(&self) -> (r: &Value)
        ensures
            *r == self@,
    {
        &self.state
    }

    /// The whole document.
    pub fn state(&self) -> (r: &Value)
        ensures
            *r == self@,
    {
        &self.state
    }

    /// The state as compact JSON text.
    pub fn to_string(&self) -> (r: String)
        ensures
            r@ == json_text(self@),
    {
        text(&self.state)
    }

    /// The value at `path`, or `None` where the path does not resolve.
    pub fn pointer(&self, path: &Path) -> (r: Option<&Value>)
        ensures
            match r {
                Some(v) => json_resolve(self@, path@) == Ok::<Value, ResolveFailure>(*v),
                None => json_resolve(self@, path@) is Err,
            },
    {
        match resolve(&self.state, path) {
            Ok(v) => Some(v),
            Err(_) => None,
        }
    }

    /// Applies operations, all of them or none: where one fails the state
    /// is as before and the error is `Unexpected`.
    pub fn apply(&mut self, changes: &Vec<PatchOp>) -> (r: Result<(), Error>)
        ensures
            match apply_all(old(self)@, ops_model(changes@)) {
                Some(after) => r is Ok && final(self)@ == after,
                None => r is Err && r->Err_0 is Unexpected && final(self)@ == old(self)@,
            },
    {
        match apply(&mut self.state, changes) {
            Ok(()) => Ok(()),
            Err(_) => Err(
                Error::Unexpected(UnexpectedError(String::from_str("failed to patch system state"))),
            ),
        }
    }

    /// Applies a patch, all of it or nothing: where an operation fails the
    /// state is as before and the error is `Unexpected`.
    pub fn patch(&mut self, changes: &Patch) -> (r: Result<(), Error>)
        ensures
            match apply_all(old(self)@, changes@) {
                Some(after) => r is Ok && final(self)@ == after,
                None => r is Err && r->Err_0 is Unexpected && final(self)@ == old(self)@,
            },
    {
        self.apply(&changes.0)
    }
}

} // verus!
