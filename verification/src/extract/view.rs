//! Pointers and views: the value at a task's path, read from the state and
//! turned back into a patch.
use crate::context::Context;
use crate::error::{Error, InputError, UnexpectedError};
use crate::json::{
    assign, delete, diff, json_assign, json_delete, json_diff, json_resolve, resolve,
    ResolveFailure,
};
use crate::patch::Patch;
use crate::path::{parent_of, Path};
use crate::system::System;
use serde_json::Value;
use vstd::prelude::*;
use vstd::view::View as _;

verus! {

/// What a pointer at `path` holds when read from `doc`: `Some` of the value
/// there, `None` where only the parent is there, or no pointer at all
/// (`Err`) where the parent does not resolve or a scalar is in the way.
pub open spec fn pointer_at(doc: Value, path: Seq<char>) -> Result<Option<Value>, ()> {
    let parent = match parent_of(path) {
        Some(p) => p,
        None => path,
    };
    if json_resolve(doc, parent) is Err {
        Err(())
    } else {
        match json_resolve(doc, path) {
            Ok(v) => Ok(Some(v)),
            Err(ResolveFailure::NotFound) => Ok(None),
            Err(ResolveFailure::OutOfBounds) => Ok(None),
            Err(_) => Err(()),
        }
    }
}

/// The document after a pointer at `path` that holds `state` is written
/// back to `doc`: the value assigned, or what the path resolved to taken
/// out. `None` where the value cannot be assigned.
pub open spec fn written_back(doc: Value, path: Seq<char>, state: Option<Value>) -> Option<Value> {
    match state {
        Some(v) => json_assign(doc, path, v),
        None => if json_resolve(doc, path) is Ok {
            Some(json_delete(doc, path))
        } else {
            Some(doc)
        },
    }
}

/// The value at a path of the state, which may be absent.
pub struct Pointer {
    state: Option<Value>,
    path: Path,
}

impl Pointer {
    /// What the pointer holds.
    pub closed spec fn value(&self) -> Option<Value> {
        self.state
    }

    /// Where the pointer points.
    pub closed spec fn at(&self) -> Seq<char> {
        self.path@
    }

    /// Reads the pointer at the context's path from the state. An input
    /// error where the parent of the path does not resolve, or where the path
    /// itself fails for another reason than a missing key or index.
    pub fn from_system(system: &System, context: &Context) -> (r: Result<Pointer, InputError>)
        ensures
            match pointer_at(system@, context@.path) {
                Ok(state) => r is Ok && r->Ok_0.value() == state && r->Ok_0.at() == context@.path,
                Err(_) => r is Err,
            },
    {
        let root = system.root();
        let parent = match context.path.parent() {
            Some(p) => p,
            None => context.path.clone(),
        };
        if resolve(root, &parent).is_err() {
            return Err(
                InputError(
                    String::from_str("failed to resolve path ").concat(context.path.to_str()),
                ),
            );
        }
        match resolve(root, &context.path) {
            Ok(value) => Ok(Pointer { state: Some(value.clone()), path: context.path.clone() }),
            Err(ResolveFailure::NotFound) => Ok(
                Pointer { state: None, path: context.path.clone() },
            ),
            Err(ResolveFailure::OutOfBounds) => Ok(
                Pointer { state: None, path: context.path.clone() },
            ),
            Err(_) => Err(
                InputError(
                    String::from_str("failed to resolve path ").concat(context.path.to_str()),
                ),
            ),
        }
    }

    /// Where the value is.
    pub fn path(&self) -> (r: &Path)
        ensures
            r@ == self.at(),
    {
        &self.path
    }

    /// What the pointer holds.
    pub fn get(&self) -> (r: Option<&Value>)
        ensures
            match r {
                Some(v) => self.value() == Some(*v),
                None => self.value() is None,
            },
    {
        match &self.state {
            Some(v) => Some(v),
            None => None,
        }
    }

    /// Puts a value at the path.
    pub fn assign(&mut self, value: Value)
        ensures
            final(self).value() == Some(value),
            final(self).at() == old(self).at(),
    {
        self.state = Some(value);
    }

    /// Clears the value at the path.
    pub fn unassign(&mut self)
        ensures
            final(self).value() is None,
            final(self).at() == old(self).at(),
    {
        self.state = None;
    }

    /// The patch that takes the state to what the pointer holds now. A
    /// pointer that holds what it read gives the empty patch. Where the
    /// value cannot be assigned the error is `Unexpected`.
    pub fn into_result(self, system: &System) -> (r: Result<Patch, Error>)
        ensures
            match written_back(system@, self.at(), self.value()) {
                Some(after) => r is Ok && r->Ok_0@ == json_diff(system@, after),
                None => r is Err && r->Err_0 is Unexpected,
            },
            pointer_at(system@, self.at()) == Ok::<Option<Value>, ()>(self.value()) ==> r is Ok
                && r->Ok_0@.len() == 0,
    {
        let mut after = system.root().clone();
        match self.state {
            Some(value) => {
                if assign(&mut after, &self.path, value).is_err() {
                    return Err(
                        Error::Unexpected(
                            UnexpectedError(
                                String::from_str("failed to assign path ").concat(
                                    self.path.to_str(),
                                ),
                            ),
                        ),
                    );
                }
            },
            None => {
                if resolve(&after, &self.path).is_ok() {
                    delete(&mut after, &self.path);
                }
            },
        }
        Ok(Patch(diff(system.root(), &after)))
    }
}

/// The value at a path of the state, which is there.
pub struct View {
    pointer: Pointer,
}

impl View {
    #[verifier::type_invariant]
    spec fn present(self) -> bool {
        self.pointer.value() is Some
    }

    /// What the view holds.
    pub closed spec fn value(&self) -> Value {
        self.pointer.value()->0
    }

    /// Where the view points.
    pub closed spec fn at(&self) -> Seq<char> {
        self.pointer.at()
    }

    /// Reads the view at the context's path from the state. An input error
    /// where no pointer can be read there, or where the pointer is absent.
    pub fn from_system(system: &System, context: &Context) -> (r: Result<View, InputError>)
        ensures
            match pointer_at(system@, context@.path) {
                Ok(Some(v)) => r is Ok && r->Ok_0.value() == v && r->Ok_0.at() == context@.path,
                _ => r is Err,
            },
    {
        match Pointer::from_system(system, context) {
            Ok(pointer) => {
                if pointer.get().is_none() {
                    return Err(
                        InputError(
                            String::from_str("path does not exist: ").concat(
                                context.path.to_str(),
                            ),
                        ),
                    );
                }
                Ok(View { pointer })
            },
            Err(e) => Err(e),
        }
    }

    /// Where the value is.
    pub fn path(&self) -> (r: &Path)
        ensures
            r@ == self.at(),
    {
        self.pointer.path()
    }

    /// What the view holds.
    pub fn get(&self) -> (r: &Value)
        ensures
            *r == self.value(),
    {
        proof {
            use_type_invariant(self);
        }
        match self.pointer.get() {
            Some(v) => v,
            None => unreached(),
        }
    }

    /// Puts another value at the path.
    pub fn set(&mut self, value: Value)
        ensures
            final(self).value() == value,
            final(self).at() == old(self).at(),
    {
        let path = self.pointer.path.clone();
        *self = View { pointer: Pointer { state: Some(value), path } };
    }

    /// The patch that takes the state to what the view holds now. A view
    /// that holds what it read gives the empty patch.
    pub fn into_result(self, system: &System) -> (r: Result<Patch, Error>)
        ensures
            match json_assign(system@, self.at(), self.value()) {
                Some(after) => r is Ok && r->Ok_0@ == json_diff(system@, after),
                None => r is Err && r->Err_0 is Unexpected,
            },
            pointer_at(system@, self.at()) == Ok::<Option<Value>, ()>(Some(self.value())) ==> r
                is Ok && r->Ok_0@.len() == 0,
    {
        proof {
            use_type_invariant(&self);
        }
        self.pointer.into_result(system)
    }
}

} // verus!
