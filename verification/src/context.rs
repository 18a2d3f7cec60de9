//! The context of a task: where it works, with which arguments, toward
//! which target.
use crate::json::{json_text, null};
use crate::path::{bind, Path, PathArgs};
use serde_json::Value;
use vstd::prelude::*;

verus! {

/// A context as plain values.
pub struct ContextModel {
    pub path: Seq<char>,
    pub args: Seq<(Seq<char>, Seq<char>)>,
    pub target: Value,
}

/// The context of a task.
pub struct Context {
    /// The place in the state document that the task works on.
    pub path: Path,
    /// The arguments captured from the path template.
    pub args: PathArgs,
    /// The part of the target that belongs to the path.
    pub target: Value,
}

impl View for Context {
    type V = ContextModel;

    open spec fn view(&self) -> ContextModel {
        ContextModel { path: self.path@, args: self.args@, target: self.target }
    }
}

impl Clone for Context {
    fn clone(&self) -> (r: Self)
        ensures
            r@ == self@,
    {
        Context {
            path: self.path.clone(),
            args: self.args.duplicate(),
            target: self.target.clone(),
        }
    }
}

impl Context {
    /// The context at the root, without arguments, with `null` for target.
    pub fn new() -> (r: Context)
        ensures
            r@.path.len() == 0,
            r@.args.len() == 0,
            json_text(r@.target) == seq!['n', 'u', 'l', 'l'],
    {
        Context { path: Path::root(), args: PathArgs::new(), target: null() }
    }

    /// The same context with another target.
    pub fn with_target(self, target: Value) -> (r: Context)
        ensures
            r@ == (ContextModel { target, ..self@ }),
    {
        Context { path: self.path, args: self.args, target }
    }

    /// The same context at another path.
    pub fn with_path(self, path: Path) -> (r: Context)
        ensures
            r@ == (ContextModel { path: path@, ..self@ }),
    {
        Context { path, args: self.args, target: self.target }
    }

    /// Binds the argument `key` to `value`: in place where it is bound
    /// already, at the end otherwise.
    pub fn with_arg(self, key: &str, value: &str) -> (r: Context)
        ensures
            r@ == (ContextModel { args: bind(self@.args, key@, value@), ..self@ }),
    {
        let mut args = self.args;
        args.insert(key, value);
        Context { path: self.path, args, target: self.target }
    }
}

} // verus!
