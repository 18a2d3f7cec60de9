//! The argument extractor.
use crate::context::Context;
use crate::error::InputError;
use crate::path::value_of;
use vstd::prelude::*;

verus! {

/// The value of one argument of a task's context.
pub struct Args(pub String);

impl Args {
    /// The argument `name` of the context; an input error where the
    /// context binds no such argument.
    pub fn from_context(context: &Context, name: &str) -> (r: Result<Args, InputError>)
        ensures
            r is Ok <==> value_of(context@.args, name@) is Some,
            r is Ok ==> r->Ok_0.0@ == value_of(context@.args, name@)->0,
    {
        match context.args.get(name) {
            Some(value) => Ok(Args(value.clone())),
            None => Err(InputError(String::from_str("missing argument ").concat(name))),
        }
    }

    /// The value of the argument.
    pub fn get(&self) -> (r: &str)
        ensures
            r@ == self.0@,
    {
        self.0.as_str()
    }
}

} // verus!
