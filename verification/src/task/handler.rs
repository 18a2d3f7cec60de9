//! The functions behind jobs.
//!
//! The planner never looks inside a job: it calls it on a state and a
//! context and works with what comes back. A job promises one thing, that
//! what comes back depends on the state and the context alone.
use crate::context::{Context, ContextModel};
use crate::error::{Error, ErrorKind};
use crate::extract::Extractor;
use crate::patch::{OpModel, Patch};
use crate::path::bind;
use crate::system::System;
use serde_json::Value;
use vstd::prelude::*;

verus! {

/// A task that a method asks for: the job by its id, and the context that
/// the method gives it. The planner finds the job and the path in the domain.
pub struct Subtask {
    pub id: String,
    pub context: Context,
}

/// A sub-task as plain values.
pub struct SubtaskModel {
    pub id: Seq<char>,
    pub context: ContextModel,
}

impl View for Subtask {
    type V = SubtaskModel;

    open spec fn view(&self) -> SubtaskModel {
        SubtaskModel { id: self.id@, context: self.context@ }
    }
}

impl Subtask {
    /// The sub-task for the job `id`, at the root, without arguments, with
    /// `null` for target.
    pub fn new(id: &str) -> (r: Subtask)
        ensures
            r@.id == id@,
            r@.context.path.len() == 0,
            r@.context.args.len() == 0,
    {
        Subtask { id: String::from_str(id), context: Context::new() }
    }

    /// The same sub-task with another target.
    pub fn with_target(self, target: Value) -> (r: Subtask)
        ensures
            r@ == (SubtaskModel { context: ContextModel { target, ..self@.context }, ..self@ }),
    {
        Subtask { id: self.id, context: self.context.with_target(target) }
    }

    /// The same sub-task with the argument `key` bound to `value`.
    pub fn with_arg(self, key: &str, value: &str) -> (r: Subtask)
        ensures
            r@ == (SubtaskModel {
                context: ContextModel {
                    args: bind(self@.context.args, key@, value@),
                    ..self@.context
                },
                ..self@
            }),
    {
        Subtask { id: self.id, context: self.context.with_arg(key, value) }
    }
}

/// The sub-tasks as plain values.
pub open spec fn subtasks_model(tasks: Seq<Subtask>) -> Seq<SubtaskModel> {
    tasks.map_values(|t: Subtask| t@)
}

/// What an action gave back, as plain values.
pub open spec fn projected(r: Result<Patch, Error>) -> Result<Seq<OpModel>, ErrorKind> {
    match r {
        Ok(patch) => Ok(patch@),
        Err(e) => Err(e@),
    }
}

/// A description, as text.
pub open spec fn described_as(r: Option<String>) -> Option<Seq<char>> {
    match r {
        Some(text) => Some(text@),
        None => None,
    }
}

/// What a method gave back, as plain values.
pub open spec fn expanded(r: Result<Vec<Subtask>, Error>) -> Result<Seq<SubtaskModel>, ErrorKind> {
    match r {
        Ok(tasks) => Ok(subtasks_model(tasks@)),
        Err(e) => Err(e@),
    }
}

/// The function of an action: from the state and a context to the patch
/// that the action would make.
///
/// The spec functions say what the methods give back, as functions of the
/// handler and of what the methods take. An implementation states there
/// what it computes; one that states nothing leaves them unknown, and
/// promises only that its methods are such functions.
pub trait Handler {
    /// The id of the job.
    open spec fn name(&self) -> Seq<char> {
        arbitrary()
    }

    /// The extractors that the job uses.
    open spec fn inputs(&self) -> Seq<Extractor> {
        arbitrary()
    }

    /// The patch that the action would make of a state, or why it fails.
    open spec fn projection(&self, state: Value, context: ContextModel) -> Result<
        Seq<OpModel>,
        ErrorKind,
    > {
        arbitrary()
    }

    /// The description of the task in a context, where the job has one.
    open spec fn description(&self, context: ContextModel) -> Option<Seq<char>> {
        arbitrary()
    }

    /// The id of the job, the same for every call.
    fn id(&self) -> (r: String)
        ensures
            r@ == self.name(),
    ;

    /// The extractors that the job uses, the same for every call.
    fn extractors(&self) -> (r: Vec<Extractor>)
        ensures
            r@ == self.inputs(),
    ;

    /// The patch that the action would make of the state. It reads the
    /// state and the context and touches nothing else.
    fn call(&self, system: &System, context: &Context) -> (r: Result<Patch, Error>)
        ensures
            projected(r) == self.projection(system@, context@),
    ;

    /// A description of the task for the reader, where the job has one for
    /// this context.
    fn describe(&self, context: &Context) -> (r: Option<String>)
        ensures
            described_as(r) == self.description(context@),
    ;
}

/// The function of a method: from the state and a context to the tasks
/// that do the method's work, in order.
///
/// The spec functions say what the methods give back, as functions of the
/// handler and of what the methods take. An implementation states there
/// what it computes; one that states nothing leaves them unknown, and
/// promises only that its methods are such functions.
pub trait MethodHandler {
    /// The id of the job.
    open spec fn name(&self) -> Seq<char> {
        arbitrary()
    }

    /// The extractors that the job uses.
    open spec fn inputs(&self) -> Seq<Extractor> {
        arbitrary()
    }

    /// The tasks that the method expands into on a state, or why it fails.
    open spec fn expansion(&self, state: Value, context: ContextModel) -> Result<
        Seq<SubtaskModel>,
        ErrorKind,
    > {
        arbitrary()
    }

    /// The description of the task in a context, where the job has one.
    open spec fn description(&self, context: ContextModel) -> Option<Seq<char>> {
        arbitrary()
    }

    /// The id of the job, the same for every call.
    fn id(&self) -> (r: String)
        ensures
            r@ == self.name(),
    ;

    /// The extractors that the job uses, the same for every call.
    fn extractors(&self) -> (r: Vec<Extractor>)
        ensures
            r@ == self.inputs(),
    ;

    /// The tasks that the method expands into. No task means that the
    /// method does not apply. It reads the state and the context and
    /// touches nothing else.
    fn call(&self, system: &System, context: &Context) -> (r: Result<Vec<Subtask>, Error>)
        ensures
            expanded(r) == self.expansion(system@, context@),
    ;

    /// A description of the task for the reader, where the job has one for
    /// this context.
    fn describe(&self, context: &Context) -> (r: Option<String>)
        ensures
            described_as(r) == self.description(context@),
    ;
}

} // verus!
