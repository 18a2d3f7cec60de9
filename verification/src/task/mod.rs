//! Jobs, tasks and what they give back.
pub mod effect;
pub mod handler;
pub mod intent;
pub mod job;
pub mod with_io;

use crate::context::{Context, ContextModel};
use crate::error::{Error, ErrorKind, InputError};
use crate::extract::{all_scoped, Extractor};
use crate::patch::{OpModel, Patch};
use crate::path::{bind, Path};
use crate::system::System;
use serde_json::Value;
use std::sync::Arc;
use vstd::prelude::*;

pub use effect::Effect;
pub use handler::{
    described_as, expanded, projected, Handler, MethodHandler, Subtask, SubtaskModel,
};
pub use intent::{any, create, delete, none, update, Intent, Operation};
pub use job::{Job, JobBody};
pub use with_io::with_io;

verus! {

/// `Arc::clone`: another handle on the same value.
#[verifier::external_body]
pub(crate) fn share<T>(handle: &Arc<T>) -> (r: Arc<T>)
    ensures
        r == *handle,
{
    Arc::clone(handle)
}

/// A copy of the extractors.
pub(crate) fn copy_extractors(extractors: &Vec<Extractor>) -> (r: Vec<Extractor>)
    ensures
        r@ == extractors@,
{
    let mut out: Vec<Extractor> = Vec::new();
    let mut i: usize = 0;
    while i < extractors.len()
        invariant
            0 <= i <= extractors.len(),
            out@ == extractors@.take(i as int),
        decreases extractors.len() - i,
    {
        out.push(extractors[i]);
        assert(out@ == extractors@.take(i + 1));
        i += 1;
    }
    assert(extractors@.take(i as int) == extractors@);
    out
}

/// The place of a task in the search: methods are expanded before actions
/// are tried.
#[derive(Clone, Copy, PartialEq, Eq, Structural)]
pub enum Degree {
    Composite,
    Atomic,
}

/// The text that stands for a task where its job has no description: the
/// id, then the path in brackets.
pub open spec fn default_description(id: Seq<char>, path: Seq<char>) -> Seq<char> {
    id + seq!['('] + path + seq![')']
}

/// The text that stands for a task where its job has no description.
fn describe_by_default(id: &str, path: &Path) -> (r: String)
    ensures
        r@ == default_description(id@, path@),
{
    proof {
        reveal_strlit("(");
        reveal_strlit(")");
        assert("("@ =~= seq!['(']);
        assert(")"@ =~= seq![')']);
    }
    String::from_str(id).concat("(").concat(path.to_str()).concat(")")
}

/// An atomic task: a job that projects a patch, with its context.
pub struct Action {
    pub id: String,
    pub extractors: Vec<Extractor>,
    pub context: Context,
    pub handler: Arc<Box<dyn Handler>>,
}

impl Action {
    /// The patch that the action projects on a state.
    pub open spec fn projection(&self, state: Value) -> Result<Seq<OpModel>, ErrorKind> {
        self.handler.projection(state, self.context@)
    }

    /// The action of a handler in a context, with the id and the
    /// extractors that the handler gives.
    pub fn new(handler: Arc<Box<dyn Handler>>, context: Context) -> (r: Action)
        ensures
            r@ == (TaskModel {
                id: handler.name(),
                extractors: handler.inputs(),
                context: context@,
                body: JobBody::Action(handler),
            }),
    {
        Action { id: handler.id(), extractors: handler.extractors(), context, handler }
    }

    /// The context of the task.
    pub fn context(&self) -> (r: &Context)
        ensures
            *r == self.context,
    {
        &self.context
    }

    /// The id of the task's job.
    pub fn id(&self) -> (r: &str)
        ensures
            r@ == self.id@,
    {
        self.id.as_str()
    }

    /// The patch that the action would make of the state. Nothing runs.
    pub fn dry_run(&self, system: &System) -> (r: Result<Patch, Error>)
        ensures
            projected(r) == self.projection(system@),
    {
        self.handler.call(system, &self.context)
    }

    /// The description that the job gives for the context, or the id and
    /// the path.
    pub fn to_string(&self) -> (r: String)
        ensures
            r@ == self@.described(),
    {
        match self.handler.describe(&self.context) {
            Some(text) => text,
            None => describe_by_default(self.id.as_str(), &self.context.path),
        }
    }
}

impl Clone for Action {
    fn clone(&self) -> (r: Self)
        ensures
            r@ == self@,
    {
        Action {
            id: self.id.clone(),
            extractors: copy_extractors(&self.extractors),
            context: self.context.clone(),
            handler: share(&self.handler),
        }
    }
}

/// A composite task: a job that expands into tasks, with its context.
pub struct Method {
    pub id: String,
    pub extractors: Vec<Extractor>,
    pub context: Context,
    pub handler: Arc<Box<dyn MethodHandler>>,
}

impl Method {
    /// The tasks that the method expands into on a state.
    pub open spec fn expansion(&self, state: Value) -> Result<Seq<SubtaskModel>, ErrorKind> {
        self.handler.expansion(state, self.context@)
    }

    /// The method of a handler in a context, with the id and the
    /// extractors that the handler gives.
    pub fn new(handler: Arc<Box<dyn MethodHandler>>, context: Context) -> (r: Method)
        ensures
            r@ == (TaskModel {
                id: handler.name(),
                extractors: handler.inputs(),
                context: context@,
                body: JobBody::Method(handler),
            }),
    {
        Method { id: handler.id(), extractors: handler.extractors(), context, handler }
    }

    /// The context of the task.
    pub fn context(&self) -> (r: &Context)
        ensures
            *r == self.context,
    {
        &self.context
    }

    /// The id of the task's job.
    pub fn id(&self) -> (r: &str)
        ensures
            r@ == self.id@,
    {
        self.id.as_str()
    }

    /// The tasks that the method expands into on the state, in order.
    pub fn expand(&self, system: &System) -> (r: Result<Vec<Subtask>, Error>)
        ensures
            expanded(r) == self.expansion(system@),
    {
        self.handler.call(system, &self.context)
    }

    /// The description that the job gives for the context, or the id and
    /// the path.
    pub fn to_string(&self) -> (r: String)
        ensures
            r@ == self@.described(),
    {
        match self.handler.describe(&self.context) {
            Some(text) => text,
            None => describe_by_default(self.id.as_str(), &self.context.path),
        }
    }
}

impl Clone for Method {
    fn clone(&self) -> (r: Self)
        ensures
            r@ == self@,
    {
        Method {
            id: self.id.clone(),
            extractors: copy_extractors(&self.extractors),
            context: self.context.clone(),
            handler: share(&self.handler),
        }
    }
}

/// A task: a job in a context, atomic or composite.
pub enum Task {
    Action(Action),
    Method(Method),
}

/// A task as plain values, with the function of its job.
pub struct TaskModel {
    pub id: Seq<char>,
    pub extractors: Seq<Extractor>,
    pub context: ContextModel,
    pub body: JobBody,
}

impl TaskModel {
    /// The same task with the argument `key` bound to `value`.
    pub open spec fn with_arg(self, key: Seq<char>, value: Seq<char>) -> TaskModel {
        TaskModel {
            context: ContextModel { args: bind(self.context.args, key, value), ..self.context },
            ..self
        }
    }

    /// The same task at another path.
    pub open spec fn with_path(self, path: Seq<char>) -> TaskModel {
        TaskModel { context: ContextModel { path, ..self.context }, ..self }
    }

    /// The same task with another target.
    pub open spec fn with_target(self, target: Value) -> TaskModel {
        TaskModel { context: ContextModel { target, ..self.context }, ..self }
    }

    /// The text that stands for the task: the description that its job
    /// gives for its context, or its id and its path.
    pub open spec fn described(self) -> Seq<char> {
        let given = match self.body {
            JobBody::Action(handler) => handler.description(self.context),
            JobBody::Method(handler) => handler.description(self.context),
        };
        match given {
            Some(text) => text,
            None => default_description(self.id, self.context.path),
        }
    }
}

impl View for Task {
    type V = TaskModel;

    open spec fn view(&self) -> TaskModel {
        match *self {
            Task::Action(a) => TaskModel {
                id: a.id@,
                extractors: a.extractors@,
                context: a.context@,
                body: JobBody::Action(a.handler),
            },
            Task::Method(m) => TaskModel {
                id: m.id@,
                extractors: m.extractors@,
                context: m.context@,
                body: JobBody::Method(m.handler),
            },
        }
    }
}

impl View for Method {
    type V = TaskModel;

    open spec fn view(&self) -> TaskModel {
        TaskModel {
            id: self.id@,
            extractors: self.extractors@,
            context: self.context@,
            body: JobBody::Method(self.handler),
        }
    }
}

impl View for Action {
    type V = TaskModel;

    open spec fn view(&self) -> TaskModel {
        TaskModel {
            id: self.id@,
            extractors: self.extractors@,
            context: self.context@,
            body: JobBody::Action(self.handler),
        }
    }
}

impl Task {
    /// The id of the task's job.
    pub fn id(&self) -> (r: &str)
        ensures
            r@ == self@.id,
    {
        match self {
            Task::Action(a) => a.id.as_str(),
            Task::Method(m) => m.id.as_str(),
        }
    }

    /// Atomic for an action, composite for a method.
    pub fn degree(&self) -> (r: Degree)
        ensures
            r == (if *self is Action {
                Degree::Atomic
            } else {
                Degree::Composite
            }),
    {
        match self {
            Task::Action(_) => Degree::Atomic,
            Task::Method(_) => Degree::Composite,
        }
    }

    /// The context of the task.
    pub fn context(&self) -> (r: &Context)
        ensures
            r@ == self@.context,
    {
        match self {
            Task::Action(a) => &a.context,
            Task::Method(m) => &m.context,
        }
    }

    /// Whether the task reads nothing but what belongs to its path: whether
    /// every extractor of its job is scoped.
    pub fn is_scoped(&self) -> (r: bool)
        ensures
            r <==> forall|i: int|
                0 <= i < self@.extractors.len() ==> (#[trigger] self@.extractors[i]).scoped(),
    {
        let extractors = match self {
            Task::Action(a) => &a.extractors,
            Task::Method(m) => &m.extractors,
        };
        assert(extractors@ == self@.extractors);
        all_scoped(extractors)
    }

    /// The same task in another context.
    pub fn with_context(self, context: Context) -> (r: Task)
        ensures
            r@ == (TaskModel { context: context@, ..self@ }),
    {
        match self {
            Task::Action(a) => Task::Action(
                Action { id: a.id, extractors: a.extractors, context, handler: a.handler },
            ),
            Task::Method(m) => Task::Method(
                Method { id: m.id, extractors: m.extractors, context, handler: m.handler },
            ),
        }
    }

    /// The same task with `target` for target.
    pub fn with_target(self, target: Value) -> (r: Task)
        ensures
            r@ == self@.with_target(target),
    {
        match self {
            Task::Action(a) => Task::Action(
                Action {
                    id: a.id,
                    extractors: a.extractors,
                    context: a.context.with_target(target),
                    handler: a.handler,
                },
            ),
            Task::Method(m) => Task::Method(
                Method {
                    id: m.id,
                    extractors: m.extractors,
                    context: m.context.with_target(target),
                    handler: m.handler,
                },
            ),
        }
    }

    /// The same task with `target` for target. A target that is a document
    /// already is always accepted.
    pub fn try_target(self, target: Value) -> (r: Result<Task, InputError>)
        ensures
            r is Ok,
            r->Ok_0@ == self@.with_target(target),
    {
        Ok(self.with_target(target))
    }

    /// The same task with the argument `key` bound to `value`.
    pub fn with_arg(self, key: &str, value: &str) -> (r: Task)
        ensures
            r@ == self@.with_arg(key@, value@),
    {
        match self {
            Task::Action(a) => Task::Action(
                Action {
                    id: a.id,
                    extractors: a.extractors,
                    context: a.context.with_arg(key, value),
                    handler: a.handler,
                },
            ),
            Task::Method(m) => Task::Method(
                Method {
                    id: m.id,
                    extractors: m.extractors,
                    context: m.context.with_arg(key, value),
                    handler: m.handler,
                },
            ),
        }
    }

    /// The same task at another path.
    pub fn with_path(self, path: Path) -> (r: Task)
        ensures
            r@ == self@.with_path(path@),
    {
        match self {
            Task::Action(a) => Task::Action(
                Action {
                    id: a.id,
                    extractors: a.extractors,
                    context: a.context.with_path(path),
                    handler: a.handler,
                },
            ),
            Task::Method(m) => Task::Method(
                Method {
                    id: m.id,
                    extractors: m.extractors,
                    context: m.context.with_path(path),
                    handler: m.handler,
                },
            ),
        }
    }

    /// The description that the job gives for the context, or the id and
    /// the path.
    pub fn to_string(&self) -> (r: String)
        ensures
            r@ == self@.described(),
    {
        match self {
            Task::Action(a) => a.to_string(),
            Task::Method(m) => m.to_string(),
        }
    }
}

impl Clone for Task {
    fn clone(&self) -> (r: Self)
        ensures
            r@ == self@,
    {
        match self {
            Task::Action(a) => Task::Action(a.clone()),
            Task::Method(m) => Task::Method(m.clone()),
        }
    }
}

} // verus!
