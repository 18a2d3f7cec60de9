//! Jobs: the definitions that tasks are made from.
use super::handler::{Handler, MethodHandler};
use super::{copy_extractors, share, Action, Degree, Method, Task, TaskModel};
use crate::context::{Context, ContextModel};
use crate::extract::{all_scoped, Extractor};
use crate::path::bind;
use serde_json::Value;
use std::sync::Arc;
use vstd::prelude::*;

verus! {

/// The function of a job: that of an action or that of a method.
pub enum JobBody {
    Action(Arc<Box<dyn Handler>>),
    Method(Arc<Box<dyn MethodHandler>>),
}

/// A job: a function with its id and the extractors it uses. A job in a
/// context is a task.
pub struct Job {
    pub id: String,
    pub extractors: Vec<Extractor>,
    pub body: JobBody,
}

impl Job {
    /// The task of this job in a context.
    pub open spec fn task_in(&self, context: ContextModel) -> TaskModel {
        TaskModel { id: self.id@, extractors: self.extractors@, context, body: self.body }
    }

    /// Atomic for an action, composite for a method.
    pub open spec fn spec_degree(&self) -> Degree {
        match self.body {
            JobBody::Action(_) => Degree::Atomic,
            JobBody::Method(_) => Degree::Composite,
        }
    }

    /// The job of an action, with the id and the extractors that the
    /// handler gives.
    pub fn from_action(handler: Arc<Box<dyn Handler>>) -> (r: Job)
        ensures
            r.id@ == handler.name(),
            r.extractors@ == handler.inputs(),
            r.body == JobBody::Action(handler),
    {
        Job { id: handler.id(), extractors: handler.extractors(), body: JobBody::Action(handler) }
    }

    /// The job of a method, with the id and the extractors that the
    /// handler gives.
    pub fn from_method(handler: Arc<Box<dyn MethodHandler>>) -> (r: Job)
        ensures
            r.id@ == handler.name(),
            r.extractors@ == handler.inputs(),
            r.body == JobBody::Method(handler),
    {
        Job { id: handler.id(), extractors: handler.extractors(), body: JobBody::Method(handler) }
    }

    /// The id of the job.
    pub fn id(&self) -> (r: &str)
        ensures
            r@ == self.id@,
    {
        self.id.as_str()
    }

    /// Atomic for an action, composite for a method.
    pub fn degree(&self) -> (r: Degree)
        ensures
            r == self.spec_degree(),
    {
        match &self.body {
            JobBody::Action(_) => Degree::Atomic,
            JobBody::Method(_) => Degree::Composite,
        }
    }

    /// Whether the job reads nothing but what belongs to its path: whether
    /// every one of its extractors is scoped.
    pub fn is_scoped(&self) -> (r: bool)
        ensures
            r <==> forall|i: int|
                0 <= i < self.extractors@.len() ==> (#[trigger] self.extractors@[i]).scoped(),
    {
        all_scoped(&self.extractors)
    }

    /// The task of this job in a context.
    pub fn build_task(&self, context: Context) -> (r: Task)
        ensures
            r@ == self.task_in(context@),
    {
        match &self.body {
            JobBody::Action(h) => Task::Action(
                Action {
                    id: self.id.clone(),
                    extractors: copy_extractors(&self.extractors),
                    context,
                    handler: share(h),
                },
            ),
            JobBody::Method(h) => Task::Method(
                Method {
                    id: self.id.clone(),
                    extractors: copy_extractors(&self.extractors),
                    context,
                    handler: share(h),
                },
            ),
        }
    }

    /// The task of this job at the root, without arguments, with `target`
    /// for target.
    pub fn with_target(&self, target: Value) -> (r: Task)
        ensures
            r@ == self.task_in(r@.context),
            r@.context.path.len() == 0,
            r@.context.args.len() == 0,
            r@.context.target == target,
    {
        self.build_task(Context::new().with_target(target))
    }

    /// The task of this job at the root, with `null` for target and the
    /// argument `key` bound to `value`.
    pub fn with_arg(&self, key: &str, value: &str) -> (r: Task)
        ensures
            r@ == self.task_in(r@.context),
            r@.context.path.len() == 0,
            r@.context.args == seq![(key@, value@)],
    {
        let task = self.build_task(Context::new().with_arg(key, value));
        proof {
            let none = Seq::<(Seq<char>, Seq<char>)>::empty();
            assert(bind(none, key@, value@) =~= seq![(key@, value@)]);
        }
        task
    }

    /// The task of this job at the root, without arguments, with `null`
    /// for target.
    pub fn into_task(&self) -> (r: Task)
        ensures
            r@ == self.task_in(r@.context),
            r@.context.path.len() == 0,
            r@.context.args.len() == 0,
    {
        self.build_task(Context::new())
    }
}

impl Clone for Job {
    fn clone(&self) -> (r: Self)
        ensures
            r.id@ == self.id@,
            r.extractors@ == self.extractors@,
            r.body == self.body,
    {
        Job {
            id: self.id.clone(),
            extractors: copy_extractors(&self.extractors),
            body: match &self.body {
                JobBody::Action(h) => JobBody::Action(share(h)),
                JobBody::Method(h) => JobBody::Method(share(h)),
            },
        }
    }
}

} // verus!
