//! Trying a task on a state, within a domain.
use super::domain::{has_job, route_of_job, Domain, RouteModel};
use super::planner::{find_subtask, subtask_task, MAX_DEPTH};
use super::template::expand;
use crate::error::{Error, ErrorKind, InputError, UnexpectedError};
use crate::json::apply_all;
use crate::path::{is_pointer, Path, PathArgs};
use crate::system::System;
use crate::task::handler::subtasks_model;
use crate::task::{JobBody, Subtask, SubtaskModel, Task, TaskModel};
use serde_json::Value;
use vstd::prelude::*;

verus! {

/// The task at the path that the domain gives it: the template of its job
/// with the arguments of the task. `None` where the domain has no job of
/// that id, where a placeholder has no argument, or where what comes out
/// is no pointer.
pub open spec fn placed(routes: Seq<RouteModel>, task: TaskModel) -> Option<TaskModel> {
    if !has_job(routes, task.id) {
        None
    } else {
        match expand(routes[route_of_job(routes, task.id)].template, task.context.args) {
            Ok(path) => if is_pointer(path) {
                Some(task.with_path(path))
            } else {
                None
            },
            Err(_) => None,
        }
    }
}

/// The state that a task leaves: its changes applied, for an action; what
/// its tasks leave one after the other, for a method. An input error where
/// the domain gives the task no path; an unexpected error where the changes
/// of an action cannot be applied, or where methods nest deeper than
/// `MAX_DEPTH`.
pub open spec fn run_task(routes: Seq<RouteModel>, task: TaskModel, state: Value, depth: nat) -> Result<
    Value,
    ErrorKind,
>
    decreases MAX_DEPTH - depth, 0nat, 0nat,
{
    match placed(routes, task) {
        None => Err(ErrorKind::InputError),
        Some(at_path) => match at_path.body {
            JobBody::Action(handler) => match handler.projection(state, at_path.context) {
                Err(e) => Err(e),
                Ok(changes) => match apply_all(state, changes) {
                    Some(next) => Ok(next),
                    None => Err(ErrorKind::UnexpectedError),
                },
            },
            JobBody::Method(handler) => if depth >= MAX_DEPTH {
                Err(ErrorKind::UnexpectedError)
            } else {
                match handler.expansion(state, at_path.context) {
                    Err(e) => Err(e),
                    Ok(subs) => run_subtasks(
                        routes,
                        at_path.context.args,
                        subs,
                        0,
                        state,
                        depth + 1,
                    ),
                }
            },
        },
    }
}

/// The state that the tasks of a method leave, from the `i`-th on: each
/// runs on what the one before it left. An input error where the domain
/// has no task for what the method asks for.
pub open spec fn run_subtasks(
    routes: Seq<RouteModel>,
    parent: Seq<(Seq<char>, Seq<char>)>,
    subs: Seq<SubtaskModel>,
    i: nat,
    state: Value,
    depth: nat,
) -> Result<Value, ErrorKind>
    decreases MAX_DEPTH - depth, 1nat, subs.len() - i,
{
    if i >= subs.len() {
        Ok(state)
    } else {
        match subtask_task(routes, parent, subs[i as int]) {
            Err(_) => Err(ErrorKind::InputError),
            Ok(task) => match run_task(routes, task, state, depth) {
                Err(e) => Err(e),
                Ok(next) => run_subtasks(routes, parent, subs, i + 1, next, depth),
            },
        }
    }
}

impl Domain {
    /// The task at the path that the domain gives it.
    fn place(&self, task: Task) -> (r: Result<Task, Error>)
        ensures
            match placed(self@, task@) {
                Some(at_path) => r is Ok && r->Ok_0@ == at_path,
                None => r is Err && r->Err_0@ == ErrorKind::InputError,
            },
    {
        let path = match self.find_path_for_job(task.id(), &task.context().args) {
            Ok(path) => path,
            Err(_) => {
                return Err(
                    Error::BadInput(InputError(String::from_str("could not find path for task"))),
                );
            },
        };
        match Path::parse(path.as_str()) {
            Some(path) => Ok(task.with_path(path)),
            None => Err(
                Error::BadInput(InputError(String::from_str("the path of the task is no pointer"))),
            ),
        }
    }

    /// Runs a task on the state: what it projects is applied.
    fn run(&self, task: Task, system: &mut System, depth: u32) -> (r: Result<(), Error>)
        requires
            depth <= MAX_DEPTH,
        ensures
            match run_task(self@, task@, old(system)@, depth as nat) {
                Ok(next) => r is Ok && final(system)@ == next,
                Err(e) => r is Err && r->Err_0@ == e,
            },
        decreases MAX_DEPTH - depth, 0nat, 0nat,
    {
        let task = match self.place(task) {
            Ok(task) => task,
            Err(e) => {
                return Err(e);
            },
        };
        match task {
            Task::Action(action) => {
                let changes = match action.dry_run(system) {
                    Ok(changes) => changes,
                    Err(e) => {
                        return Err(e);
                    },
                };
                system.patch(&changes)
            },
            Task::Method(method) => {
                if depth >= MAX_DEPTH {
                    return Err(
                        Error::Unexpected(UnexpectedError(String::from_str("methods nest too deep"))),
                    );
                }
                let subs = match method.expand(system) {
                    Ok(subs) => subs,
                    Err(e) => {
                        return Err(e);
                    },
                };
                self.run_all(&method.context.args, &subs, 0, system, depth + 1)
            },
        }
    }

    /// Runs the tasks of a method from the `i`-th on.
    fn run_all(
        &self,
        parent: &PathArgs,
        subs: &Vec<Subtask>,
        i: usize,
        system: &mut System,
        depth: u32,
    ) -> (r: Result<(), Error>)
        requires
            depth <= MAX_DEPTH,
            i <= subs.len(),
        ensures
            match run_subtasks(
                self@,
                parent@,
                subtasks_model(subs@),
                i as nat,
                old(system)@,
                depth as nat,
            ) {
                Ok(next) => r is Ok && final(system)@ == next,
                Err(e) => r is Err && r->Err_0@ == e,
            },
        decreases MAX_DEPTH - depth, 1nat, subs.len() - i,
    {
        if i >= subs.len() {
            return Ok(());
        }
        proof {
            assert(subtasks_model(subs@)[i as int] == subs@[i as int]@);
        }
        let task = match find_subtask(self, parent, &subs[i]) {
            Ok(task) => task,
            Err(_) => {
                return Err(
                    Error::BadInput(InputError(String::from_str("could not find path for task"))),
                );
            },
        };
        match self.run(task, system, depth) {
            Ok(()) => {},
            Err(e) => {
                return Err(e);
            },
        }
        self.run_all(parent, subs, i + 1, system, depth)
    }

    /// Tries a task within the domain: the state that the task leaves,
    /// each action applied as it is projected, without I/O.
    pub fn test_task(&self, task: Task, state: Value) -> (r: Result<Value, Error>)
        ensures
            match run_task(self@, task@, state, 0) {
                Ok(next) => r == Ok::<Value, Error>(next),
                Err(e) => r is Err && r->Err_0@ == e,
            },
    {
        let mut system = System::new(state);
        match self.run(task, &mut system, 0) {
            Ok(()) => Ok(system.state().clone()),
            Err(e) => Err(e),
        }
    }
}

} // verus!
