use gustav::context::Context;
use gustav::error::{Error, ErrorKind, InputError};
use gustav::extract::{all_scoped, Args, Extractor, Target, View};
use gustav::patch::{Patch, PatchOp};
use gustav::path::Path;
use gustav::system::System;
use gustav::task::{with_io, Degree, Effect, Handler, Job, MethodHandler, Subtask, Task};
use serde_json::Value;
use std::sync::Arc;

fn json(text: &str) -> Value {
    serde_json::from_str(text).unwrap()
}

fn number(value: &Value) -> Result<i64, Error> {
    value
        .as_i64()
        .ok_or_else(|| Error::BadInput(InputError(format!("{value} is no number"))))
}

fn replace(path: &str, value: i64) -> Value {
    json(&format!(r#"[{{ "op": "replace", "path": "{path}", "value": {value} }}]"#))
}

fn as_json(patch: &Patch) -> Value {
    Value::Array(
        patch
            .0
            .iter()
            .map(|op| {
                let (kind, path, value) = match op {
                    PatchOp::Add { path, value } => ("add", path, Some(value)),
                    PatchOp::Remove { path } => ("remove", path, None),
                    PatchOp::Replace { path, value } => ("replace", path, Some(value)),
                    PatchOp::Test { path, value } => ("test", path, Some(value)),
                    PatchOp::Move { path, .. } => ("move", path, None),
                    PatchOp::Copy { path, .. } => ("copy", path, None),
                };
                let mut map = serde_json::Map::new();
                map.insert("op".to_string(), Value::from(kind));
                map.insert("path".to_string(), Value::from(path.to_str()));
                if let Some(value) = value {
                    map.insert("value".to_string(), value.clone());
                }
                Value::Object(map)
            })
            .collect(),
    )
}

/// The effect of adding one to the counter until it is at the target.
fn plus_one_effect<F>(system: &System, context: &Context) -> Effect<View, Error, F> {
    let mut counter = match View::from_system(system, context) {
        Ok(view) => view,
        Err(e) => return Effect::from_error(Error::BadInput(e)),
    };
    let current = match number(counter.get()) {
        Ok(n) => n,
        Err(e) => return Effect::from_error(e),
    };
    let target = match number(Target::from_context(context).get()) {
        Ok(n) => n,
        Err(e) => return Effect::from_error(e),
    };
    if current < target {
        counter.set(Value::from(current + 1));
    }
    Effect::of(counter)
}

struct PlusOne;

impl Handler for PlusOne {
    fn id(&self) -> String {
        "gustav::task::tests::plus_one".to_string()
    }

    fn extractors(&self) -> Vec<Extractor> {
        vec![Extractor::View, Extractor::Target]
    }

    fn call(&self, system: &System, context: &Context) -> Result<Patch, Error> {
        plus_one_effect::<()>(system, context).pure()?.into_result(system)
    }

    fn describe(&self, context: &Context) -> Option<String> {
        // the description needs the target
        context.target.as_i64().map(|tgt| format!("+1 until {tgt}"))
    }
}

/// The same job, with something to do when it runs.
struct PlusOneWithIo;

impl Handler for PlusOneWithIo {
    fn id(&self) -> String {
        "gustav::task::tests::plus_one_async_with_effect".to_string()
    }

    fn extractors(&self) -> Vec<Extractor> {
        vec![Extractor::View, Extractor::Target]
    }

    fn call(&self, system: &System, context: &Context) -> Result<Patch, Error> {
        let effect = plus_one_effect(system, context).with_io(|view: View| -> Result<View, Error> {
            Ok(view)
        });
        assert!(effect.has_io());
        effect.pure()?.into_result(system)
    }

    fn describe(&self, _: &Context) -> Option<String> {
        None
    }
}

/// The same job, which fails when it runs.
struct PlusOneWithError;

impl Handler for PlusOneWithError {
    fn id(&self) -> String {
        "gustav::task::tests::plus_one_async_with_error".to_string()
    }

    fn extractors(&self) -> Vec<Extractor> {
        vec![Extractor::View, Extractor::Target]
    }

    fn call(&self, system: &System, context: &Context) -> Result<Patch, Error> {
        let effect = plus_one_effect(system, context).with_io(|_: View| -> Result<View, Error> {
            Err(Error::Runtime("and error happened".to_string()))
        });
        // the planner reads the pure part, and the I/O part is not run
        effect.pure()?.into_result(system)
    }

    fn describe(&self, _: &Context) -> Option<String> {
        None
    }
}

/// The job that also reads the whole state.
struct PlusOneSys;

impl Handler for PlusOneSys {
    fn id(&self) -> String {
        "gustav::task::tests::plus_one_sys".to_string()
    }

    fn extractors(&self) -> Vec<Extractor> {
        vec![Extractor::View, Extractor::Target, Extractor::System]
    }

    fn call(&self, system: &System, context: &Context) -> Result<Patch, Error> {
        PlusOne.call(system, context)
    }

    fn describe(&self, _: &Context) -> Option<String> {
        None
    }
}

struct PlusTwoWithError;

impl MethodHandler for PlusTwoWithError {
    fn id(&self) -> String {
        "gustav::task::tests::plus_two_with_error".to_string()
    }

    fn extractors(&self) -> Vec<Extractor> {
        vec![Extractor::View, Extractor::Target]
    }

    fn call(&self, system: &System, context: &Context) -> Result<Vec<Subtask>, Error> {
        let counter = View::from_system(system, context).map_err(Error::BadInput)?;
        let current = number(counter.get())?;
        let target = number(Target::from_context(context).get())?;
        if target - current > 1 {
            return Ok(vec![
                Subtask::new(&PlusOne.id()).with_target(Value::from(target)),
                Subtask::new(&PlusOne.id()).with_target(Value::from(target)),
            ]);
        }
        Err(Error::ConditionFailed)
    }

    fn describe(&self, _: &Context) -> Option<String> {
        None
    }
}

fn plus_one() -> Job {
    Job::from_action(Arc::new(Box::new(PlusOne)))
}

fn action_of(task: Task) -> gustav::task::Action {
    match task {
        Task::Action(action) => action,
        Task::Method(_) => panic!("Expected an Action task"),
    }
}

fn method_of(task: Task) -> gustav::task::Method {
    match task {
        Task::Method(method) => method,
        Task::Action(_) => panic!("Expected a method task"),
    }
}

#[test]
fn it_gets_metadata_from_function() {
    assert_eq!(plus_one().id(), "gustav::task::tests::plus_one");
    assert!(matches!(plus_one().degree(), Degree::Atomic));
    let method = Job::from_method(Arc::new(Box::new(PlusTwoWithError)));
    assert_eq!(method.id(), "gustav::task::tests::plus_two_with_error");
    assert!(matches!(method.degree(), Degree::Composite));
    assert!(matches!(method.into_task().degree(), Degree::Composite));
    assert!(matches!(plus_one().into_task().degree(), Degree::Atomic));
}

#[test]
fn it_allows_to_describe_a_task() {
    let task = plus_one().into_task();

    // The target has not been assigned so the default description is returned
    assert_eq!(task.to_string(), "gustav::task::tests::plus_one()");

    let task = task.with_target(Value::from(2));
    // Now the description can be used
    assert_eq!(task.to_string(), "+1 until 2");

    // without a description a task shows its id and its path
    let task = Job::from_action(Arc::new(Box::new(PlusOneSys)))
        .into_task()
        .with_path(Path::from_static("/counters/a"));
    assert_eq!(task.to_string(), "gustav::task::tests::plus_one_sys(/counters/a)");
}

#[test]
fn it_identifies_task_scoping_based_on_args() {
    let task = plus_one().with_target(Value::from(1));
    assert!(task.is_scoped());
    assert!(plus_one().is_scoped());

    // The plus_one_sys uses the System extractor so
    // it is not scoped
    let job = Job::from_action(Arc::new(Box::new(PlusOneSys)));
    assert!(!job.is_scoped());
    let task = job.with_target(Value::from(1));
    assert!(!task.is_scoped());
}

#[test]
fn a_job_is_scoped_if_and_only_if_all_its_extractors_are() {
    let kinds = [
        Extractor::View,
        Extractor::Pointer,
        Extractor::Target,
        Extractor::Args,
        Extractor::System,
    ];
    for kind in kinds {
        assert_eq!(kind.is_scoped(), !matches!(kind, Extractor::System));
    }
    assert!(all_scoped(&vec![]));
    for a in kinds {
        for b in kinds {
            for c in kinds {
                let expected = a.is_scoped() && b.is_scoped() && c.is_scoped();
                assert_eq!(all_scoped(&vec![a, b, c]), expected);
            }
        }
    }
}

#[test]
fn it_allows_to_dry_run_actions_returning_error() {
    let system = System::new(Value::from(1));
    let task = Job::from_action(Arc::new(Box::new(PlusOneWithError))).with_target(Value::from(2));

    let changes = action_of(task).dry_run(&system).ok().unwrap();
    assert_eq!(as_json(&changes), replace("", 2));
}

#[test]
fn it_allows_to_dry_run_pure_actions() {
    let system = System::new(Value::from(1));
    let task = plus_one().with_target(Value::from(2));

    let changes = action_of(task).dry_run(&system).ok().unwrap();
    assert_eq!(as_json(&changes), replace("", 2));
}

#[test]
fn it_allows_to_dry_run_async_actions() {
    let system = System::new(Value::from(1));
    let task = Job::from_action(Arc::new(Box::new(PlusOneWithIo))).with_target(Value::from(2));

    let changes = action_of(task).dry_run(&system).ok().unwrap();
    assert_eq!(as_json(&changes), replace("", 2));
}

#[test]
fn it_modifies_system_sub_elements() {
    let system = System::new(json(r#"{"counters": {"a": 0, "b": 0}}"#));
    let task =
        plus_one().with_target(Value::from(2)).with_path(Path::from_static("/counters/a"));

    let changes = action_of(task).dry_run(&system).ok().unwrap();

    // Only the referenced value was modified
    assert_eq!(as_json(&changes), replace("/counters/a", 1));
}

#[test]
fn it_allows_expanding_methods_with_result() {
    let task = Job::from_method(Arc::new(Box::new(PlusTwoWithError))).with_target(Value::from(3));
    let system = System::new(Value::from(0));

    let tasks = method_of(task).expand(&system).ok().unwrap();
    assert_eq!(
        tasks.iter().map(|t| t.id.as_str()).collect::<Vec<&str>>(),
        vec![plus_one().id(), plus_one().id()]
    );
    assert!(tasks.iter().all(|t| t.context.target == Value::from(3)));
}

#[test]
fn it_catches_input_errors_in_method_expansions() {
    let task = Job::from_method(Arc::new(Box::new(PlusTwoWithError))).with_target(Value::from("a"));
    let system = System::new(Value::from(0));

    assert!(matches!(method_of(task).expand(&system), Err(Error::BadInput(_))));
}

#[test]
fn it_catches_condition_failure_in_method_expansions() {
    let task = Job::from_method(Arc::new(Box::new(PlusTwoWithError))).with_target(Value::from(1));
    let system = System::new(Value::from(0));

    assert!(matches!(method_of(task).expand(&system), Err(Error::ConditionFailed)));
}

/// A method whose function gives its tasks, or nothing.
struct PlusTwoOrNothing;

impl PlusTwoOrNothing {
    fn tasks(current: i64, target: i64) -> Option<[Subtask; 2]> {
        if target - current > 1 {
            return Some([
                Subtask::new(&PlusOne.id()).with_target(Value::from(target)),
                Subtask::new(&PlusOne.id()).with_target(Value::from(target)),
            ]);
        }
        None
    }
}

impl MethodHandler for PlusTwoOrNothing {
    fn id(&self) -> String {
        "gustav::task::tests::plus_two_with_panic".to_string()
    }

    fn extractors(&self) -> Vec<Extractor> {
        vec![Extractor::View, Extractor::Target]
    }

    fn call(&self, system: &System, context: &Context) -> Result<Vec<Subtask>, Error> {
        let counter = View::from_system(system, context).map_err(Error::BadInput)?;
        let current = number(counter.get())?;
        let target = number(Target::from_context(context).get())?;
        // nothing means that the method does not apply
        Self::tasks(current, target).map(Vec::from).ok_or(Error::ConditionFailed)
    }

    fn describe(&self, _: &Context) -> Option<String> {
        None
    }
}

#[test]
fn it_catches_condition_failure_in_methods_returning_option() {
    let task = Job::from_method(Arc::new(Box::new(PlusTwoOrNothing))).with_target(Value::from(1));
    let system = System::new(Value::from(0));

    assert!(matches!(method_of(task).expand(&system), Err(Error::ConditionFailed)));

    let task = Job::from_method(Arc::new(Box::new(PlusTwoOrNothing))).with_target(Value::from(3));
    assert_eq!(method_of(task).expand(&system).ok().unwrap().len(), 2);
}

#[test]
fn it_builds_tasks() {
    let task = plus_one()
        .with_arg("counter", "one")
        .with_arg("other", "two")
        .with_arg("counter", "three")
        .try_target(Value::from(5))
        .ok()
        .unwrap();
    assert_eq!(task.id(), plus_one().id());
    assert_eq!(task.context().target, Value::from(5));
    assert_eq!(
        task.context().args.0,
        vec![("counter".to_string(), "three".to_string()), ("other".to_string(), "two".to_string())]
    );
    assert_eq!(task.context().path.to_str(), "");

    let moved = task.clone().with_path(Path::from_static("/counters/three"));
    assert_eq!(moved.context().path.to_str(), "/counters/three");
    assert_eq!(moved.context().args.0, task.context().args.0);

    let elsewhere = moved.with_context(Context::new().with_target(Value::from(1)));
    assert_eq!(elsewhere.context().path.to_str(), "");
    assert_eq!(elsewhere.context().args.len(), 0);
    assert_eq!(elsewhere.id(), plus_one().id());

    assert_eq!(Context::new().target, Value::Null);
    let whole = gustav::extract::System::from_system(&System::new(json(r#"{"a": [1]}"#)));
    assert_eq!(whole.get(), &json(r#"{"a": [1]}"#));
    let args = Args::from_context(task.context(), "other").ok().unwrap();
    assert_eq!(args.get(), "two");
    assert!(Args::from_context(task.context(), "nobody").is_err());
}

#[test]
fn effects_keep_their_pure_part() {
    let effect: Effect<i32, String, fn(i32) -> i32> = Effect::of(1);
    assert!(!effect.has_io());
    assert_eq!(effect.pure(), Ok(1));

    let effect = with_io::<i32, String, _>(2, |n: i32| n + 1);
    assert!(effect.has_io());
    let (pure, io) = effect.into_parts();
    assert_eq!(pure, Ok(2));
    assert_eq!(io.unwrap()(2), 3);

    let effect: Effect<i32, String, fn(i32) -> i32> = Effect::from_error("no".to_string());
    assert_eq!(effect.with_io(|n| n).pure(), Err("no".to_string()));

    let effect: Effect<i32, String, ()> = Effect::from_result(Ok(4));
    assert_eq!(effect.pure(), Ok(4));

    // running an effect runs its I/O part on what the pure part gave
    let twice = |n: i32| -> Result<i32, String> { Ok(2 * n) };
    assert_eq!(Effect::of(3).with_io(twice).run(), Ok(6));
    assert_eq!(Effect::<i32, String, fn(i32) -> Result<i32, String>>::of(3).run(), Ok(3));
    assert_eq!(Effect::from_error("no".to_string()).with_io(twice).run(), Err("no".to_string()));
    let fails = |_: i32| -> Result<i32, String> { Err("late".to_string()) };
    assert_eq!(Effect::of(3).with_io(fails).run(), Err("late".to_string()));
}

#[test]
fn errors_have_kinds() {
    let errors = [
        (Error::BadInput(InputError("x".to_string())), ErrorKind::InputError, "input error: x"),
        (Error::ConditionFailed, ErrorKind::ConditionFailed, "condition failed"),
        (
            Error::Unexpected(gustav::error::UnexpectedError("y".to_string())),
            ErrorKind::UnexpectedError,
            "unexpected error: y",
        ),
        (
            Error::Runtime("and error happened".to_string()),
            ErrorKind::RuntimeError,
            "task runtime error: and error happened",
        ),
    ];
    for (error, kind, text) in errors {
        assert!(error.kind() == kind);
        assert_eq!(error.to_string(), text);
    }
}

#[test]
fn it_runs_async_actions() {
    let system = System::new(Value::from(0));
    let context = Context::new().with_target(Value::from(1));
    let effect = plus_one_effect::<fn(View) -> Result<View, Error>>(&system, &context);

    // Run the action
    let changes = effect.run().and_then(|view| view.into_result(&system)).ok().unwrap();

    // The referenced value was modified
    assert_eq!(as_json(&changes), replace("", 1));
}

#[test]
fn it_allows_extending_actions_with_effect() {
    let system = System::new(Value::from(0));
    let context = Context::new().with_target(Value::from(1));
    let effect = plus_one_effect(&system, &context)
        .with_io(|counter: View| -> Result<View, Error> { Ok(counter) });

    // Run the action
    let changes = effect.run().and_then(|view| view.into_result(&system)).ok().unwrap();

    // The referenced value was modified
    assert_eq!(as_json(&changes), replace("", 1));
}

#[test]
fn it_allows_actions_returning_runtime_errors() {
    let system = System::new(Value::from(0));
    let context = Context::new().with_target(Value::from(1));
    let effect = plus_one_effect(&system, &context).with_io(|_: View| -> Result<View, Error> {
        Err(Error::Runtime("and error happened".to_string()))
    });

    let res = effect.run();
    assert!(res.is_err());
    assert_eq!(res.err().unwrap().to_string(), "task runtime error: and error happened");
}
