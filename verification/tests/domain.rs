use gustav::context::Context;
use gustav::error::Error;
use gustav::extract::Extractor;
use gustav::patch::Patch;
use gustav::path::PathArgs;
use gustav::system::System;
use gustav::task::{any, create, delete, none, update, Handler, Intent, Job, MethodHandler};
use gustav::task::{Operation, Subtask};
use gustav::worker::template::count_openers;
use gustav::worker::{Domain, DomainError, PathSearchFailure};
use std::sync::Arc;

struct Named(&'static str);

impl Handler for Named {
    fn id(&self) -> String {
        self.0.to_string()
    }

    fn extractors(&self) -> Vec<Extractor> {
        vec![Extractor::View, Extractor::Target]
    }

    fn call(&self, _: &System, _: &Context) -> Result<Patch, Error> {
        Ok(Patch::new())
    }

    fn describe(&self, _: &Context) -> Option<String> {
        None
    }
}

struct NamedMethod(&'static str);

impl MethodHandler for NamedMethod {
    fn id(&self) -> String {
        self.0.to_string()
    }

    fn extractors(&self) -> Vec<Extractor> {
        vec![Extractor::View, Extractor::Target]
    }

    fn call(&self, _: &System, _: &Context) -> Result<Vec<Subtask>, Error> {
        Ok(vec![])
    }

    fn describe(&self, _: &Context) -> Option<String> {
        None
    }
}

fn plus_one() -> Job {
    Job::from_action(Arc::new(Box::new(Named("gustav::worker::domain::tests::plus_one"))))
}

fn plus_two() -> Job {
    Job::from_method(Arc::new(Box::new(NamedMethod("gustav::worker::domain::tests::plus_two"))))
}

fn func() -> Job {
    Job::from_action(Arc::new(Box::new(Named("func"))))
}

fn action(id: &'static str) -> Job {
    Job::from_action(Arc::new(Box::new(Named(id))))
}

fn method(id: &'static str) -> Job {
    Job::from_method(Arc::new(Box::new(NamedMethod(id))))
}

fn add(domain: Domain, route: &str, intent: Intent) -> Domain {
    domain.try_job(route, intent).ok().unwrap()
}

fn args(pairs: &[(&str, &str)]) -> PathArgs {
    PathArgs(pairs.iter().map(|(k, v)| (k.to_string(), v.to_string())).collect())
}

fn ids_at(domain: &Domain, path: &str) -> Vec<String> {
    domain
        .find_jobs_at(path)
        .map(|(_, intents)| intents.iter().map(|i| i.job.id().to_string()).collect())
        .unwrap()
}

#[test]
fn it_finds_jobs_ordered_by_degree() {
    let domain = add(Domain::new(), "/counters/{counter}", update(plus_one()));
    let domain = add(domain, "/counters/{counter}", update(plus_two()));

    let jobs = ids_at(&domain, "/counters/{counter}");

    // It should return compound jobs first
    assert_eq!(jobs, vec![plus_two().id().to_string(), plus_one().id().to_string()]);
}

#[test]
fn it_ignores_none_jobs() {
    let domain = add(Domain::new(), "/counters/{counter}", none(plus_one()));
    let domain = add(domain, "/counters/{counter}", update(plus_two()));

    let jobs = ids_at(&domain, "/counters/{counter}");

    // It should not return jobs for None operations
    assert_eq!(jobs, vec![plus_two().id().to_string()]);
}

#[test]
fn it_refuses_the_same_job_for_several_operations() {
    let domain = add(Domain::new(), "/counters/{counter}", update(plus_one()));
    let again = domain.try_job("/counters/{counter}", update(plus_one()));
    assert!(matches!(again, Err(DomainError::DuplicateJob)));
}

#[test]
fn it_refuses_the_same_job_at_several_routes() {
    let domain = add(Domain::new(), "/counters/{counter}", update(plus_one()));
    let again = domain.try_job("/numbers/{counter}", create(plus_one()));
    assert!(matches!(again, Err(DomainError::DuplicateJob)));
}

#[test]
fn it_refuses_a_route_that_the_router_does_not_take() {
    // two parameters in one segment
    let refused = Domain::new().try_job("/counters/{a}{b}", update(plus_one()));
    assert!(matches!(refused, Err(DomainError::InvalidRoute)));
    // a wildcard before the end
    let refused = Domain::new().try_job("/files/{*path}/edit", update(plus_one()));
    assert!(matches!(refused, Err(DomainError::InvalidRoute)));
    // a route that the router holds under another name
    let domain = add(Domain::new(), "/counters/{counter}", update(plus_one()));
    let refused = domain.try_job("/counters/{other}", update(plus_two()));
    assert!(matches!(refused, Err(DomainError::InvalidRoute)));
}

#[test]
fn it_constructs_a_path_given_arguments() {
    let domain = add(Domain::new(), "/counters/{counter}", none(plus_one()));
    let domain = add(domain, "/counters/{counter}", update(plus_two()));

    let args = args(&[("counter", "one")]);
    let path = domain.find_path_for_job(plus_one().id(), &args).ok().unwrap();
    assert_eq!(path, String::from("/counters/one"))
}

#[test]
fn test_wildcard_parameter_replacement() {
    let domain = add(Domain::new(), "/files/{*path}", update(func()));

    let args = args(&[("path", "documents/report.pdf")]);
    let result = domain.find_path_for_job(func().id(), &args).ok().unwrap();

    assert_eq!(result, "/files/documents/report.pdf".to_string());
}

#[test]
fn test_escaped_parameters_remain() {
    let domain = add(Domain::new(), "/data/{{counter}}/edit", update(func()));

    let args = args(&[("counter", "456")]);
    let result = domain.find_path_for_job(func().id(), &args).ok().unwrap();

    assert_eq!(result, "/data/{counter}/edit".to_string()); // Escaped `{counter}` remains unchanged
}

#[test]
fn test_mixed_placeholders() {
    let domain = add(Domain::new(), "/users/{id}/files/{{file}}/{*path}", update(func()));

    let args = args(&[("id", "42"), ("path", "reports/january.csv")]);
    let result = domain.find_path_for_job(func().id(), &args).ok().unwrap();

    assert_eq!(result, "/users/42/files/{file}/reports/january.csv".to_string());
}

#[test]
fn test_no_replacement_if_job_not_found() {
    let domain = Domain::new();

    let args = args(&[("counter", "999")]);

    let result = domain.find_path_for_job(func().id(), &args);
    assert!(result.is_err());
    assert!(matches!(result.err().unwrap().kind, PathSearchFailure::JobNotFound));
}

#[test]
fn test_error_if_unmatched_placeholders_remain() {
    let domain = add(Domain::new(), "/tasks/{task_id}/check", update(func()));

    let args = args(&[]); // No arguments provided
    let result = domain.find_path_for_job(func().id(), &args);
    assert!(result.is_err());
    let error = result.err().unwrap();
    assert!(matches!(error.kind, PathSearchFailure::MissingArguments));
    assert_eq!(error.missing, vec!["{task_id}".to_string()]);
    assert_eq!(error.job_id, "func");
}

#[test]
fn it_orders_intents_by_degree_operation_priority_and_id() {
    let route = "/counters/{counter}";
    let mut domain = Domain::new();
    for intent in [
        update(action("b")),
        update(action("a")),
        update(action("c")).with_priority(1),
        any(action("d")),
        create(action("e")),
        delete(action("f")),
        update(method("z")),
        none(method("y")),
        create(method("x")).with_priority(200),
        create(method("w")).with_priority(7),
    ] {
        domain = add(domain, route, intent);
    }

    // methods before actions, then by operation, then the lower priority
    // first, then by id; the intents for no operation are left out
    assert_eq!(ids_at(&domain, "/counters/one"), vec!["w", "x", "z", "e", "c", "a", "b", "f", "d"]);

    // the routes hold every intent, in order
    let routes = domain.routes();
    assert_eq!(routes.len(), 1);
    assert_eq!(routes[0].template, route);
    let all: Vec<&str> = routes[0].intents.iter().map(|i| i.job.id()).collect();
    assert_eq!(all, vec!["w", "x", "z", "y", "e", "c", "a", "b", "f", "d"]);
    assert!(matches!(routes[0].intents[3].operation, Operation::Nothing));
    for pair in routes[0].intents.windows(2) {
        assert!(pair[0].before(&pair[1]));
        assert!(!pair[1].before(&pair[0]));
    }
}

#[test]
fn it_finds_the_arguments_of_a_path() {
    let domain = add(Domain::new(), "/counters/{counter}", update(plus_one()));
    let domain = add(domain, "/files/{*path}", update(func()));
    let domain = add(domain, "/users/{user}/books/{book}", update(action("read")));

    let (found, intents) = domain.find_jobs_at("/counters/one").unwrap();
    assert_eq!(found.0, vec![("counter".to_string(), "one".to_string())]);
    assert_eq!(intents.len(), 1);

    let (found, _) = domain.find_jobs_at("/files/a/b.txt").unwrap();
    assert_eq!(found.0, vec![("path".to_string(), "a/b.txt".to_string())]);

    let (found, intents) = domain.find_jobs_at("/users/ana/books/7").unwrap();
    assert_eq!(
        found.0,
        vec![("user".to_string(), "ana".to_string()), ("book".to_string(), "7".to_string())]
    );
    assert_eq!(intents[0].job.id(), "read");

    assert!(domain.find_jobs_at("/counters").is_none());
    assert!(domain.find_jobs_at("/counters/one/two").is_none());
    assert!(domain.find_jobs_at("").is_none());
}

#[test]
fn it_finds_a_job_by_its_id() {
    let domain = add(Domain::new(), "/counters/{counter}", none(plus_one()));
    let domain = add(domain, "/numbers/{number}", update(plus_two()));
    assert_eq!(domain.find_job(plus_two().id()).unwrap().id(), plus_two().id());
    assert_eq!(domain.find_job(plus_one().id()).unwrap().id(), plus_one().id());
    assert!(domain.find_job("nobody").is_none());
    let path = domain.find_path_for_job(plus_two().id(), &args(&[("number", "3")]));
    assert_eq!(path.ok().unwrap(), "/numbers/3");
}

#[test]
fn it_adds_several_jobs_at_once() {
    let domain = Domain::new()
        .try_jobs("/counters/{counter}", vec![update(plus_one()), update(plus_two())])
        .ok()
        .unwrap();
    assert_eq!(
        ids_at(&domain, "/counters/a"),
        vec![plus_two().id().to_string(), plus_one().id().to_string()]
    );
    let refused = domain.try_jobs("/numbers/{n}", vec![update(func()), update(func())]);
    assert!(matches!(refused, Err(DomainError::DuplicateJob)));
}

#[test]
fn it_adds_jobs_that_can_be_added() {
    // `job` and `jobs` are for intents that can be added
    let domain = Domain::new()
        .job("/counters/{counter}", update(plus_one()))
        .jobs("/counters/{counter}", vec![update(plus_two()), none(func())]);
    assert_eq!(domain.routes().len(), 1);
    assert_eq!(domain.routes()[0].intents.len(), 3);
    assert_eq!(
        ids_at(&domain, "/counters/a"),
        vec![plus_two().id().to_string(), plus_one().id().to_string()]
    );
}

fn route_of(parameters: usize) -> String {
    (0..parameters).map(|i| format!("/{{p{i}}}")).collect()
}

#[test]
fn it_refuses_a_route_with_more_parameters_than_the_router_names() {
    // the router has names for twenty-five parameters
    let domain = Domain::new().try_job(&route_of(25), update(plus_one())).ok().unwrap();
    assert_eq!(domain.routes().len(), 1);
    let refused = domain.try_job(&route_of(26), update(plus_two()));
    assert!(matches!(refused, Err(DomainError::InvalidRoute)));
    let refused = Domain::new().try_job(&route_of(40), update(plus_two()));
    assert!(matches!(refused, Err(DomainError::InvalidRoute)));
    let refused = Domain::new().try_jobs(&route_of(26), vec![update(plus_one())]);
    assert!(matches!(refused, Err(DomainError::InvalidRoute)));
}

#[test]
fn it_counts_the_opening_braces_of_a_route() {
    assert_eq!(count_openers(""), 0);
    assert_eq!(count_openers("/a/b"), 0);
    assert_eq!(count_openers("/{a}/{*b}"), 2);
    assert_eq!(count_openers("/{{a}}/{b}"), 1);
    assert_eq!(count_openers("/{{{a}}}"), 1);
    assert_eq!(count_openers("/}}{"), 1);
    assert_eq!(count_openers("/{"), 1);
    assert_eq!(count_openers(&route_of(26)), 26);
    // doubled braces are no parameters, however many
    let escaped: String = (0..30).map(|_| "/{{x}}").collect();
    assert_eq!(count_openers(&escaped), 0);
    assert!(Domain::new().try_job(&escaped, update(plus_one())).is_ok());
}
