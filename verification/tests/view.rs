use gustav::context::Context;
use gustav::extract::{Pointer, View};
use gustav::patch::{Patch, PatchOp};
use gustav::path::Path;
use gustav::system::System;
use serde_json::Value;

fn json(text: &str) -> Value {
    serde_json::from_str(text).unwrap()
}

fn op_json(kind: &str, path: &Path, value: Option<&Value>) -> Value {
    let mut map = serde_json::Map::new();
    map.insert("op".to_string(), Value::from(kind));
    map.insert("path".to_string(), Value::from(path.to_str()));
    if let Some(value) = value {
        map.insert("value".to_string(), value.clone());
    }
    Value::Object(map)
}

fn as_json(patch: &Patch) -> Value {
    Value::Array(
        patch
            .0
            .iter()
            .map(|op| match op {
                PatchOp::Add { path, value } => op_json("add", path, Some(value)),
                PatchOp::Remove { path } => op_json("remove", path, None),
                PatchOp::Replace { path, value } => op_json("replace", path, Some(value)),
                PatchOp::Test { path, value } => op_json("test", path, Some(value)),
                PatchOp::Move { path, .. } => op_json("move", path, None),
                PatchOp::Copy { path, .. } => op_json("copy", path, None),
            })
            .collect(),
    )
}

fn numbers() -> System {
    System::new(json(r#"{"numbers": {"one": 1, "two": 2}}"#))
}

fn number_list(items: &str) -> System {
    System::new(json(&format!(r#"{{"numbers": {}}}"#, items)))
}

fn at(path: &'static str) -> Context {
    Context::new().with_path(Path::from_static(path))
}

#[test]
fn it_extracts_an_existing_value_using_a_pointer() {
    let system = numbers();
    let mut ptr = Pointer::from_system(&system, &at("/numbers/one")).ok().unwrap();
    assert_eq!(ptr.get(), Some(&Value::from(1)));

    ptr.assign(Value::from(2));

    let changes = ptr.into_result(&system).ok().unwrap();
    assert_eq!(
        as_json(&changes),
        json(r#"[{ "op": "replace", "path": "/numbers/one", "value": 2 }]"#)
    );
}

#[test]
fn it_fails_if_pointed_path_is_invalid() {
    let system = numbers();
    assert!(Pointer::from_system(&system, &at("/numbers/one/two")).is_err());
    assert!(Pointer::from_system(&system, &at("/none/two")).is_err());
}

#[test]
fn it_assigns_a_value_to_pointed_path() {
    let system = numbers();
    let mut ptr = Pointer::from_system(&system, &at("/numbers/three")).ok().unwrap();
    assert_eq!(ptr.get(), None);

    ptr.assign(Value::from(3));

    let changes = ptr.into_result(&system).ok().unwrap();
    assert_eq!(
        as_json(&changes),
        json(r#"[{ "op": "add", "path": "/numbers/three", "value": 3 }]"#)
    );
}

#[test]
fn it_allows_changing_a_value_with_a_view() {
    let system = numbers();
    let mut view = View::from_system(&system, &at("/numbers/two")).ok().unwrap();
    view.set(Value::from(3));

    let changes = view.into_result(&system).ok().unwrap();
    assert_eq!(
        as_json(&changes),
        json(r#"[{ "op": "replace", "path": "/numbers/two", "value": 3 }]"#)
    );
}

#[test]
fn it_fails_to_initialize_view_if_path_does_not_exist() {
    let system = numbers();
    assert!(View::from_system(&system, &at("/numbers/three")).is_err());
    assert!(View::from_system(&system, &at("/none/three")).is_err());
}

#[test]
fn it_initializes_a_value_with_default() {
    let system = numbers();
    let mut ptr = Pointer::from_system(&system, &at("/numbers/three")).ok().unwrap();
    assert_eq!(ptr.get(), None);

    // the default of the number, then the value
    ptr.assign(Value::from(i32::default()));
    assert_eq!(ptr.get(), Some(&Value::from(0)));
    ptr.assign(Value::from(3));

    let changes = ptr.into_result(&system).ok().unwrap();
    assert_eq!(
        as_json(&changes),
        json(r#"[{ "op": "add", "path": "/numbers/three", "value": 3 }]"#)
    );
}

#[test]
fn it_deletes_an_existing_value() {
    let system = numbers();
    let mut ptr = Pointer::from_system(&system, &at("/numbers/one")).ok().unwrap();
    ptr.unassign();

    let changes = ptr.into_result(&system).ok().unwrap();
    assert_eq!(as_json(&changes), json(r#"[{ "op": "remove", "path": "/numbers/one" }]"#));
}

#[test]
fn it_extracts_an_existing_value_on_a_vec() {
    let system = number_list(r#"["one", "two", "three"]"#);
    let mut ptr = Pointer::from_system(&system, &at("/numbers/1")).ok().unwrap();
    assert_eq!(ptr.get(), Some(&Value::from("two")));

    ptr.assign(Value::from("TWO"));

    let changes = ptr.into_result(&system).ok().unwrap();
    assert_eq!(
        as_json(&changes),
        json(r#"[{ "op": "replace", "path": "/numbers/1", "value": "TWO" }]"#)
    );
}

#[test]
fn it_creates_a_value_on_a_vec() {
    let system = number_list(r#"["one", "two"]"#);
    let mut ptr = Pointer::from_system(&system, &at("/numbers/2")).ok().unwrap();
    assert_eq!(ptr.get(), None);
    ptr.assign(Value::from("three"));

    let changes = ptr.into_result(&system).ok().unwrap();
    assert_eq!(
        as_json(&changes),
        json(r#"[{ "op": "add", "path": "/numbers/2", "value": "three" }]"#)
    );
}

#[test]
fn it_deletes_a_value_on_a_vec() {
    let system = number_list(r#"["one", "two", "three"]"#);
    let mut ptr = Pointer::from_system(&system, &at("/numbers/1")).ok().unwrap();
    ptr.unassign();

    let changes = ptr.into_result(&system).ok().unwrap();
    // removing a value from the middle of the array shifts the indexes
    assert_eq!(
        as_json(&changes),
        json(
            r#"[
              { "op": "replace", "path": "/numbers/1", "value": "three" },
              { "op": "remove", "path": "/numbers/2" }
            ]"#
        )
    );
}

#[test]
fn it_deletes_a_value_from_the_end_of_a_vec() {
    let system = number_list(r#"["one", "two", "three"]"#);
    let mut ptr = Pointer::from_system(&system, &at("/numbers/2")).ok().unwrap();
    ptr.unassign();

    let changes = ptr.into_result(&system).ok().unwrap();
    assert_eq!(as_json(&changes), json(r#"[{ "op": "remove", "path": "/numbers/2" }]"#));
}

#[test]
fn an_untouched_pointer_gives_the_empty_patch() {
    let system = numbers();
    for path in ["", "/numbers", "/numbers/one", "/numbers/three"] {
        let ptr = Pointer::from_system(&system, &at(path)).ok().unwrap();
        let changes = ptr.into_result(&system).ok().unwrap();
        assert!(changes.is_empty(), "path {path}");
    }
}

#[test]
fn an_untouched_pointer_past_the_end_of_a_vec_gives_the_empty_patch() {
    let system = number_list(r#"["one", "two"]"#);
    let ptr = Pointer::from_system(&system, &at("/numbers/2")).ok().unwrap();
    assert_eq!(ptr.get(), None);
    let changes = ptr.into_result(&system).ok().unwrap();
    assert!(changes.is_empty());
}

#[test]
fn an_untouched_view_gives_the_empty_patch() {
    let system = numbers();
    let view = View::from_system(&system, &at("/numbers/two")).ok().unwrap();
    assert_eq!(view.get(), &Value::from(2));
    assert!(view.into_result(&system).ok().unwrap().is_empty());
}

#[test]
fn a_pointer_at_the_root_replaces_the_document() {
    let system = System::new(Value::from(0));
    let mut ptr = Pointer::from_system(&system, &Context::new()).ok().unwrap();
    assert_eq!(ptr.get(), Some(&Value::from(0)));
    ptr.assign(Value::from(1));
    let changes = ptr.into_result(&system).ok().unwrap();
    assert_eq!(as_json(&changes), json(r#"[{ "op": "replace", "path": "", "value": 1 }]"#));
}

#[test]
fn a_pointer_that_cannot_be_assigned_gives_an_error() {
    // the index is beyond the end of the array
    let system = number_list(r#"["one"]"#);
    let mut ptr = Pointer::from_system(&system, &at("/numbers/5")).ok().unwrap();
    ptr.assign(Value::from("six"));
    assert!(matches!(ptr.into_result(&system), Err(gustav::error::Error::Unexpected(_))));
}

#[test]
fn a_pointer_into_an_array_needs_an_index() {
    let system = number_list(r#"["one", "two"]"#);
    // no index at all
    assert!(Pointer::from_system(&system, &at("/numbers/x")).is_err());
    // an index with a leading zero
    assert!(Pointer::from_system(&system, &at("/numbers/01")).is_err());
    // the place after the last element is absent
    let ptr = Pointer::from_system(&system, &at("/numbers/-")).ok().unwrap();
    assert_eq!(ptr.get(), None);
    assert_eq!(ptr.path().to_str(), "/numbers/-");
    // appending there adds at the end
    let mut ptr = ptr;
    ptr.assign(Value::from("three"));
    let changes = ptr.into_result(&system).ok().unwrap();
    assert_eq!(
        as_json(&changes),
        json(r#"[{ "op": "add", "path": "/numbers/2", "value": "three" }]"#)
    );
}
