use gustav::json::{apply, diff};
use gustav::patch::{Patch, PatchOp};
use gustav::path::Path;
use gustav::system::System;
use gustav::task::Operation;
use gustav::worker::Distance;
use serde_json::Value;

fn json(text: &str) -> Value {
    serde_json::from_str(text).unwrap()
}

fn documents() -> Vec<Value> {
    [
        "null",
        "true",
        "0",
        "1",
        "-1.5",
        r#""text""#,
        "[]",
        "{}",
        r#"[1, 2, 3]"#,
        r#"[1, 3]"#,
        r#"["one", "two", "three"]"#,
        r#"["one", "three"]"#,
        r#"{"a": 1}"#,
        r#"{"a": 1, "b": [true, null]}"#,
        r#"{"a": {"b": {"c": [1, {"d": "e"}]}}, "f": "g"}"#,
        r#"{"a": {"b": {"c": [2]}}, "h": 0}"#,
        r#"{"a/b": 1, "c~d": 2, "": 3}"#,
        r#"{"counters": {"one": 0, "two": 0}}"#,
        r#"{"counters": {"one": 2, "two": 2}}"#,
    ]
    .iter()
    .map(|text| json(text))
    .collect()
}

fn path(op: &PatchOp) -> &str {
    op.path().to_str()
}

#[test]
fn applying_the_diff_of_two_documents_gives_the_second() {
    for before in documents() {
        for after in documents() {
            let ops = diff(&before, &after);
            let mut doc = before.clone();
            assert!(apply(&mut doc, &ops).is_ok(), "{before} -> {after}");
            assert_eq!(doc, after, "{before} -> {after}");
        }
    }
}

#[test]
fn the_diff_of_a_document_with_itself_is_empty() {
    for doc in documents() {
        assert!(diff(&doc, &doc).is_empty(), "{doc}");
        assert!(diff(&doc, &doc.clone()).is_empty(), "{doc}");
        assert!(Distance::new(&System::new(doc.clone()), &doc).is_empty());
    }
}

#[test]
fn removing_from_the_middle_of_an_array_replaces_and_removes() {
    let ops = diff(
        &json(r#"{"numbers": ["one", "two", "three"]}"#),
        &json(r#"{"numbers": ["one", "three"]}"#),
    );
    assert_eq!(ops.len(), 2);
    assert!(matches!(&ops[0], PatchOp::Replace { path, value }
        if path.to_str() == "/numbers/1" && value == &Value::from("three")));
    assert!(matches!(&ops[1], PatchOp::Remove { path } if path.to_str() == "/numbers/2"));
}

#[test]
fn a_patch_is_applied_whole_or_not_at_all() {
    let before = json(r#"{"a": 1, "b": [1, 2]}"#);
    let at = |p: &'static str| Path::from_static(p);
    let good = vec![
        PatchOp::Test { path: at("/a"), value: Value::from(1) },
        PatchOp::Add { path: at("/c"), value: Value::from(true) },
        PatchOp::Copy { from: at("/a"), path: at("/d") },
        PatchOp::Move { from: at("/b/0"), path: at("/e") },
        PatchOp::Replace { path: at("/a"), value: Value::Null },
        PatchOp::Remove { path: at("/b/0") },
    ];
    let mut system = System::new(before.clone());
    assert!(system.patch(&Patch(good)).is_ok());
    assert_eq!(system.state(), &json(r#"{"a": null, "b": [], "c": true, "d": 1, "e": 1}"#));

    // the last operation fails, and nothing of the patch stays
    let bad = vec![
        PatchOp::Add { path: at("/c"), value: Value::from(true) },
        PatchOp::Remove { path: at("/a") },
        PatchOp::Replace { path: at("/nowhere"), value: Value::Null },
    ];
    let mut system = System::new(before.clone());
    let failed = system.apply(&bad);
    assert!(matches!(failed, Err(gustav::error::Error::Unexpected(_))));
    assert_eq!(system.state(), &before);

    // no operation changes nothing
    let mut system = System::new(before.clone());
    assert!(system.patch(&Patch::new()).is_ok());
    assert_eq!(system.root(), &before);
}

#[test]
fn the_state_resolves_paths() {
    let system = System::new(json(r#"{"a": {"b": [1, 2]}}"#));
    let at = |p: &'static str| Path::from_static(p);
    assert_eq!(system.pointer(&at("")), Some(system.root()));
    assert_eq!(system.pointer(&at("/a/b/1")), Some(&Value::from(2)));
    assert_eq!(system.pointer(&at("/a/b/2")), None);
    assert_eq!(system.pointer(&at("/a/b/-")), None);
    assert_eq!(system.pointer(&at("/a/c")), None);
    assert_eq!(system.pointer(&at("/a/b/1/c")), None);
    assert_eq!(system.clone().state(), system.state());
}

#[test]
fn documents_print_as_compact_json() {
    assert_eq!(System::new(Value::Null).to_string(), "null");
    assert_eq!(gustav::context::Context::new().target, Value::Null);
    assert_eq!(
        System::new(json(r#"{ "b": [1, "x"], "a": null }"#)).to_string(),
        r#"{"a":null,"b":[1,"x"]}"#
    );
}

#[test]
fn the_distance_holds_the_paths_above_each_change() {
    let state = System::new(json(r#"{"blocks": {"A": "Table", "B": {"Blk": "A"}, "C": {"Blk": "B"}}}"#));
    let target = json(r#"{"blocks": {"A": {"Blk": "B"}, "B": {"Blk": "C"}, "C": "Table"}}"#);
    let distance = Distance::new(&state, &target);
    assert!(!distance.is_empty());
    let paths: Vec<&str> = distance.iter().iter().map(path).collect();
    assert_eq!(paths, vec!["", "/blocks", "/blocks/A", "/blocks/B", "/blocks/B/Blk", "/blocks/C"]);
    for op in distance.iter() {
        match op {
            PatchOp::Replace { path, value } => {
                assert_eq!(Some(value), System::new(target.clone()).pointer(path));
            }
            _ => panic!("expected a replacement"),
        }
    }
}

#[test]
fn the_distance_keeps_the_kind_of_each_change() {
    let state = System::new(json(r#"{"a": {"b": 1, "c": 2}, "d": [1, 2]}"#));
    let target = json(r#"{"a": {"b": 1, "e": 3}, "d": [1]}"#);
    let distance = Distance::new(&state, &target);
    let ops: Vec<(&str, &str)> = distance
        .iter()
        .iter()
        .map(|op| match op {
            PatchOp::Add { .. } => ("add", path(op)),
            PatchOp::Remove { .. } => ("remove", path(op)),
            PatchOp::Replace { .. } => ("replace", path(op)),
            _ => ("other", path(op)),
        })
        .collect();
    assert_eq!(
        ops,
        vec![
            ("replace", ""),
            ("replace", "/a"),
            ("remove", "/a/c"),
            ("add", "/a/e"),
            ("replace", "/d"),
            ("remove", "/d/1"),
        ]
    );
}

#[test]
fn operations_answer_the_kinds_of_change() {
    let at = Path::from_static("/a");
    let add = PatchOp::Add { path: at.clone(), value: Value::Null };
    let remove = PatchOp::Remove { path: at.clone() };
    let replace = PatchOp::Replace { path: at.clone(), value: Value::Null };
    let test = PatchOp::Test { path: at.clone(), value: Value::Null };
    let copy = PatchOp::Copy { from: at.clone(), path: at.clone() };
    let moved = PatchOp::Move { from: at.clone(), path: at.clone() };
    let table = [
        (Operation::Create, [true, false, false]),
        (Operation::Update, [false, true, false]),
        (Operation::Delete, [false, false, true]),
        (Operation::Any, [true, true, true]),
        (Operation::Nothing, [false, false, false]),
    ];
    for (operation, [on_add, on_replace, on_remove]) in table {
        assert_eq!(operation.matches(&add), on_add);
        assert_eq!(operation.matches(&replace), on_replace);
        assert_eq!(operation.matches(&remove), on_remove);
        assert!(!operation.matches(&test));
        assert!(!operation.matches(&copy));
        assert!(!operation.matches(&moved));
    }
}

#[test]
fn a_move_that_fails_half_way_leaves_the_state_as_it_was() {
    // the value at /a can be taken out, and cannot be put under the number at /b
    let before = json(r#"{"a": 1, "b": 2}"#);
    let at = |p: &'static str| Path::from_static(p);
    let mut system = System::new(before.clone());
    let failed = system.apply(&vec![PatchOp::Move { from: at("/a"), path: at("/b/c") }]);
    assert!(matches!(failed, Err(gustav::error::Error::Unexpected(_))));
    assert_eq!(system.state(), &before);

    // the same after operations that succeeded
    let mut doc = before.clone();
    let failed = apply(
        &mut doc,
        &vec![
            PatchOp::Add { path: at("/a/x"), value: Value::Null },
            PatchOp::Replace { path: at("/b"), value: Value::from(3) },
            PatchOp::Move { from: at("/a"), path: at("/b/c") },
        ],
    );
    assert!(failed.is_err());
    assert_eq!(doc, before);
}

#[test]
fn a_move_to_the_root_before_a_failing_operation_leaves_the_state_as_it_was() {
    let before = json(r#"{"a": {"b": 1}, "c": 2}"#);
    let at = |p: &'static str| Path::from_static(p);
    let mut system = System::new(before.clone());
    let failed = system.apply(&vec![
        PatchOp::Move { from: at("/a"), path: at("") },
        PatchOp::Remove { path: at("/nowhere") },
    ]);
    assert!(failed.is_err());
    assert_eq!(system.state(), &before);

    // a value moved onto its parent, then a test that fails
    let mut system = System::new(before.clone());
    let failed = system.apply(&vec![
        PatchOp::Move { from: at("/a/b"), path: at("/a") },
        PatchOp::Test { path: at("/a"), value: Value::from(7) },
    ]);
    assert!(failed.is_err());
    assert_eq!(system.state(), &before);

    // without the failing operation the moves are made
    let mut system = System::new(before.clone());
    assert!(system.apply(&vec![PatchOp::Move { from: at("/a/b"), path: at("/a") }]).is_ok());
    assert_eq!(system.state(), &json(r#"{"a": 1, "c": 2}"#));
    let mut system = System::new(before);
    assert!(system.apply(&vec![PatchOp::Move { from: at("/a"), path: at("") }]).is_ok());
    assert_eq!(system.state(), &json(r#"{"b": 1}"#));
}
