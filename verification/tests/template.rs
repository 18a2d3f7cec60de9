use gustav::path::{Path, PathArgs};
use gustav::text::{comes_before, same_text};
use gustav::worker::template::expand_template;

fn args(pairs: &[(&str, &str)]) -> PathArgs {
    PathArgs(pairs.iter().map(|(k, v)| (k.to_string(), v.to_string())).collect())
}

fn expand(template: &str, pairs: &[(&str, &str)]) -> Result<String, Vec<String>> {
    expand_template(template, &args(pairs))
}

#[test]
fn a_template_without_placeholders_is_its_own_path() {
    assert_eq!(expand("", &[]), Ok("".to_string()));
    assert_eq!(expand("/a/b/c", &[("a", "x")]), Ok("/a/b/c".to_string()));
}

#[test]
fn placeholders_take_the_values_of_their_arguments() {
    assert_eq!(expand("/counters/{counter}", &[("counter", "one")]), Ok("/counters/one".into()));
    assert_eq!(expand("/{a}/{b}/{a}", &[("a", "1"), ("b", "2")]), Ok("/1/2/1".into()));
    assert_eq!(expand("/img{id}.png", &[("id", "7")]), Ok("/img7.png".into()));
    assert_eq!(expand("/files/{*path}", &[("path", "a/b")]), Ok("/files/a/b".into()));
    // the first argument of a name counts
    assert_eq!(expand("/{a}", &[("a", "1"), ("a", "2")]), Ok("/1".into()));
    // a value is copied as it is
    assert_eq!(expand("/{a}/{b}", &[("a", "{b}"), ("b", "x")]), Ok("/{b}/x".into()));
    assert_eq!(expand("/{a}", &[("a", "")]), Ok("/".into()));
    assert_eq!(expand("/{é}", &[("é", "ü")]), Ok("/ü".into()));
}

#[test]
fn doubled_braces_stand_for_braces() {
    assert_eq!(expand("/data/{{counter}}/edit", &[("counter", "4")]), Ok("/data/{counter}/edit".into()));
    assert_eq!(expand("/{{", &[]), Ok("/{".into()));
    assert_eq!(expand("/}}", &[]), Ok("/}".into()));
    assert_eq!(expand("/{{{a}}}", &[("a", "1")]), Ok("/{1}".into()));
}

#[test]
fn placeholders_without_arguments_are_reported() {
    assert_eq!(expand("/tasks/{task_id}/check", &[]), Err(vec!["{task_id}".to_string()]));
    assert_eq!(
        expand("/{a}/{b}/{*c}", &[("b", "2")]),
        Err(vec!["{a}".to_string(), "{*c}".to_string()])
    );
    assert_eq!(expand("/{}", &[("a", "1")]), Err(vec!["{}".to_string()]));
}

#[test]
fn braces_that_do_not_close_are_text() {
    assert_eq!(expand("/a/{b", &[("b", "1")]), Ok("/a/{b".into()));
    assert_eq!(expand("/a}/b", &[]), Ok("/a}/b".into()));
    assert_eq!(expand("/{", &[]), Ok("/{".into()));
}

#[test]
fn it_parses_paths() {
    for valid in ["", "/", "/a", "/a/b/c", "/a~0b", "/a~1b", "//", "/ä/ö"] {
        assert_eq!(Path::parse(valid).map(|p| p.into_string()), Some(valid.to_string()));
    }
    for invalid in ["a", "a/b/c", "/a~", "/a~2", "/~", "~0", " /a"] {
        assert!(Path::parse(invalid).is_none(), "{invalid}");
    }
}

#[test]
fn it_finds_the_parent_of_a_path() {
    let parent = |path: &str| Path::parse(path).unwrap().parent().map(|p| p.into_string());
    assert_eq!(parent(""), None);
    assert_eq!(parent("/"), Some("".to_string()));
    assert_eq!(parent("/a"), Some("".to_string()));
    assert_eq!(parent("/a/b"), Some("/a".to_string()));
    assert_eq!(parent("/a/b/"), Some("/a/b".to_string()));
    assert_eq!(parent("/a~1b/c~0d"), Some("/a~1b".to_string()));
    assert!(Path::root().is_root());
    assert!(!Path::from_static("/").is_root());
    assert!(Path::from_static("/a").same(&Path::parse("/a").unwrap()));
    assert!(!Path::from_static("/a").same(&Path::from_static("/b")));
}

#[test]
fn it_binds_arguments() {
    let mut args = PathArgs::new();
    assert_eq!(args.len(), 0);
    args.insert("a", "1");
    args.insert("b", "2");
    args.insert("a", "3");
    assert_eq!(
        args.iter(),
        &vec![("a".to_string(), "3".to_string()), ("b".to_string(), "2".to_string())]
    );
    assert_eq!(args.get("a"), Some(&"3".to_string()));
    assert_eq!(args.get("c"), None);
    assert_eq!(args.position("b"), 1);
    assert_eq!(args.position("c"), 2);
    assert_eq!(args.duplicate().0, args.0);
}

#[test]
fn texts_are_ordered_by_code_point() {
    let cases = [
        ("", "", false),
        ("", "a", true),
        ("a", "", false),
        ("a", "b", true),
        ("b", "a", false),
        ("a", "ab", true),
        ("ab", "a", false),
        ("ab", "ac", true),
        ("Z", "a", true),
        ("z", "é", true),
        ("é", "z", false),
        ("plus_one", "plus_two", true),
    ];
    for (a, b, expected) in cases {
        assert_eq!(comes_before(a, b), expected, "{a:?} < {b:?}");
        assert_eq!(comes_before(a, b), a < b);
        assert_eq!(same_text(a, b), a == b);
    }
}
