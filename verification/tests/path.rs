use gustav::path::Path;

#[test]
fn it_converts_a_path_to_string() {
    assert_eq!(Path::from_static("/a/b/c").to_str(), "/a/b/c");
    assert_eq!(Path::from_static("/").to_str(), "/");
    assert_eq!(Path::from_static("").to_str(), "");
}

#[test]
fn it_converts_a_str_to_a_path() {
    let path = Path::from_static("/a/b/c");
    assert_eq!(path.into_string(), "/a/b/c");
}
