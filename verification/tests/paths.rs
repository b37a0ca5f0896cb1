use testwatch::paths::extract_path_from;
use testwatch::paths::is_absolute;
use testwatch::paths::resolve_root;

#[test]
fn test_is_absolute() {
    assert_eq!(false, is_absolute("."));
}

#[test]
fn test_extract_path_from() {
    let input = vec!["name-of-program".to_string(), "/some/simple/path".to_string()];

    let actual = extract_path_from(&input).unwrap();

    assert_eq!(input[1], actual);
}

#[test]
fn absolute_paths_start_with_a_separator() {
    assert!(is_absolute("/"));
    assert!(is_absolute("/some/simple/path"));
    assert!(!is_absolute(""));
    assert!(!is_absolute("relative/path"));
}

#[test]
fn missing_argument_is_an_error() {
    let input = vec!["name-of-program".to_string()];
    assert!(extract_path_from(&input).is_err());
    let empty: Vec<String> = vec![];
    assert!(extract_path_from(&empty).is_err());
}

#[test]
fn relative_root_is_joined_onto_the_working_directory() {
    assert_eq!(resolve_root("/home/user", "."), "/home/user/.");
    assert_eq!(resolve_root("/home/user", "proj"), "/home/user/proj");
}

#[test]
fn absolute_root_is_used_verbatim() {
    assert_eq!(resolve_root("/home/user", "/abs/path"), "/abs/path");
}
