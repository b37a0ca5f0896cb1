use testwatch::tree::walk_dirs;
use testwatch::tree::DirTree;

fn leaf(name: &str, files: Vec<&str>) -> DirTree {
    DirTree {
        name: name.to_string(),
        subdirs: vec![],
        files: files.into_iter().map(|f| f.to_string()).collect(),
    }
}

#[test]
fn walking_lists_the_root_first_then_each_subtree() {
    let proj = DirTree {
        name: "proj".to_string(),
        subdirs: vec![leaf("src", vec!["lib.rs"]), leaf("tests", vec!["paths.rs"])],
        files: vec!["Cargo.toml".to_string()],
    };
    let visited = walk_dirs("/tmp/", &proj);
    assert_eq!(visited, vec!["/tmp/proj", "/tmp/proj/src", "/tmp/proj/tests"]);
}

#[test]
fn walking_visits_no_file_entries() {
    let t = leaf("only", vec!["a.rs", "b.rs", "notes.md"]);
    let visited = walk_dirs("", &t);
    assert_eq!(visited, vec!["only"]);
}

#[test]
fn walking_goes_depth_first() {
    let t = DirTree {
        name: "a".to_string(),
        subdirs: vec![
            DirTree {
                name: "b".to_string(),
                subdirs: vec![leaf("c", vec![])],
                files: vec![],
            },
            leaf("d", vec![]),
        ],
        files: vec![],
    };
    let visited = walk_dirs("/", &t);
    assert_eq!(visited, vec!["/a", "/a/b", "/a/b/c", "/a/d"]);
}
