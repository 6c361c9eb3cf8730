use nous::path::{file_name, file_stem, join, parent};
use std::path::{Path, PathBuf};

const SAMPLES: &[&str] = &[
    "", "/", "//", ".", "..", "./", "./a", "a", "a/", "a/b", "a//b", "a/b/", "a/b/.", "a/./b",
    "/a", "/a/b", "/a/b/", "a/..", "../a", "./.nous", ".nous", "a/.nous", "/home/u/proj",
    "file.txt", "a.b.c", "a.", "..x", "./.", "/.", "x/./", "a/b/../c", "./../", "ümlaut/ß.tar.gz",
];

fn std_file_name(p: &str) -> Option<String> {
    Path::new(p).file_name().map(|s| s.to_str().unwrap().to_owned())
}

#[test]
fn file_name_agrees_with_std() {
    for p in SAMPLES {
        assert_eq!(file_name(p), std_file_name(p), "file_name of {:?}", p);
    }
}

#[test]
fn parent_agrees_with_std() {
    for p in SAMPLES {
        let expected = Path::new(p).parent().map(|s| s.to_str().unwrap().to_owned());
        assert_eq!(parent(p), expected, "parent of {:?}", p);
    }
}

#[test]
fn file_stem_agrees_with_std() {
    for p in SAMPLES {
        let expected = Path::new(p).file_stem().map(|s| s.to_str().unwrap().to_owned());
        assert_eq!(file_stem(p), expected, "file_stem of {:?}", p);
    }
}

#[test]
fn join_agrees_with_std() {
    let names = ["", "x", ".nous", "/abs", "a/b", "."];
    for base in SAMPLES {
        for q in names.iter() {
            let mut expected = PathBuf::from(base);
            expected.push(q);
            assert_eq!(join(base, q), expected.to_str().unwrap(), "join {:?} {:?}", base, q);
        }
    }
}

#[test]
fn file_name_examples() {
    assert_eq!(file_name("/tmp/file.txt"), Some("file.txt".to_string()));
    assert_eq!(file_name("/tmp/dir/"), Some("dir".to_string()));
    assert_eq!(file_name("/"), None);
    assert_eq!(file_name("a/.."), None);
    assert_eq!(file_name("."), None);
}

#[test]
fn file_stem_examples() {
    assert_eq!(file_stem("/tmp/file.txt"), Some("file".to_string()));
    assert_eq!(file_stem("archive.tar.gz"), Some("archive.tar".to_string()));
    assert_eq!(file_stem(".nous"), Some(".nous".to_string()));
    assert_eq!(file_stem("repo"), Some("repo".to_string()));
    assert_eq!(file_stem("/"), None);
}

#[test]
fn parent_examples() {
    assert_eq!(parent("/home/u/proj"), Some("/home/u".to_string()));
    assert_eq!(parent("/home"), Some("/".to_string()));
    assert_eq!(parent("/"), None);
    assert_eq!(parent("proj"), Some("".to_string()));
    assert_eq!(parent(""), None);
}

#[test]
fn join_examples() {
    assert_eq!(join("/home/u", "x"), "/home/u/x");
    assert_eq!(join("/home/u/", "x"), "/home/u/x");
    assert_eq!(join("", "x"), "x");
    assert_eq!(join("/home/u", "/etc"), "/etc");
}

#[test]
fn join_then_file_name_and_parent() {
    // The laws of joining a simple name onto a plain directory.
    for base in ["/", "/home/u", "a", "a/b", "."] {
        let joined = join(base, "leaf.txt");
        assert_eq!(file_name(&joined), Some("leaf.txt".to_string()));
        assert_eq!(parent(&joined), Some(base.to_string()));
    }
}
