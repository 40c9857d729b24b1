//! Paths and names, held against `std`.
use std::path::Path;

use mo_worker::paths::{
    contains_path, file_name, is_absolute, join, parent, paths_equal, starts_with, starts_with_any,
};
use mo_worker::session::{Mode, SessionStatus};

const SAMPLES: [&str; 22] = [
    "", "/", "//", ".", "..", "a", "a/", "a//b", "/a", "/a/", "/a/b", "/a/./b", "/a/../b", "a/.",
    "./a", "a/..", "../a", "/..", "//a//b//", "/a/b/.", "é/ü", "a b/c",
];

fn text(path: Option<&Path>) -> Option<String> {
    path.map(|p| p.to_str().unwrap().to_string())
}

#[test]
fn single_paths_agree_with_std() {
    for s in SAMPLES {
        let path = Path::new(s);
        assert_eq!(parent(s), text(path.parent()), "parent of {s:?}");
        let name = path.file_name().map(|n| n.to_str().unwrap().to_string());
        assert_eq!(file_name(s), name, "file name of {s:?}");
        assert_eq!(is_absolute(s), path.is_absolute(), "{s:?}");
    }
}

#[test]
fn pairs_of_paths_agree_with_std() {
    for a in SAMPLES {
        for b in SAMPLES {
            let joined = Path::new(a).join(b);
            assert_eq!(join(a, b), joined.to_str().unwrap(), "{a:?} {b:?}");
            assert_eq!(starts_with(a, b), Path::new(a).starts_with(b), "{a:?} {b:?}");
            assert_eq!(paths_equal(a, b), Path::new(a) == Path::new(b), "{a:?} {b:?}");
        }
    }
}

#[test]
fn lists_of_paths() {
    let roots = vec!["/a".to_string(), "/b/c".to_string()];
    assert!(starts_with_any("/b/c/d", &roots));
    assert!(!starts_with_any("/b", &roots));
    assert!(!starts_with_any("/ab", &roots));
    assert!(contains_path(&roots, "/b/./c/"));
    assert!(!contains_path(&roots, "/b/c/d"));
    assert!(!contains_path(&Vec::new(), "/a"));
}

#[test]
fn mode_names_come_back() {
    for mode in [Mode::Build, Mode::Plan, Mode::Explore] {
        assert_eq!(Mode::parse(mode.as_str()), Ok(mode));
    }
    assert_eq!(Mode::parse("Build"), Err("unknown mode: Build".to_string()));
}

#[test]
fn ended_sessions_are_terminal() {
    assert!(!SessionStatus::Pending.is_terminal());
    assert!(!SessionStatus::Running.is_terminal());
    for status in [SessionStatus::Completed, SessionStatus::Failed, SessionStatus::Cancelled] {
        assert!(status.is_terminal());
    }
    assert_eq!(SessionStatus::Completed.as_str(), "completed");
}
