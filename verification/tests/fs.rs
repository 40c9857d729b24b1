//! The file tools, against a small directory tree held in memory.
use mo_worker::tools::fs::{
    classify_read, classify_write, create_file, edit_file, edit_text, file_to_resolve,
    finish_action, parent_to_resolve, read_file, remove_file, resolve_existing, resolve_path,
    resolve_readable, FileAction, FileKind, PathClass, PathLookup,
};
use mo_worker::output::{cap_output, OUTPUT_CAP};

const DIR: &str = "/base";
const WORKDIR: &str = "/base/work";
const GONE: &str = "No such file or directory (os error 2)";

#[derive(Clone)]
enum Node {
    File(String),
    Dir,
    Link(String),
}

struct Tree {
    nodes: Vec<(String, Node)>,
}

impl Tree {
    fn find(&self, path: &str) -> Option<&Node> {
        self.nodes.iter().find(|(p, _)| p == path).map(|(_, n)| n)
    }

    fn put(&mut self, path: &str, node: Node) {
        self.nodes.retain(|(p, _)| p != path);
        self.nodes.push((path.to_string(), node));
    }

    fn write(&mut self, path: &str, text: &str) {
        self.put(path, Node::File(text.to_string()));
    }

    fn canonicalize(&self, path: &str) -> Result<String, String> {
        let mut at = String::new();
        for part in path.split('/') {
            if part.is_empty() || part == "." {
                continue;
            }
            if part == ".." {
                let cut = at.rfind('/').unwrap_or(0);
                at.truncate(cut);
                continue;
            }
            let next = format!("{at}/{part}");
            match self.find(&next) {
                Some(Node::Link(target)) => at = self.canonicalize(target)?,
                Some(_) => at = next,
                None => return Err(GONE.to_string()),
            }
        }
        Ok(if at.is_empty() { "/".to_string() } else { at })
    }

    fn read(&self, path: &str) -> Result<String, String> {
        match self.find(path) {
            Some(Node::File(text)) => Ok(text.clone()),
            _ => Err("Is a directory (os error 21)".to_string()),
        }
    }

    fn lookup(&self, workdir: &str, raw: &str) -> PathLookup {
        let root = self.canonicalize(workdir);
        let nothing: Result<String, String> = Err("not asked".to_string());
        let parent = match &root {
            Ok(w) => match parent_to_resolve(w, raw) {
                Some(p) => self.canonicalize(&p),
                None => nothing.clone(),
            },
            Err(_) => nothing.clone(),
        };
        let file = match (&root, &parent) {
            (Ok(w), Ok(p)) => match file_to_resolve(w, p, raw) {
                Some(f) => self.canonicalize(&f),
                None => nothing,
            },
            _ => nothing,
        };
        PathLookup { workdir: root, parent, file }
    }

    fn apply(&mut self, action: &FileAction) -> Result<(), String> {
        match action {
            FileAction::Write { path, content } => self.write(path, content),
            FileAction::Remove { path } => self.nodes.retain(|(p, _)| p != path),
        }
        Ok(())
    }
}

fn setup() -> Tree {
    let mut tree = Tree { nodes: Vec::new() };
    tree.put(DIR, Node::Dir);
    tree.put(WORKDIR, Node::Dir);
    tree.write("/base/work/notes.txt", "line one\nline two\n");
    tree
}

fn read(tree: &Tree, raw: &str, roots: &[&str]) -> Result<String, String> {
    let roots: Vec<String> = roots.iter().map(|r| r.to_string()).collect();
    let lookup = tree.lookup(WORKDIR, raw);
    let content = match &lookup.file {
        Ok(f) => tree.read(f),
        Err(e) => Err(e.clone()),
    };
    read_file(WORKDIR, raw, &roots, &Vec::new(), &lookup, &content)
}

fn edit(
    tree: &mut Tree,
    raw: &str,
    old: &str,
    new: &str,
    all: bool,
) -> Result<String, String> {
    let lookup = tree.lookup(WORKDIR, raw);
    let content = match &lookup.file {
        Ok(f) => tree.read(f),
        Err(e) => Err(e.clone()),
    };
    let action = edit_file(WORKDIR, raw, old, new, all, &Vec::new(), &lookup, &content)?;
    let done = tree.apply(&action);
    finish_action(&action, raw, &done)
}

fn create(tree: &mut Tree, raw: &str, content: &str) -> Result<String, String> {
    let lookup = tree.lookup(WORKDIR, raw);
    let there = match resolve_path(WORKDIR, raw, &Vec::new(), &lookup) {
        Ok(p) => tree.find(&p).is_some(),
        Err(_) => false,
    };
    let action = create_file(WORKDIR, raw, content, &Vec::new(), &lookup, there)?;
    let done = tree.apply(&action);
    finish_action(&action, raw, &done)
}

fn remove(tree: &mut Tree, raw: &str) -> Result<String, String> {
    let lookup = tree.lookup(WORKDIR, raw);
    let found = match resolve_path(WORKDIR, raw, &Vec::new(), &lookup) {
        Ok(p) => match tree.find(&p) {
            Some(Node::File(_)) => Ok(FileKind::Regular),
            Some(Node::Link(_)) => Ok(FileKind::Symlink),
            Some(Node::Dir) => Ok(FileKind::Other),
            None => Err(GONE.to_string()),
        },
        Err(e) => Err(e),
    };
    let action = remove_file(WORKDIR, raw, &Vec::new(), &lookup, &found)?;
    let done = tree.apply(&action);
    finish_action(&action, raw, &done)
}

#[test]
fn read_relative_and_absolute() {
    let tree = setup();
    assert_eq!(read(&tree, "notes.txt", &[]).unwrap(), "line one\nline two\n");
    assert_eq!(read(&tree, "/base/work/notes.txt", &[]).unwrap(), "line one\nline two\n");
}

#[test]
fn read_allows_extra_roots() {
    let mut tree = setup();
    tree.put("/base/skill-a", Node::Dir);
    tree.write("/base/skill-a/script.sh", "#!/bin/sh\necho hi\n");
    let root = "/base/skill-a";
    assert_eq!(
        read(&tree, "/base/skill-a/script.sh", &[root]).unwrap(),
        "#!/bin/sh\necho hi\n"
    );
    // Without the extra root the same file is rejected.
    assert!(read(&tree, "/base/skill-a/script.sh", &[]).is_err());
    // A sibling directory is still rejected.
    tree.put("/base/other", Node::Dir);
    tree.write("/base/other/x.txt", "x");
    assert!(read(&tree, "/base/other/x.txt", &[root]).is_err());
    // A symlink inside the root that points outside is rejected.
    tree.write("/base/secret.txt", "secret");
    tree.put("/base/skill-a/leak.txt", Node::Link("/base/secret.txt".to_string()));
    assert!(read(&tree, "/base/skill-a/leak.txt", &[root]).is_err());
    // So is a directory whose name only starts like the root.
    tree.put("/base/skill-ab", Node::Dir);
    tree.write("/base/skill-ab/x.txt", "x");
    assert!(read(&tree, "/base/skill-ab/x.txt", &[root]).is_err());
}

#[test]
fn rejects_escapes() {
    let mut tree = setup();
    tree.write("/base/secret.txt", "secret");
    // Traversal outside the workdir.
    assert_eq!(
        read(&tree, "../secret.txt", &[]).unwrap_err(),
        "path escapes the working directory: ../secret.txt"
    );
    assert!(read(&tree, "sub/../../secret.txt", &[]).is_err());
    // Absolute path outside.
    assert!(read(&tree, "/base/secret.txt", &[]).is_err());
    // Nonexistent parent.
    assert_eq!(
        read(&tree, "no/such/dir/file.txt", &[]).unwrap_err(),
        format!("parent directory does not exist: /base/work/no/such/dir ({GONE})")
    );
}

#[test]
fn rejects_symlink_escape() {
    let mut tree = setup();
    tree.write("/base/secret.txt", "secret");
    tree.put("/base/work/link.txt", Node::Link("/base/secret.txt".to_string()));
    assert!(read(&tree, "link.txt", &[]).is_err());
}

#[test]
fn edit_unique_match_and_content_returned() {
    let mut tree = setup();
    let new_content = edit(&mut tree, "notes.txt", "line one", "ONE", false).unwrap();
    assert_eq!(new_content, "ONE\nline two\n");
    assert_eq!(read(&tree, "notes.txt", &[]).unwrap(), "ONE\nline two\n");
}

#[test]
fn edit_requires_unique_match() {
    let mut tree = setup();
    tree.write("/base/work/dup.txt", "same\nsame\n");
    let err = edit(&mut tree, "dup.txt", "same", "x", false).unwrap_err();
    assert!(err.contains("exactly once"), "got: {err}");
    assert_eq!(err, "old_string must match exactly once in dup.txt, found 2 matches");
    // replace_all handles it.
    let new_content = edit(&mut tree, "dup.txt", "same", "x", true).unwrap();
    assert_eq!(new_content, "x\nx\n");
}

#[test]
fn edit_missing_old_string_errors() {
    let mut tree = setup();
    let err = edit(&mut tree, "notes.txt", "nope", "x", false).unwrap_err();
    assert!(err.contains("found 0 matches"), "got: {err}");
    let err = edit(&mut tree, "notes.txt", "nope", "x", true).unwrap_err();
    assert_eq!(err, "old_string not found in notes.txt");
    let err = edit(&mut tree, "notes.txt", "", "x", false).unwrap_err();
    assert_eq!(err, "old_string must not be empty");
}

#[test]
fn create_file_writes_content_and_refuses_existing() {
    let mut tree = setup();
    let written = create(&mut tree, "new.txt", "hello\nworld\n").unwrap();
    assert_eq!(written, "hello\nworld\n");
    assert_eq!(read(&tree, "new.txt", &[]).unwrap(), "hello\nworld\n");
    // Refuses to overwrite an existing file.
    let err = create(&mut tree, "new.txt", "again").unwrap_err();
    assert!(err.contains("already exists"), "got: {err}");
    let err = create(&mut tree, "notes.txt", "again").unwrap_err();
    assert!(err.contains("already exists"), "got: {err}");
    // The parent directory must exist.
    assert!(create(&mut tree, "no/such/dir/f.txt", "x").is_err());
}

#[test]
fn create_file_rejects_escapes() {
    let mut tree = setup();
    tree.write("/base/secret.txt", "secret");
    assert!(create(&mut tree, "/base/secret.txt", "x").is_err());
    assert!(create(&mut tree, "../evil.txt", "x").is_err());
    // A symlinked parent that points outside is rejected.
    tree.put("/base/work/outside", Node::Link(DIR.to_string()));
    assert!(create(&mut tree, "outside/evil.txt", "x").is_err());
}

#[test]
fn remove_file_removes_and_refuses_dirs_and_symlinks() {
    let mut tree = setup();
    tree.write("/base/work/tmp.txt", "x");
    assert!(remove(&mut tree, "tmp.txt").unwrap().contains("removed"));
    assert!(tree.find("/base/work/tmp.txt").is_none());
    assert!(remove(&mut tree, "tmp.txt").is_err());

    tree.put("/base/work/subdir", Node::Dir);
    let err = remove(&mut tree, "subdir").unwrap_err();
    assert!(err.contains("not a regular file"), "got: {err}");

    tree.write("/base/work/real.txt", "x");
    tree.put("/base/work/link.txt", Node::Link("/base/work/real.txt".to_string()));
    let err = remove(&mut tree, "link.txt").unwrap_err();
    assert!(err.contains("refusing to remove symlink"), "got: {err}");
    assert!(tree.find("/base/work/real.txt").is_some());

    tree.write("/base/secret.txt", "secret");
    assert!(remove(&mut tree, "../secret.txt").is_err());
    assert!(remove(&mut tree, "/base/secret.txt").is_err());
}

#[test]
fn every_lookup_failure_has_its_message() {
    let tree = setup();
    let none: Vec<String> = Vec::new();
    let gone = PathLookup {
        workdir: Err(GONE.to_string()),
        parent: Err(GONE.to_string()),
        file: Err(GONE.to_string()),
    };
    assert_eq!(
        resolve_path("/nowhere", "a", &none, &gone).unwrap_err(),
        format!("working directory does not exist: /nowhere ({GONE})")
    );
    let at = |raw: &str| resolve_path(WORKDIR, raw, &Vec::new(), &tree.lookup(WORKDIR, raw));
    assert_eq!(at("  ").unwrap_err(), "path must not be empty");
    assert_eq!(at("/").unwrap_err(), "path has no parent: /");
    assert_eq!(at("..").unwrap_err(), "path has no file name: ..");
    let missing = tree.lookup(WORKDIR, "absent.txt");
    assert_eq!(
        resolve_existing(WORKDIR, "absent.txt", &none, &missing).unwrap_err(),
        format!("file does not exist: absent.txt ({GONE})")
    );
    // A write needs no existing file.
    assert_eq!(at("absent.txt").unwrap(), "/base/work/absent.txt");
}

#[test]
fn classification_and_approval_agree() {
    let mut tree = setup();
    tree.write("/base/secret.txt", "secret");
    let none: Vec<String> = Vec::new();
    let inside = tree.lookup(WORKDIR, "notes.txt");
    assert_eq!(
        classify_read(WORKDIR, "notes.txt", &none, &inside),
        Ok(PathClass::Allowed("/base/work/notes.txt".to_string()))
    );
    let raw = "../secret.txt";
    let outside = tree.lookup(WORKDIR, raw);
    assert_eq!(
        classify_read(WORKDIR, raw, &none, &outside),
        Ok(PathClass::Outside("/base/secret.txt".to_string()))
    );
    assert_eq!(
        classify_write(WORKDIR, raw, &outside),
        Ok(PathClass::Outside("/base/secret.txt".to_string()))
    );
    assert!(resolve_path(WORKDIR, raw, &none, &outside).is_err());
    assert!(resolve_readable(WORKDIR, raw, &none, &none, &outside).is_err());
    let approved = vec!["/base/secret.txt".to_string()];
    assert_eq!(resolve_path(WORKDIR, raw, &approved, &outside).unwrap(), "/base/secret.txt");
    assert_eq!(
        resolve_readable(WORKDIR, raw, &none, &approved, &outside).unwrap(),
        "/base/secret.txt"
    );
    // The approval is for that path alone.
    let other = vec!["/base/secret".to_string()];
    assert!(resolve_path(WORKDIR, raw, &other, &outside).is_err());
}

#[test]
fn edits_agree_with_std() {
    let cases = [
        ("aaaa", "aa", "b"),
        ("abcabc", "abc", ""),
        ("héllo wörld", "ö", "oe"),
        ("x", "x", "xx"),
        ("ababa", "aba", "-"),
    ];
    for (text, old, new) in cases {
        assert_eq!(edit_text("f", text, old, new, true).unwrap(), text.replace(old, new));
        let n = text.matches(old).count();
        let once = edit_text("f", text, old, new, false);
        if n == 1 {
            assert_eq!(once.unwrap(), text.replacen(old, new, 1));
        } else {
            assert_eq!(
                once.unwrap_err(),
                format!("old_string must match exactly once in f, found {n} matches")
            );
        }
        assert_eq!(edit_text("f", text, old, old, true).unwrap(), text);
    }
}

#[test]
fn failed_actions_say_so() {
    let write = FileAction::Write { path: "/p".to_string(), content: "c".to_string() };
    let remove = FileAction::Remove { path: "/p".to_string() };
    let failed = Err("disk full".to_string());
    assert_eq!(finish_action(&write, "a", &failed).unwrap_err(), "failed to write a: disk full");
    assert_eq!(finish_action(&remove, "a", &failed).unwrap_err(), "failed to remove a: disk full");
    assert_eq!(finish_action(&write, "a", &Ok(())).unwrap(), "c");
    assert_eq!(finish_action(&remove, "a", &Ok(())).unwrap(), "removed a");
}

#[test]
fn long_output_is_capped() {
    let fits = "x".repeat(OUTPUT_CAP);
    assert_eq!(cap_output(&fits), fits);
    let long = "é".repeat(OUTPUT_CAP);
    let half = "é".repeat(OUTPUT_CAP / 2);
    assert_eq!(
        cap_output(&long),
        format!("{half}\n\n[output truncated: 2097152 bytes total, showing first 1048576]")
    );
    // A cut inside a character backs up to its start.
    let odd = format!("a{long}");
    let kept = &odd[..OUTPUT_CAP - 1];
    assert_eq!(
        cap_output(&odd),
        format!("{kept}\n\n[output truncated: 2097153 bytes total, showing first 1048575]")
    );
}
