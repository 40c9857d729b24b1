//! File tools, sandboxed to the working directory.
//!
//! The file system itself is asked by the caller: a `PathLookup` holds what
//! it said about a path, and a `FileAction` is what it is told to do.
use vstd::prelude::*;
use vstd::string::*;

use crate::output::{cap_output, capped};
use crate::paths::{
    contains_path, file_name, file_name_of, join, joined, lists_path, parent, parent_of,
    starts_with, starts_with_any, under, under_any,
};
use crate::text::{
    blank, cat2, cat4, cat5, chars_of, count_matches, decimal, decimal_text, is_blank, match_count,
    replace, replace_once, replaced, replaced_once,
};

verus! {

/// What the file system said about a raw path: the canonical forms of the
/// working directory, of the parent of the path, and of the path itself, or
/// why there is none. `parent` answers `parent_to_resolve` and `file` answers
/// `file_to_resolve`; they matter only where those have something to ask.
#[derive(Debug, PartialEq, Eq)]
pub struct PathLookup {
    pub workdir: Result<String, String>,
    pub parent: Result<String, String>,
    pub file: Result<String, String>,
}

/// How a path lies to the sandbox roots: inside one, or outside all of them.
#[derive(Debug, Clone, PartialEq, Eq)]
pub enum PathClass {
    Allowed(String),
    Outside(String),
}

/// The texts of a `PathClass`.
#[verifier::ext_equal]
pub enum ClassView {
    Allowed(Seq<char>),
    Outside(Seq<char>),
}

impl View for PathClass {
    type V = ClassView;

    open spec fn view(&self) -> ClassView {
        match self {
            PathClass::Allowed(p) => ClassView::Allowed(p@),
            PathClass::Outside(p) => ClassView::Outside(p@),
        }
    }
}

/// The texts of a result.
pub open spec fn result_text(r: Result<String, String>) -> Result<Seq<char>, Seq<char>> {
    match r {
        Ok(t) => Ok(t@),
        Err(e) => Err(e@),
    }
}

/// The texts of a classification.
pub open spec fn class_text(r: Result<PathClass, String>) -> Result<ClassView, Seq<char>> {
    match r {
        Ok(c) => Ok(c@),
        Err(e) => Err(e@),
    }
}

/// A located path: the canonical working directory, the canonical parent, and
/// the file name joined to it.
#[verifier::ext_equal]
pub struct PlaceView {
    pub workdir: Seq<char>,
    pub parent: Seq<char>,
    pub resolved: Seq<char>,
}

/// Where a raw path leads: relative paths start at the canonical working
/// directory, and the parent must exist.
pub open spec fn located(workdir: Seq<char>, raw: Seq<char>, lookup: PathLookup) -> Result<
    PlaceView,
    Seq<char>,
> {
    match lookup.workdir {
        Err(e) => Err("working directory does not exist: "@ + workdir + " ("@ + e@ + ")"@),
        Ok(w) => if blank(raw) {
            Err("path must not be empty"@)
        } else {
            match parent_of(joined(w@, raw)) {
                None => Err("path has no parent: "@ + raw),
                Some(p) => match lookup.parent {
                    Err(e) => Err("parent directory does not exist: "@ + p + " ("@ + e@ + ")"@),
                    Ok(parent) => match file_name_of(joined(w@, raw)) {
                        None => Err("path has no file name: "@ + raw),
                        Some(name) => Ok(
                            PlaceView {
                                workdir: w@,
                                parent: parent@,
                                resolved: joined(parent@, name),
                            },
                        ),
                    },
                },
            }
        },
    }
}

/// The refusal of a path that leaves the sandbox.
pub open spec fn escape_text(raw: Seq<char>) -> Seq<char> {
    "path escapes the working directory: "@ + raw
}

/// The file a raw path names, which must exist.
pub open spec fn existing(workdir: Seq<char>, raw: Seq<char>, lookup: PathLookup) -> Result<
    (Seq<char>, Seq<char>),
    Seq<char>,
> {
    match located(workdir, raw, lookup) {
        Err(e) => Err(e),
        Ok(place) => match lookup.file {
            Err(e) => Err("file does not exist: "@ + raw + " ("@ + e@ + ")"@),
            Ok(file) => Ok((place.workdir, file@)),
        },
    }
}

/// The path for a write: its parent lies under the working directory, or the
/// user approved exactly this path.
pub open spec fn write_path(
    workdir: Seq<char>,
    raw: Seq<char>,
    approved: Seq<String>,
    lookup: PathLookup,
) -> Result<Seq<char>, Seq<char>> {
    match located(workdir, raw, lookup) {
        Err(e) => Err(e),
        Ok(place) => if under(place.parent, place.workdir) || lists_path(approved, place.resolved) {
            Ok(place.resolved)
        } else {
            Err(escape_text(raw))
        },
    }
}

/// The path for a read: the existing file lies under the working directory or
/// one of the extra roots, or the user approved exactly this path.
pub open spec fn read_path(
    workdir: Seq<char>,
    raw: Seq<char>,
    extra_roots: Seq<String>,
    approved: Seq<String>,
    lookup: PathLookup,
) -> Result<Seq<char>, Seq<char>> {
    match existing(workdir, raw, lookup) {
        Err(e) => Err(e),
        Ok((root, file)) => if under(file, root) || under_any(file, extra_roots) || lists_path(
            approved,
            file,
        ) {
            Ok(file)
        } else {
            Err(escape_text(raw))
        },
    }
}

/// How a path for a read lies to the roots.
pub open spec fn read_class(
    workdir: Seq<char>,
    raw: Seq<char>,
    extra_roots: Seq<String>,
    lookup: PathLookup,
) -> Result<ClassView, Seq<char>> {
    match existing(workdir, raw, lookup) {
        Err(e) => Err(e),
        Ok((root, file)) => if under(file, root) || under_any(file, extra_roots) {
            Ok(ClassView::Allowed(file))
        } else {
            Ok(ClassView::Outside(file))
        },
    }
}

/// How a path for a write lies to the working directory.
pub open spec fn write_class(workdir: Seq<char>, raw: Seq<char>, lookup: PathLookup) -> Result<
    ClassView,
    Seq<char>,
> {
    match located(workdir, raw, lookup) {
        Err(e) => Err(e),
        Ok(place) => if under(place.parent, place.workdir) {
            Ok(ClassView::Allowed(place.resolved))
        } else {
            Ok(ClassView::Outside(place.resolved))
        },
    }
}

// ---------------------------------------------------------------------------
// Laws
// ---------------------------------------------------------------------------

/// The sandbox: without approvals, a path for a write lies under the working
/// directory.
pub proof fn law_writes_stay_in_the_workdir(workdir: Seq<char>, raw: Seq<char>, lookup: PathLookup)
    ensures
        write_path(workdir, raw, Seq::empty(), lookup) matches Ok(path) ==> (
        lookup.workdir matches Ok(root) && under(path, root@)),
{
    if let Ok(place) = located(workdir, raw, lookup) {
        let w = lookup.workdir->Ok_0@;
        let name = file_name_of(joined(w, raw))->0;
        crate::paths::lemma_file_name_is_plain(joined(w, raw));
        if under(place.parent, place.workdir) {
            crate::paths::lemma_join_stays_under(place.parent, place.workdir, name);
        }
    }
}

/// The sandbox: without approvals, a path for a read lies under the working
/// directory or one of the extra roots.
pub proof fn law_reads_stay_in_the_roots(
    workdir: Seq<char>,
    raw: Seq<char>,
    extra_roots: Seq<String>,
    lookup: PathLookup,
)
    ensures
        read_path(workdir, raw, extra_roots, Seq::empty(), lookup) matches Ok(path) ==> (
        lookup.workdir matches Ok(root) && (under(path, root@) || under_any(path, extra_roots))),
{
}

/// Classifying and resolving a write agree: an inside path resolves without
/// approval, an outside one exactly when it is approved.
pub proof fn law_write_class_decides(
    workdir: Seq<char>,
    raw: Seq<char>,
    approved: Seq<String>,
    lookup: PathLookup,
)
    ensures
        match write_class(workdir, raw, lookup) {
            Ok(ClassView::Allowed(path)) => write_path(workdir, raw, approved, lookup) == Ok::<
                Seq<char>,
                Seq<char>,
            >(path),
            Ok(ClassView::Outside(path)) => write_path(workdir, raw, approved, lookup) == (
            if lists_path(approved, path) {
                Ok::<Seq<char>, Seq<char>>(path)
            } else {
                Err(escape_text(raw))
            }),
            Err(e) => write_path(workdir, raw, approved, lookup) == Err::<Seq<char>, Seq<char>>(e),
        },
{
}

/// Classifying and resolving a read agree: an inside path resolves without
/// approval, an outside one exactly when it is approved.
pub proof fn law_read_class_decides(
    workdir: Seq<char>,
    raw: Seq<char>,
    extra_roots: Seq<String>,
    approved: Seq<String>,
    lookup: PathLookup,
)
    ensures
        match read_class(workdir, raw, extra_roots, lookup) {
            Ok(ClassView::Allowed(path)) => read_path(workdir, raw, extra_roots, approved, lookup)
                == Ok::<Seq<char>, Seq<char>>(path),
            Ok(ClassView::Outside(path)) => read_path(workdir, raw, extra_roots, approved, lookup)
                == (if lists_path(approved, path) {
                Ok::<Seq<char>, Seq<char>>(path)
            } else {
                Err(escape_text(raw))
            }),
            Err(e) => read_path(workdir, raw, extra_roots, approved, lookup) == Err::<
                Seq<char>,
                Seq<char>,
            >(e),
        },
{
}

/// An approval is for one path: approving a path opens exactly the paths that
/// name it.
pub proof fn law_approval_opens_one_path(path: String, other: Seq<char>)
    ensures
        lists_path(seq![path], other) <==> crate::paths::same_path(path@, other),
{
    if crate::paths::same_path(path@, other) {
        assert(crate::paths::same_path(seq![path][0]@, other));
    }
}

// ---------------------------------------------------------------------------
// Resolving paths
// ---------------------------------------------------------------------------

/// The directory whose canonical form a raw path needs; `None` where the path
/// has no parent.
pub fn parent_to_resolve(workdir_canon: &str, raw: &str) -> (r: Option<String>)
    ensures
        match r {
            Some(p) => parent_of(joined(workdir_canon@, raw@)) == Some(p@),
            None => parent_of(joined(workdir_canon@, raw@)) is None,
        },
{
    parent(join(workdir_canon, raw).as_str())
}

/// The path whose canonical form a read needs; `None` where the path has no
/// file name.
pub fn file_to_resolve(workdir_canon: &str, parent_canon: &str, raw: &str) -> (r: Option<String>)
    ensures
        match r {
            Some(f) => file_name_of(joined(workdir_canon@, raw@)) matches Some(name) && f@
                == joined(parent_canon@, name),
            None => file_name_of(joined(workdir_canon@, raw@)) is None,
        },
{
    match file_name(join(workdir_canon, raw).as_str()) {
        Some(name) => Some(join(parent_canon, name.as_str())),
        None => None,
    }
}

struct Place {
    workdir: String,
    parent: String,
    resolved: String,
}

fn locate(workdir: &str, raw: &str, lookup: &PathLookup) -> (r: Result<Place, String>)
    ensures
        match r {
            Ok(p) => located(workdir@, raw@, *lookup) == Ok::<PlaceView, Seq<char>>(
                PlaceView {
                    workdir: p.workdir@,
                    parent: p.parent@,
                    resolved: p.resolved@,
                },
            ),
            Err(e) => located(workdir@, raw@, *lookup) == Err::<PlaceView, Seq<char>>(e@),
        },
{
    let root = match &lookup.workdir {
        Ok(w) => w.clone(),
        Err(e) => {
            return Err(
                cat5("working directory does not exist: ", workdir, " (", e.as_str(), ")"),
            );
        },
    };
    if is_blank(raw) {
        return Err("path must not be empty".to_owned());
    }
    let asked = match parent_to_resolve(root.as_str(), raw) {
        Some(p) => p,
        None => {
            return Err(cat2("path has no parent: ", raw));
        },
    };
    let parent = match &lookup.parent {
        Ok(p) => p.clone(),
        Err(e) => {
            return Err(
                cat5("parent directory does not exist: ", asked.as_str(), " (", e.as_str(), ")"),
            );
        },
    };
    match file_to_resolve(root.as_str(), parent.as_str(), raw) {
        Some(resolved) => Ok(Place { workdir: root, parent, resolved }),
        None => Err(cat2("path has no file name: ", raw)),
    }
}

fn locate_existing(workdir: &str, raw: &str, lookup: &PathLookup) -> (r: Result<
    (String, String),
    String,
>)
    ensures
        match r {
            Ok((root, file)) => existing(workdir@, raw@, *lookup) == Ok::<
                (Seq<char>, Seq<char>),
                Seq<char>,
            >((root@, file@)),
            Err(e) => existing(workdir@, raw@, *lookup) == Err::<
                (Seq<char>, Seq<char>),
                Seq<char>,
            >(e@),
        },
{
    let place = match locate(workdir, raw, lookup) {
        Ok(place) => place,
        Err(e) => {
            return Err(e);
        },
    };
    match &lookup.file {
        Ok(file) => Ok((place.workdir, file.clone())),
        Err(e) => Err(cat5("file does not exist: ", raw, " (", e.as_str(), ")")),
    }
}

fn escape(raw: &str) -> (r: String)
    ensures
        r@ == escape_text(raw@),
{
    cat2("path escapes the working directory: ", raw)
}

/// Resolves `raw` for a write: the parent must exist and lie inside the
/// working directory, or the resolved path be one that the user approved.
pub fn resolve_path(
    workdir: &str,
    raw: &str,
    approved: &Vec<String>,
    lookup: &PathLookup,
) -> (r: Result<String, String>)
    ensures
        result_text(r) == write_path(workdir@, raw@, approved@, *lookup),
{
    match locate(workdir, raw, lookup) {
        Ok(place) => if !starts_with(place.parent.as_str(), place.workdir.as_str())
            && !contains_path(approved, place.resolved.as_str()) {
            Err(escape(raw))
        } else {
            Ok(place.resolved)
        },
        Err(e) => Err(e),
    }
}

/// Like `resolve_path`, for a file that must exist and, followed through
/// symlinks, lie inside the working directory or be approved.
pub fn resolve_existing(
    workdir: &str,
    raw: &str,
    approved: &Vec<String>,
    lookup: &PathLookup,
) -> (r: Result<String, String>)
    ensures
        result_text(r) == read_path(workdir@, raw@, Seq::empty(), approved@, *lookup),
{
    let none: Vec<String> = Vec::new();
    assert(none@ =~= Seq::<String>::empty());
    resolve_readable(workdir, raw, &none, approved, lookup)
}

/// Resolves `raw` for a read: the file must exist and, followed through
/// symlinks, lie inside the working directory or one of `extra_roots`, or be
/// approved.
pub fn resolve_readable(
    workdir: &str,
    raw: &str,
    extra_roots: &Vec<String>,
    approved: &Vec<String>,
    lookup: &PathLookup,
) -> (r: Result<String, String>)
    ensures
        result_text(r) == read_path(workdir@, raw@, extra_roots@, approved@, *lookup),
{
    match locate_existing(workdir, raw, lookup) {
        Ok((root, file)) => {
            let inside = starts_with(file.as_str(), root.as_str());
            let extra = starts_with_any(file.as_str(), extra_roots);
            let granted = contains_path(approved, file.as_str());
            if !inside && !extra && !granted {
                Err(escape(raw))
            } else {
                Ok(file)
            }
        },
        Err(e) => Err(e),
    }
}

/// Classifies `raw` for a read. An escape is no error here: the caller
/// decides whether to ask the user.
pub fn classify_read(
    workdir: &str,
    raw: &str,
    extra_roots: &Vec<String>,
    lookup: &PathLookup,
) -> (r: Result<PathClass, String>)
    ensures
        class_text(r) == read_class(workdir@, raw@, extra_roots@, *lookup),
{
    match locate_existing(workdir, raw, lookup) {
        Ok((root, file)) => {
            if starts_with(file.as_str(), root.as_str()) || starts_with_any(
                file.as_str(),
                extra_roots,
            ) {
                Ok(PathClass::Allowed(file))
            } else {
                Ok(PathClass::Outside(file))
            }
        },
        Err(e) => Err(e),
    }
}

/// Classifies `raw` for a write; the file itself need not exist. An escape is
/// no error here: the caller decides whether to ask the user.
pub fn classify_write(workdir: &str, raw: &str, lookup: &PathLookup) -> (r: Result<
    PathClass,
    String,
>)
    ensures
        class_text(r) == write_class(workdir@, raw@, *lookup),
{
    match locate(workdir, raw, lookup) {
        Ok(place) => if starts_with(place.parent.as_str(), place.workdir.as_str()) {
            Ok(PathClass::Allowed(place.resolved))
        } else {
            Ok(PathClass::Outside(place.resolved))
        },
        Err(e) => Err(e),
    }
}

// ---------------------------------------------------------------------------
// File operations
// ---------------------------------------------------------------------------

/// What stands at a path, not followed through symlinks.
#[derive(Debug, Clone, Copy, PartialEq, Eq, Structural)]
pub enum FileKind {
    Regular,
    Symlink,
    Other,
}

/// A change to the file system that a tool call comes to.
#[derive(Debug, Clone, PartialEq, Eq)]
pub enum FileAction {
    /// Write `content` to `path`.
    Write { path: String, content: String },
    /// Remove the file at `path`.
    Remove { path: String },
}

/// The texts of a `FileAction`.
#[verifier::ext_equal]
pub enum ActionView {
    Write { path: Seq<char>, content: Seq<char> },
    Remove { path: Seq<char> },
}

impl View for FileAction {
    type V = ActionView;

    open spec fn view(&self) -> ActionView {
        match self {
            FileAction::Write { path, content } => ActionView::Write {
                path: path@,
                content: content@,
            },
            FileAction::Remove { path } => ActionView::Remove { path: path@ },
        }
    }
}

/// The texts of a planned action.
pub open spec fn action_text(r: Result<FileAction, String>) -> Result<ActionView, Seq<char>> {
    match r {
        Ok(a) => Ok(a@),
        Err(e) => Err(e@),
    }
}

/// What `read_file` returns, given what reading the file gave.
pub open spec fn read_outcome(
    path: Result<Seq<char>, Seq<char>>,
    raw: Seq<char>,
    content: Result<Seq<char>, Seq<char>>,
) -> Result<Seq<char>, Seq<char>> {
    match path {
        Err(e) => Err(e),
        Ok(_) => match content {
            Err(e) => Err("failed to read "@ + raw + ": "@ + e),
            Ok(text) => Ok(capped(text)),
        },
    }
}

/// What `create_file` comes to, given whether something stands at the path.
pub open spec fn create_outcome(
    path: Result<Seq<char>, Seq<char>>,
    raw: Seq<char>,
    content: Seq<char>,
    exists_already: bool,
) -> Result<ActionView, Seq<char>> {
    match path {
        Err(e) => Err(e),
        Ok(p) => if exists_already {
            Err("file already exists: "@ + raw)
        } else {
            Ok(ActionView::Write { path: p, content })
        },
    }
}

/// What `remove_file` comes to, given what stands at the path.
pub open spec fn remove_outcome(
    path: Result<Seq<char>, Seq<char>>,
    raw: Seq<char>,
    found: Result<FileKind, String>,
) -> Result<ActionView, Seq<char>> {
    match path {
        Err(e) => Err(e),
        Ok(p) => match found {
            Err(e) => Err("file does not exist: "@ + raw + " ("@ + e@ + ")"@),
            Ok(FileKind::Symlink) => Err("refusing to remove symlink: "@ + raw),
            Ok(FileKind::Other) => Err("not a regular file: "@ + raw),
            Ok(FileKind::Regular) => Ok(ActionView::Remove { path: p }),
        },
    }
}

/// What replacing `old` by `new` in `content` gives: every occurrence with
/// `replace_all`, otherwise the only one.
pub open spec fn edited(
    raw: Seq<char>,
    content: Seq<char>,
    old_string: Seq<char>,
    new_string: Seq<char>,
    replace_all: bool,
) -> Result<Seq<char>, Seq<char>> {
    let n = match_count(content, old_string, 0);
    if replace_all {
        if n == 0 {
            Err("old_string not found in "@ + raw)
        } else {
            Ok(replaced(content, old_string, new_string))
        }
    } else if n != 1 {
        Err(
            "old_string must match exactly once in "@ + raw + ", found "@ + decimal(n)
                + " matches"@,
        )
    } else {
        Ok(replaced_once(content, old_string, new_string))
    }
}

/// What `edit_file` comes to, given what reading the file gave.
pub open spec fn edit_outcome(
    path: Result<Seq<char>, Seq<char>>,
    raw: Seq<char>,
    content: Result<Seq<char>, Seq<char>>,
    old_string: Seq<char>,
    new_string: Seq<char>,
    replace_all: bool,
) -> Result<ActionView, Seq<char>> {
    if old_string.len() == 0 {
        Err("old_string must not be empty"@)
    } else {
        match path {
            Err(e) => Err(e),
            Ok(p) => match content {
                Err(e) => Err("failed to read "@ + raw + ": "@ + e),
                Ok(text) => match edited(raw, text, old_string, new_string, replace_all) {
                    Err(e) => Err(e),
                    Ok(updated) => Ok(ActionView::Write { path: p, content: updated }),
                },
            },
        }
    }
}

/// What the tool call returns once the file system has done its part: the
/// content written, or a confirmation of a removal.
pub open spec fn action_outcome(
    action: ActionView,
    raw: Seq<char>,
    done: Result<(), String>,
) -> Result<Seq<char>, Seq<char>> {
    match (action, done) {
        (ActionView::Write { content, .. }, Ok(())) => Ok(content),
        (ActionView::Write { .. }, Err(e)) => Err("failed to write "@ + raw + ": "@ + e@),
        (ActionView::Remove { .. }, Ok(())) => Ok("removed "@ + raw),
        (ActionView::Remove { .. }, Err(e)) => Err("failed to remove "@ + raw + ": "@ + e@),
    }
}

/// An edit writes to the resolved path and nowhere else.
pub proof fn law_edit_writes_the_resolved_path(
    path: Result<Seq<char>, Seq<char>>,
    raw: Seq<char>,
    content: Result<Seq<char>, Seq<char>>,
    old_string: Seq<char>,
    new_string: Seq<char>,
    replace_all: bool,
)
    ensures
        edit_outcome(path, raw, content, old_string, new_string, replace_all) matches Ok(action)
            ==> (action matches ActionView::Write { path: p, .. } && path == Ok::<
            Seq<char>,
            Seq<char>,
        >(p)),
{
}

/// Where the match is unique, `replace_all` makes no difference.
pub proof fn law_replace_all_agrees_on_a_unique_match(
    raw: Seq<char>,
    content: Seq<char>,
    old_string: Seq<char>,
    new_string: Seq<char>,
)
    requires
        old_string.len() > 0,
        match_count(content, old_string, 0) == 1,
    ensures
        edited(raw, content, old_string, new_string, true) == edited(
            raw,
            content,
            old_string,
            new_string,
            false,
        ),
{
    crate::text::lemma_replace_single_match(content, old_string, new_string);
}

/// Replacing a text by itself leaves the file as it is.
pub proof fn law_edit_by_itself_changes_nothing(
    raw: Seq<char>,
    content: Seq<char>,
    old_string: Seq<char>,
)
    requires
        old_string.len() > 0,
        match_count(content, old_string, 0) > 0,
    ensures
        edited(raw, content, old_string, old_string, true) == Ok::<Seq<char>, Seq<char>>(content),
{
    crate::text::lemma_replace_by_itself(content, old_string, 0);
    assert(content.skip(0) =~= content);
}

/// Reads a file: `content` is what reading the resolved path gave. The output
/// is capped with an explicit note.
pub fn read_file(
    workdir: &str,
    raw: &str,
    extra_roots: &Vec<String>,
    approved: &Vec<String>,
    lookup: &PathLookup,
    content: &Result<String, String>,
) -> (r: Result<String, String>)
    ensures
        result_text(r) == read_outcome(
            read_path(workdir@, raw@, extra_roots@, approved@, *lookup),
            raw@,
            result_text(*content),
        ),
{
    match resolve_readable(workdir, raw, extra_roots, approved, lookup) {
        Ok(_) => match content {
            Ok(text) => Ok(cap_output(text.as_str())),
            Err(e) => Err(cat4("failed to read ", raw, ": ", e.as_str())),
        },
        Err(e) => Err(e),
    }
}

/// Creates a file: `exists_already` says whether something stands at the
/// resolved path.
pub fn create_file(
    workdir: &str,
    raw: &str,
    content: &str,
    approved: &Vec<String>,
    lookup: &PathLookup,
    exists_already: bool,
) -> (r: Result<FileAction, String>)
    ensures
        action_text(r) == create_outcome(
            write_path(workdir@, raw@, approved@, *lookup),
            raw@,
            content@,
            exists_already,
        ),
{
    match resolve_path(workdir, raw, approved, lookup) {
        Ok(path) => if exists_already {
            Err(cat2("file already exists: ", raw))
        } else {
            Ok(FileAction::Write { path, content: content.to_owned() })
        },
        Err(e) => Err(e),
    }
}

/// Removes a regular file: `found` says what stands at the resolved path.
/// Directories and symlinks are refused.
pub fn remove_file(
    workdir: &str,
    raw: &str,
    approved: &Vec<String>,
    lookup: &PathLookup,
    found: &Result<FileKind, String>,
) -> (r: Result<FileAction, String>)
    ensures
        action_text(r) == remove_outcome(
            write_path(workdir@, raw@, approved@, *lookup),
            raw@,
            *found,
        ),
{
    match resolve_path(workdir, raw, approved, lookup) {
        Ok(path) => match found {
            Err(e) => Err(cat5("file does not exist: ", raw, " (", e.as_str(), ")")),
            Ok(FileKind::Symlink) => Err(cat2("refusing to remove symlink: ", raw)),
            Ok(FileKind::Other) => Err(cat2("not a regular file: ", raw)),
            Ok(FileKind::Regular) => Ok(FileAction::Remove { path }),
        },
        Err(e) => Err(e),
    }
}

/// Replaces `old_string` by `new_string` in a text. Without `replace_all` the
/// match must be unique.
pub fn edit_text(
    raw: &str,
    content: &str,
    old_string: &str,
    new_string: &str,
    replace_all: bool,
) -> (r: Result<String, String>)
    requires
        old_string@.len() > 0,
    ensures
        result_text(r) == edited(raw@, content@, old_string@, new_string@, replace_all),
{
    let text = chars_of(content);
    let pat = chars_of(old_string);
    let n: usize = count_matches(&text, &pat);
    if replace_all {
        if n == 0 {
            return Err(cat2("old_string not found in ", raw));
        }
        Ok(replace(&text, &pat, new_string))
    } else {
        if n != 1 {
            return Err(
                cat5(
                    "old_string must match exactly once in ",
                    raw,
                    ", found ",
                    decimal_text(n as u64).as_str(),
                    " matches",
                ),
            );
        }
        Ok(replace_once(&text, &pat, new_string))
    }
}

/// Edits a file: `content` is what reading the resolved path gave.
pub fn edit_file(
    workdir: &str,
    raw: &str,
    old_string: &str,
    new_string: &str,
    replace_all: bool,
    approved: &Vec<String>,
    lookup: &PathLookup,
    content: &Result<String, String>,
) -> (r: Result<FileAction, String>)
    ensures
        action_text(r) == edit_outcome(
            read_path(workdir@, raw@, Seq::empty(), approved@, *lookup),
            raw@,
            result_text(*content),
            old_string@,
            new_string@,
            replace_all,
        ),
{
    if old_string.is_empty() {
        return Err("old_string must not be empty".to_owned());
    }
    match resolve_existing(workdir, raw, approved, lookup) {
        Ok(path) => match content {
            Ok(text) => match edit_text(raw, text.as_str(), old_string, new_string, replace_all) {
                Ok(updated) => Ok(FileAction::Write { path, content: updated }),
                Err(e) => Err(e),
            },
            Err(e) => Err(cat4("failed to read ", raw, ": ", e.as_str())),
        },
        Err(e) => Err(e),
    }
}

/// What the tool call returns after the file system did (or refused) the
/// action.
pub fn finish_action(action: &FileAction, raw: &str, done: &Result<(), String>) -> (r: Result<
    String,
    String,
>)
    ensures
        result_text(r) == action_outcome(action@, raw@, *done),
{
    match (action, done) {
        (FileAction::Write { content, .. }, Ok(())) => Ok(content.clone()),
        (FileAction::Write { .. }, Err(e)) => Err(cat4("failed to write ", raw, ": ", e.as_str())),
        (FileAction::Remove { .. }, Ok(())) => Ok(cat2("removed ", raw)),
        (FileAction::Remove { .. }, Err(e)) => Err(
            cat4("failed to remove ", raw, ": ", e.as_str()),
        ),
    }
}

} // verus!
