//! Running a file tool once its path is decided on.
//!
//! In build mode a write is resolved against the working directory, with
//! exactly the decided path approved. In the other modes it is resolved against
//! the scratch directory, with nothing approved: the codebase stays as it is.
use vstd::prelude::*;
use vstd::string::*;

use crate::journal::JournalEvent;
use crate::paths::{same_path, under};
use crate::session::Mode;
use crate::tools::execute::{file_call, ToolArgs};
use crate::tools::fs::{
    create_file, create_outcome, edit_file, edit_outcome, law_approval_opens_one_path,
    law_reads_stay_in_the_roots, law_write_class_decides, law_writes_stay_in_the_workdir, located,
    read_file, read_outcome, read_path, remove_file, remove_outcome, resolve_existing,
    resolve_path, resolve_readable, result_text, write_path, ActionView, FileAction, FileKind,
    PathLookup,
};
use crate::tools::permission::{read_decision, write_decision, PolicyView};
use crate::tools::ToolContext;

verus! {

/// What to ask the file system before the call runs.
#[derive(Debug, Clone, PartialEq, Eq)]
pub enum FileLook {
    /// The text of the file at this path.
    Content(String),
    /// What stands at this path, not followed through symlinks.
    Kind(String),
}

/// The texts of a `FileLook`.
#[verifier::ext_equal]
pub enum LookView {
    Content(Seq<char>),
    Kind(Seq<char>),
}

impl View for FileLook {
    type V = LookView;

    open spec fn view(&self) -> LookView {
        match self {
            FileLook::Content(path) => LookView::Content(path@),
            FileLook::Kind(path) => LookView::Kind(path@),
        }
    }
}

/// What the file system answered; what was not asked does not matter.
#[derive(Debug, PartialEq, Eq)]
pub struct FileFacts {
    pub content: Result<String, String>,
    pub found: Result<FileKind, String>,
}

/// What a file tool comes to: its output, or a change to make.
#[derive(Debug, Clone, PartialEq, Eq)]
pub enum FileStep {
    Output(String),
    Act(FileAction),
}

/// The texts of a `FileStep`.
#[verifier::ext_equal]
pub enum StepView {
    Output(Seq<char>),
    Act(ActionView),
}

impl View for FileStep {
    type V = StepView;

    open spec fn view(&self) -> StepView {
        match self {
            FileStep::Output(text) => StepView::Output(text@),
            FileStep::Act(action) => StepView::Act(action@),
        }
    }
}

/// The texts of what a file tool comes to.
pub open spec fn step_text(r: Result<FileStep, String>) -> Result<StepView, Seq<char>> {
    match r {
        Ok(s) => Ok(s@),
        Err(e) => Err(e@),
    }
}

// ---------------------------------------------------------------------------
// Where a call works
// ---------------------------------------------------------------------------

/// The directory that writes are resolved against.
pub open spec fn write_root(ctx: ToolContext) -> Seq<char> {
    if ctx.session.mode == Mode::Build {
        ctx.workdir@
    } else {
        ctx.scratch@
    }
}

/// What the file system said about the path of a write.
pub open spec fn write_lookup(
    ctx: ToolContext,
    lookup: PathLookup,
    scratch_lookup: PathLookup,
) -> PathLookup {
    if ctx.session.mode == Mode::Build {
        lookup
    } else {
        scratch_lookup
    }
}

/// The paths outside that root which a write may reach.
pub open spec fn write_approvals(ctx: ToolContext, approved: String) -> Seq<String> {
    if ctx.session.mode == Mode::Build {
        seq![approved]
    } else {
        Seq::empty()
    }
}

/// The file that is created or removed.
pub open spec fn write_target(
    ctx: ToolContext,
    raw: Seq<char>,
    approved: String,
    lookup: PathLookup,
    scratch_lookup: PathLookup,
) -> Result<Seq<char>, Seq<char>> {
    write_path(
        write_root(ctx),
        raw,
        write_approvals(ctx, approved),
        write_lookup(ctx, lookup, scratch_lookup),
    )
}

/// The file that is edited.
pub open spec fn edit_target(
    ctx: ToolContext,
    raw: Seq<char>,
    approved: String,
    lookup: PathLookup,
    scratch_lookup: PathLookup,
) -> Result<Seq<char>, Seq<char>> {
    read_path(
        write_root(ctx),
        raw,
        Seq::empty(),
        write_approvals(ctx, approved),
        write_lookup(ctx, lookup, scratch_lookup),
    )
}

/// The file that is read.
pub open spec fn read_target(
    ctx: ToolContext,
    raw: Seq<char>,
    approved: String,
    roots: Seq<String>,
    lookup: PathLookup,
) -> Result<Seq<char>, Seq<char>> {
    read_path(ctx.workdir@, raw, roots, seq![approved], lookup)
}

/// What has to be asked before a call runs.
pub open spec fn looked_at(
    ctx: ToolContext,
    args: ToolArgs,
    approved: String,
    roots: Seq<String>,
    lookup: PathLookup,
    scratch_lookup: PathLookup,
) -> Option<LookView> {
    match args {
        ToolArgs::ReadFile { path } => match read_target(ctx, path@, approved, roots, lookup) {
            Ok(p) => Some(LookView::Content(p)),
            Err(_) => None,
        },
        ToolArgs::EditFile { path, .. } => match edit_target(
            ctx,
            path@,
            approved,
            lookup,
            scratch_lookup,
        ) {
            Ok(p) => Some(LookView::Content(p)),
            Err(_) => None,
        },
        ToolArgs::CreateFile { path, .. } => match write_target(
            ctx,
            path@,
            approved,
            lookup,
            scratch_lookup,
        ) {
            Ok(p) => Some(LookView::Kind(p)),
            Err(_) => None,
        },
        ToolArgs::RemoveFile { path } => match write_target(
            ctx,
            path@,
            approved,
            lookup,
            scratch_lookup,
        ) {
            Ok(p) => Some(LookView::Kind(p)),
            Err(_) => None,
        },
        _ => None,
    }
}

/// A planned change, as what a file tool comes to.
pub open spec fn acting(r: Result<ActionView, Seq<char>>) -> Result<StepView, Seq<char>> {
    match r {
        Ok(action) => Ok(StepView::Act(action)),
        Err(e) => Err(e),
    }
}

/// What a file tool comes to.
pub open spec fn file_outcome(
    ctx: ToolContext,
    args: ToolArgs,
    approved: String,
    roots: Seq<String>,
    lookup: PathLookup,
    scratch_lookup: PathLookup,
    facts: FileFacts,
) -> Result<StepView, Seq<char>>
    recommends
        file_call(args) is Some,
{
    match args {
        ToolArgs::ReadFile { path } => match read_outcome(
            read_target(ctx, path@, approved, roots, lookup),
            path@,
            result_text(facts.content),
        ) {
            Ok(text) => Ok(StepView::Output(text)),
            Err(e) => Err(e),
        },
        ToolArgs::EditFile { path, old_string, new_string, replace_all } => acting(
            edit_outcome(
                edit_target(ctx, path@, approved, lookup, scratch_lookup),
                path@,
                result_text(facts.content),
                old_string@,
                new_string@,
                replace_all,
            ),
        ),
        ToolArgs::CreateFile { path, content } => acting(
            create_outcome(
                write_target(ctx, path@, approved, lookup, scratch_lookup),
                path@,
                content@,
                facts.found is Ok,
            ),
        ),
        ToolArgs::RemoveFile { path } => acting(
            remove_outcome(
                write_target(ctx, path@, approved, lookup, scratch_lookup),
                path@,
                facts.found,
            ),
        ),
        _ => Err(Seq::empty()),
    }
}

fn only(approved: &String) -> (r: Vec<String>)
    ensures
        r@ == seq![*approved],
{
    let mut paths: Vec<String> = Vec::new();
    paths.push(approved.clone());
    assert(paths@ =~= seq![*approved]);
    paths
}

fn approvals(ctx: &ToolContext, approved: &String) -> (r: Vec<String>)
    ensures
        r@ == write_approvals(*ctx, *approved),
{
    if ctx.session.mode == Mode::Build {
        only(approved)
    } else {
        let none: Vec<String> = Vec::new();
        assert(none@ =~= Seq::<String>::empty());
        none
    }
}

fn root_of_writes(ctx: &ToolContext) -> (r: &str)
    ensures
        r@ == write_root(*ctx),
{
    if ctx.session.mode == Mode::Build {
        ctx.workdir.as_str()
    } else {
        ctx.scratch.as_str()
    }
}

fn lookup_of_writes<'a>(
    ctx: &ToolContext,
    lookup: &'a PathLookup,
    scratch_lookup: &'a PathLookup,
) -> (r: &'a PathLookup)
    ensures
        *r == write_lookup(*ctx, *lookup, *scratch_lookup),
{
    if ctx.session.mode == Mode::Build {
        lookup
    } else {
        scratch_lookup
    }
}

/// What has to be asked before a call runs; `None` where the path is refused.
/// `approved` is the decided path.
pub fn look_for(
    ctx: &ToolContext,
    args: &ToolArgs,
    approved: &String,
    roots: &Vec<String>,
    lookup: &PathLookup,
    scratch_lookup: &PathLookup,
) -> (r: Option<FileLook>)
    ensures
        match r {
            Some(look) => looked_at(*ctx, *args, *approved, roots@, *lookup, *scratch_lookup)
                == Some(look@),
            None => looked_at(*ctx, *args, *approved, roots@, *lookup, *scratch_lookup) is None,
        },
{
    let at = lookup_of_writes(ctx, lookup, scratch_lookup);
    let granted = approvals(ctx, approved);
    match args {
        ToolArgs::ReadFile { path } => match resolve_readable(
            ctx.workdir.as_str(),
            path.as_str(),
            roots,
            &only(approved),
            lookup,
        ) {
            Ok(p) => Some(FileLook::Content(p)),
            Err(_) => None,
        },
        ToolArgs::EditFile { path, .. } => match resolve_existing(
            root_of_writes(ctx),
            path.as_str(),
            &granted,
            at,
        ) {
            Ok(p) => Some(FileLook::Content(p)),
            Err(_) => None,
        },
        ToolArgs::CreateFile { path, .. } => match resolve_path(
            root_of_writes(ctx),
            path.as_str(),
            &granted,
            at,
        ) {
            Ok(p) => Some(FileLook::Kind(p)),
            Err(_) => None,
        },
        ToolArgs::RemoveFile { path } => match resolve_path(
            root_of_writes(ctx),
            path.as_str(),
            &granted,
            at,
        ) {
            Ok(p) => Some(FileLook::Kind(p)),
            Err(_) => None,
        },
        _ => None,
    }
}

fn act(r: Result<FileAction, String>) -> (s: Result<FileStep, String>)
    ensures
        step_text(s) == acting(crate::tools::fs::action_text(r)),
{
    match r {
        Ok(action) => Ok(FileStep::Act(action)),
        Err(e) => Err(e),
    }
}

/// Runs a file tool: `approved` is the decided path, and `facts` answers what
/// `look_for` asked.
pub fn run_file(
    ctx: &ToolContext,
    args: &ToolArgs,
    approved: &String,
    roots: &Vec<String>,
    lookup: &PathLookup,
    scratch_lookup: &PathLookup,
    facts: &FileFacts,
) -> (r: Result<FileStep, String>)
    requires
        file_call(*args) is Some,
    ensures
        step_text(r) == file_outcome(
            *ctx,
            *args,
            *approved,
            roots@,
            *lookup,
            *scratch_lookup,
            *facts,
        ),
{
    let at = lookup_of_writes(ctx, lookup, scratch_lookup);
    let granted = approvals(ctx, approved);
    match args {
        ToolArgs::ReadFile { path } => match read_file(
            ctx.workdir.as_str(),
            path.as_str(),
            roots,
            &only(approved),
            lookup,
            &facts.content,
        ) {
            Ok(text) => Ok(FileStep::Output(text)),
            Err(e) => Err(e),
        },
        ToolArgs::EditFile { path, old_string, new_string, replace_all } => act(
            edit_file(
                root_of_writes(ctx),
                path.as_str(),
                old_string.as_str(),
                new_string.as_str(),
                *replace_all,
                &granted,
                at,
                &facts.content,
            ),
        ),
        ToolArgs::CreateFile { path, content } => act(
            create_file(
                root_of_writes(ctx),
                path.as_str(),
                content.as_str(),
                &granted,
                at,
                facts.found.is_ok(),
            ),
        ),
        ToolArgs::RemoveFile { path } => act(
            remove_file(root_of_writes(ctx), path.as_str(), &granted, at, &facts.found),
        ),
        _ => Err(String::new()),
    }
}

// ---------------------------------------------------------------------------
// Laws
// ---------------------------------------------------------------------------

/// The path that a change touches.
pub open spec fn touched(action: ActionView) -> Seq<char> {
    match action {
        ActionView::Write { path, .. } => path,
        ActionView::Remove { path } => path,
    }
}

/// Outside build mode, a file that is created, edited or removed lies in the
/// scratch directory, symlinks followed: the codebase stays as it is.
pub proof fn law_other_modes_leave_the_codebase(
    ctx: ToolContext,
    args: ToolArgs,
    approved: String,
    roots: Seq<String>,
    lookup: PathLookup,
    scratch_lookup: PathLookup,
    facts: FileFacts,
)
    requires
        ctx.session.mode != Mode::Build,
    ensures
        file_outcome(ctx, args, approved, roots, lookup, scratch_lookup, facts) matches Ok(
            StepView::Act(action),
        ) ==> (scratch_lookup.workdir matches Ok(root) && under(touched(action), root@)),
{
    if let Some((_, raw)) = file_call(args) {
        law_writes_stay_in_the_workdir(ctx.scratch@, raw, scratch_lookup);
        law_reads_stay_in_the_roots(ctx.scratch@, raw, Seq::empty(), scratch_lookup);
    }
}

/// In build mode, a file that is created, edited or removed lies in the working
/// directory or is exactly the one that was decided on.
pub proof fn law_build_mode_writes_where_it_may(
    ctx: ToolContext,
    args: ToolArgs,
    approved: String,
    roots: Seq<String>,
    lookup: PathLookup,
    scratch_lookup: PathLookup,
    facts: FileFacts,
)
    requires
        ctx.session.mode == Mode::Build,
    ensures
        file_outcome(ctx, args, approved, roots, lookup, scratch_lookup, facts) matches Ok(
            StepView::Act(action),
        ) ==> (lookup.workdir matches Ok(root) && (under(touched(action), root@) || same_path(
            approved@,
            touched(action),
        ))),
{
    if let Some((_, raw)) = file_call(args) {
        law_writes_stay_in_the_workdir(ctx.workdir@, raw, lookup);
        law_reads_stay_in_the_roots(ctx.workdir@, raw, Seq::empty(), lookup);
        if let Ok(path) = write_path(ctx.workdir@, raw, seq![approved], lookup) {
            law_approval_opens_one_path(approved, path);
        }
        if let Ok(path) = read_path(ctx.workdir@, raw, Seq::empty(), seq![approved], lookup) {
            law_approval_opens_one_path(approved, path);
        }
    }
}

/// A read that runs reads exactly the path that was decided on.
pub proof fn law_reads_touch_the_decided_path(
    ctx: ToolContext,
    raw: Seq<char>,
    roots: Seq<String>,
    lookup: PathLookup,
    events: Result<Vec<JournalEvent>, String>,
    approved: String,
)
    requires
        read_decision(ctx, raw, roots, lookup, events) == Ok::<PolicyView, Seq<char>>(
            PolicyView::Run(approved@),
        ),
    ensures
        read_target(ctx, raw, approved, roots, lookup) == Ok::<Seq<char>, Seq<char>>(approved@),
{
    assert(same_path(seq![approved][0]@, approved@));
}

/// A file that is created or removed is the one that was decided on.
pub proof fn law_writes_touch_the_decided_path(
    ctx: ToolContext,
    tool: Seq<char>,
    raw: Seq<char>,
    lookup: PathLookup,
    scratch_lookup: PathLookup,
    events: Result<Vec<JournalEvent>, String>,
    approved: String,
)
    requires
        write_decision(ctx, tool, raw, lookup, scratch_lookup, events) == Ok::<
            PolicyView,
            Seq<char>,
        >(PolicyView::Run(approved@)),
    ensures
        write_target(ctx, raw, approved, lookup, scratch_lookup) matches Ok(path) ==> same_path(
            approved@,
            path,
        ),
{
    if let Ok(place) = located(ctx.workdir@, raw, lookup) {
        law_approval_opens_one_path(approved, place.resolved);
    }
    law_write_class_decides(ctx.scratch@, raw, Seq::empty(), scratch_lookup);
}

} // verus!
