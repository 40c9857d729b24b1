//! Where the file tools may go, and what each of them comes to there.
use vstd::prelude::*;
use vstd::string::*;

use crate::output::capped;
use crate::paths::{file_name_of, joined, same_path, under};
use crate::session::Mode;
use crate::tools::execute::ToolArgs;
use crate::tools::file_run::{file_outcome, looked_at, FileFacts, LookView, StepView};
use crate::tools::fs::{
    read_class, read_path, write_class, write_path, ActionView, ClassView, FileKind, PathLookup,
};
use crate::tools::permission_laws::found;
use crate::tools::ToolContext;

verus! {

/// A file may be read where it lies under the working directory, under one of the
/// extra roots, or was approved by itself; no other one is.
pub proof fn law_reads_go_where_they_may(
    workdir: Seq<char>,
    raw: Seq<char>,
    roots: Seq<String>,
    approved: Seq<String>,
    lookup: PathLookup,
)
    requires
        found(raw, lookup),
        lookup.file is Ok,
    ensures
        ({
            let file = lookup.file->Ok_0@;
            let inside = under(file, lookup.workdir->Ok_0@) || exists|i: int|
                0 <= i < roots.len() && under(file, #[trigger] roots[i]@);
            let allowed = exists|i: int|
                0 <= i < approved.len() && same_path(#[trigger] approved[i]@, file);
            &&& inside || allowed ==> read_path(workdir, raw, roots, approved, lookup) == Ok::<
                Seq<char>,
                Seq<char>,
            >(file)
            &&& !inside && !allowed ==> read_path(workdir, raw, roots, approved, lookup) == Err::<
                Seq<char>,
                Seq<char>,
            >("path escapes the working directory: "@ + raw)
            &&& inside ==> read_class(workdir, raw, roots, lookup) == Ok::<ClassView, Seq<char>>(
                ClassView::Allowed(file),
            )
            &&& !inside ==> read_class(workdir, raw, roots, lookup) == Ok::<ClassView, Seq<char>>(
                ClassView::Outside(file),
            )
        }),
{
}

/// A file may be written where its directory lies under the working directory,
/// or where it was approved by itself; no other one is. It need not exist.
pub proof fn law_writes_go_where_they_may(
    workdir: Seq<char>,
    raw: Seq<char>,
    approved: Seq<String>,
    lookup: PathLookup,
)
    requires
        found(raw, lookup),
    ensures
        ({
            let name = file_name_of(joined(lookup.workdir->Ok_0@, raw))->0;
            let path = joined(lookup.parent->Ok_0@, name);
            let inside = under(lookup.parent->Ok_0@, lookup.workdir->Ok_0@);
            let allowed = exists|i: int|
                0 <= i < approved.len() && same_path(#[trigger] approved[i]@, path);
            &&& inside || allowed ==> write_path(workdir, raw, approved, lookup) == Ok::<
                Seq<char>,
                Seq<char>,
            >(path)
            &&& !inside && !allowed ==> write_path(workdir, raw, approved, lookup) == Err::<
                Seq<char>,
                Seq<char>,
            >("path escapes the working directory: "@ + raw)
            &&& inside ==> write_class(workdir, raw, lookup) == Ok::<ClassView, Seq<char>>(
                ClassView::Allowed(path),
            )
            &&& !inside ==> write_class(workdir, raw, lookup) == Ok::<ClassView, Seq<char>>(
                ClassView::Outside(path),
            )
        }),
{
}

/// A read that may run reads the file that was found, in whatever mode, and gives
/// its text, up to the cap.
pub proof fn law_a_read_gives_the_text(
    ctx: ToolContext,
    path: String,
    approved: String,
    roots: Seq<String>,
    lookup: PathLookup,
    scratch: PathLookup,
    facts: FileFacts,
    at: Seq<char>,
)
    requires
        read_path(ctx.workdir@, path@, roots, seq![approved], lookup) == Ok::<
            Seq<char>,
            Seq<char>,
        >(at),
    ensures
        ({
            let args = ToolArgs::ReadFile { path };
            let step = file_outcome(ctx, args, approved, roots, lookup, scratch, facts);
            &&& looked_at(ctx, args, approved, roots, lookup, scratch) == Some(
                LookView::Content(at),
            )
            &&& facts.content matches Ok(text) ==> step == Ok::<StepView, Seq<char>>(
                StepView::Output(capped(text@)),
            )
            &&& facts.content matches Err(e) ==> step == Err::<StepView, Seq<char>>(
                "failed to read "@ + path@ + ": "@ + e@,
            )
        }),
{
}

/// Where writes of a session go: to the codebase in build mode, where the path
/// may also be one that was approved, and to the scratch directory in the other
/// modes, where none may.
pub open spec fn write_goes_to(
    ctx: ToolContext,
    raw: Seq<char>,
    approved: String,
    lookup: PathLookup,
    scratch: PathLookup,
) -> Result<Seq<char>, Seq<char>> {
    if ctx.session.mode == Mode::Build {
        write_path(ctx.workdir@, raw, seq![approved], lookup)
    } else {
        write_path(ctx.scratch@, raw, Seq::empty(), scratch)
    }
}

/// Where edits of a session go, in the same way.
pub open spec fn edit_goes_to(
    ctx: ToolContext,
    raw: Seq<char>,
    approved: String,
    lookup: PathLookup,
    scratch: PathLookup,
) -> Result<Seq<char>, Seq<char>> {
    if ctx.session.mode == Mode::Build {
        read_path(ctx.workdir@, raw, Seq::empty(), seq![approved], lookup)
    } else {
        read_path(ctx.scratch@, raw, Seq::empty(), Seq::empty(), scratch)
    }
}

/// A new file gets the text that the model gave, and nothing that stands there
/// is overwritten.
pub proof fn law_a_creation_writes_the_text(
    ctx: ToolContext,
    path: String,
    content: String,
    approved: String,
    roots: Seq<String>,
    lookup: PathLookup,
    scratch: PathLookup,
    facts: FileFacts,
)
    ensures
        ({
            let args = ToolArgs::CreateFile { path, content };
            let step = file_outcome(ctx, args, approved, roots, lookup, scratch, facts);
            let look = looked_at(ctx, args, approved, roots, lookup, scratch);
            match write_goes_to(ctx, path@, approved, lookup, scratch) {
                Ok(at) => {
                    &&& look == Some(LookView::Kind(at))
                    &&& facts.found is Err ==> step == Ok::<StepView, Seq<char>>(
                        StepView::Act(ActionView::Write { path: at, content: content@ }),
                    )
                    &&& facts.found is Ok ==> step == Err::<StepView, Seq<char>>(
                        "file already exists: "@ + path@,
                    )
                },
                Err(e) => look is None && step == Err::<StepView, Seq<char>>(e),
            }
        }),
{
}

/// A removal takes the file at the path, where it is a regular one.
pub proof fn law_a_removal_takes_the_file(
    ctx: ToolContext,
    path: String,
    approved: String,
    roots: Seq<String>,
    lookup: PathLookup,
    scratch: PathLookup,
    facts: FileFacts,
)
    ensures
        ({
            let args = ToolArgs::RemoveFile { path };
            let step = file_outcome(ctx, args, approved, roots, lookup, scratch, facts);
            let look = looked_at(ctx, args, approved, roots, lookup, scratch);
            match write_goes_to(ctx, path@, approved, lookup, scratch) {
                Ok(at) => {
                    &&& look == Some(LookView::Kind(at))
                    &&& facts.found == Ok::<FileKind, String>(FileKind::Regular) ==> step == Ok::<
                        StepView,
                        Seq<char>,
                    >(StepView::Act(ActionView::Remove { path: at }))
                    &&& facts.found != Ok::<FileKind, String>(FileKind::Regular) ==> step is Err
                },
                Err(e) => look is None && step == Err::<StepView, Seq<char>>(e),
            }
        }),
{
}

/// An edit reads the file that it writes: what it comes to is what the edit of
/// that text comes to, at that path.
pub proof fn law_an_edit_writes_what_it_read(
    ctx: ToolContext,
    path: String,
    old_string: String,
    new_string: String,
    replace_all: bool,
    approved: String,
    roots: Seq<String>,
    lookup: PathLookup,
    scratch: PathLookup,
    facts: FileFacts,
    pieces: Seq<Seq<char>>,
)
    requires
        old_string@.len() > 0,
        crate::tools::fs_laws::left_between_matches(pieces, old_string@),
        facts.content matches Ok(text) && text@ == crate::tools::fs_laws::woven(
            pieces,
            old_string@,
        ),
    ensures
        ({
            let args = ToolArgs::EditFile { path, old_string, new_string, replace_all };
            let step = file_outcome(ctx, args, approved, roots, lookup, scratch, facts);
            let look = looked_at(ctx, args, approved, roots, lookup, scratch);
            match edit_goes_to(ctx, path@, approved, lookup, scratch) {
                Ok(at) => {
                    &&& look == Some(LookView::Content(at))
                    &&& replace_all && pieces.len() > 1 ==> step == Ok::<StepView, Seq<char>>(
                        StepView::Act(
                            ActionView::Write {
                                path: at,
                                content: crate::tools::fs_laws::woven(pieces, new_string@),
                            },
                        ),
                    )
                    &&& !replace_all && pieces.len() == 2 ==> step == Ok::<StepView, Seq<char>>(
                        StepView::Act(
                            ActionView::Write {
                                path: at,
                                content: pieces[0] + new_string@ + pieces[1],
                            },
                        ),
                    )
                    &&& replace_all && pieces.len() <= 1 ==> step is Err
                    &&& !replace_all && pieces.len() != 2 ==> step is Err
                },
                Err(e) => look is None && step == Err::<StepView, Seq<char>>(e),
            }
        }),
{
    if let Ok(at) = edit_goes_to(ctx, path@, approved, lookup, scratch) {
        crate::tools::fs_laws::law_edit_replaces_the_matches(
            at,
            path@,
            pieces,
            old_string@,
            new_string@,
            replace_all,
        );
    }
}

} // verus!
