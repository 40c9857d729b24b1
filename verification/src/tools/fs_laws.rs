//! What the file tools do to a file.
use vstd::prelude::*;
use vstd::string::*;

use crate::output::{byte_len, capped};
use crate::text::{
    decimal, lemma_next_match, match_count, matches_at, next_match, replaced, replaced_from,
    replaced_once,
};
use crate::tools::fs::{
    action_outcome, create_outcome, edit_outcome, read_outcome, remove_outcome, ActionView,
    FileKind,
};

verus! {

// ---------------------------------------------------------------------------
// Edits
// ---------------------------------------------------------------------------

/// The pieces in a row, with `glue` between two of them.
pub open spec fn woven(pieces: Seq<Seq<char>>, glue: Seq<char>) -> Seq<char>
    decreases pieces.len(),
{
    if pieces.len() == 0 {
        Seq::empty()
    } else if pieces.len() == 1 {
        pieces[0]
    } else {
        pieces[0] + glue + woven(pieces.drop_first(), glue)
    }
}

/// The words stand in the text at `i`.
pub open spec fn stands_at(text: Seq<char>, words: Seq<char>, i: int) -> bool {
    0 <= i && i + words.len() <= text.len() && text.subrange(i, i + words.len()) == words
}

/// The pieces are what is left of a text between its matches, taken from the
/// left without overlap: no match begins within a piece.
pub open spec fn left_between_matches(pieces: Seq<Seq<char>>, words: Seq<char>) -> bool {
    &&& pieces.len() > 0
    &&& forall|k: int, j: int|
        #![trigger stands_at(pieces[k] + words, words, j)]
        0 <= k < pieces.len() - 1 && 0 <= j < pieces[k].len() ==> !stands_at(
            pieces[k] + words,
            words,
            j,
        )
    &&& forall|j: int| !#[trigger] stands_at(pieces[pieces.len() - 1], words, j)
}

proof fn lemma_rest_of_pieces(pieces: Seq<Seq<char>>, words: Seq<char>)
    requires
        left_between_matches(pieces, words),
        pieces.len() > 1,
    ensures
        left_between_matches(pieces.drop_first(), words),
{
    let rest = pieces.drop_first();
    assert forall|k: int, j: int|
        #![trigger stands_at(rest[k] + words, words, j)]
        0 <= k < rest.len() - 1 && 0 <= j < rest[k].len() implies !stands_at(
        rest[k] + words,
        words,
        j,
    ) by {
        assert(rest[k] == pieces[k + 1]);
        assert(!stands_at(pieces[k + 1] + words, words, j));
    }
    assert(rest[rest.len() - 1] == pieces[pieces.len() - 1]);
}

proof fn lemma_first_piece(
    content: Seq<char>,
    words: Seq<char>,
    from: int,
    pieces: Seq<Seq<char>>,
)
    requires
        words.len() > 0,
        0 <= from <= content.len(),
        left_between_matches(pieces, words),
        content.skip(from) == woven(pieces, words),
    ensures
        pieces.len() == 1 ==> next_match(content, words, from) is None,
        pieces.len() > 1 ==> next_match(content, words, from) == Some(from + pieces[0].len())
            && from + pieces[0].len() + words.len() <= content.len() && content.skip(
            from + pieces[0].len() + words.len(),
        ) == woven(pieces.drop_first(), words) && content.subrange(from, from + pieces[0].len())
            == pieces[0],
{
    lemma_next_match(content, words, from);
    let s = content.skip(from);
    if pieces.len() == 1 {
        if let Some(i) = next_match(content, words, from) {
            assert(s.subrange(i - from, i - from + words.len()) =~= content.subrange(
                i,
                i + words.len(),
            ));
            assert(stands_at(pieces[pieces.len() - 1], words, i - from));
        }
    } else {
        let p = pieces[0];
        let tail = woven(pieces.drop_first(), words);
        let m = p.len() as int;
        assert(s == p + words + tail);
        let at = from + p.len();
        assert(content.subrange(at, at + words.len()) =~= s.subrange(
            m,
            m + words.len(),
        ));
        assert(s.subrange(m, m + words.len()) =~= words);
        assert(matches_at(content, words, at));
        if let Some(i) = next_match(content, words, from) {
            if i < at {
                let j = i - from;
                let head = p + words;
                let x = head.subrange(j, j + words.len());
                let y = content.subrange(i, i + words.len());
                assert forall|q: int| 0 <= q < words.len() implies #[trigger] x[q] == y[q] by {
                    assert(content[i + q] == s[j + q]);
                    assert(s[j + q] == head[j + q]);
                }
                assert(x =~= y);
                assert(stands_at(pieces[0] + words, words, j));
            }
        }
        assert(content.skip(at + words.len()) =~= s.skip(m + words.len()));
        assert(s.skip(m + words.len()) =~= tail);
        assert(content.subrange(from, at) =~= p);
    }
}

proof fn lemma_by_pieces(
    content: Seq<char>,
    words: Seq<char>,
    with: Seq<char>,
    from: int,
    pieces: Seq<Seq<char>>,
)
    requires
        words.len() > 0,
        0 <= from <= content.len(),
        left_between_matches(pieces, words),
        content.skip(from) == woven(pieces, words),
    ensures
        match_count(content, words, from) == pieces.len() - 1,
        replaced_from(content, words, with, from) == woven(pieces, with),
    decreases pieces.len(),
{
    lemma_first_piece(content, words, from, pieces);
    if pieces.len() > 1 {
        lemma_rest_of_pieces(pieces, words);
        lemma_by_pieces(
            content,
            words,
            with,
            from + pieces[0].len() + words.len(),
            pieces.drop_first(),
        );
    }
}

/// Every text has such pieces, so that what follows speaks of every edit.
pub proof fn law_every_text_has_its_pieces(text: Seq<char>, words: Seq<char>)
    requires
        words.len() > 0,
    ensures
        exists|pieces: Seq<Seq<char>>|
            left_between_matches(pieces, words) && #[trigger] woven(pieces, words) == text,
    decreases text.len(),
{
    lemma_next_match(text, words, 0);
    match next_match(text, words, 0) {
        None => {
            let pieces = seq![text];
            assert forall|j: int| !#[trigger] stands_at(pieces[0], words, j) by {
                assert(!matches_at(text, words, j) || j < 0);
            }
            assert(left_between_matches(pieces, words));
            assert(woven(pieces, words) == text);
        },
        Some(i) => {
            let rest = text.skip(i + words.len());
            law_every_text_has_its_pieces(rest, words);
            let tail = choose|pieces: Seq<Seq<char>>|
                left_between_matches(pieces, words) && #[trigger] woven(pieces, words) == rest;
            let p = text.take(i);
            let pieces = seq![p] + tail;
            assert(pieces.drop_first() =~= tail);
            assert forall|k: int, j: int|
                #![trigger stands_at(pieces[k] + words, words, j)]
                0 <= k < pieces.len() - 1 && 0 <= j < pieces[k].len() implies !stands_at(
                pieces[k] + words,
                words,
                j,
            ) by {
                if k == 0 {
                    let head = p + words;
                    let x = head.subrange(j, j + words.len());
                    let y = text.subrange(j, j + words.len());
                    let z = text.subrange(i, i + words.len());
                    assert(z == words);
                    assert forall|q: int| 0 <= q < words.len() implies #[trigger] x[q] == y[q] by {
                        if j + q >= i {
                            assert(z[j + q - i] == text[j + q]);
                        }
                    }
                    assert(x =~= y);
                    assert(!matches_at(text, words, j));
                } else {
                    assert(pieces[k] == tail[k - 1]);
                    assert(!stands_at(tail[k - 1] + words, words, j));
                }
            }
            assert(pieces[pieces.len() - 1] == tail[tail.len() - 1]);
            assert(left_between_matches(pieces, words));
            assert(woven(pieces, words) =~= text) by {
                assert(text.subrange(i, i + words.len()) == words);
                assert(p + words + rest =~= text);
            }
        },
    }
}

/// An edit by the matches of a file: `pieces` is what its text leaves between
/// them. With `replace_all` every match gives way, however many there are, and
/// what lies between them stays; without it the match must be the only one. The
/// file that is written is the one that was read, and nothing else is changed.
pub proof fn law_edit_replaces_the_matches(
    path: Seq<char>,
    raw: Seq<char>,
    pieces: Seq<Seq<char>>,
    old_string: Seq<char>,
    new_string: Seq<char>,
    replace_all: bool,
)
    requires
        old_string.len() > 0,
        left_between_matches(pieces, old_string),
    ensures
        edit_outcome(
            Ok(path),
            raw,
            Ok(woven(pieces, old_string)),
            old_string,
            new_string,
            replace_all,
        ) == (if replace_all && pieces.len() > 1 {
            Ok::<ActionView, Seq<char>>(
                ActionView::Write { path, content: woven(pieces, new_string) },
            )
        } else if !replace_all && pieces.len() == 2 {
            Ok(ActionView::Write { path, content: pieces[0] + new_string + pieces[1] })
        } else if replace_all {
            Err("old_string not found in "@ + raw)
        } else {
            Err(
                "old_string must match exactly once in "@ + raw + ", found "@ + decimal(
                    (pieces.len() - 1) as nat,
                ) + " matches"@,
            )
        }),
{
    let content = woven(pieces, old_string);
    assert(content.skip(0) =~= content);
    lemma_by_pieces(content, old_string, new_string, 0, pieces);
    if pieces.len() == 2 {
        lemma_first_piece(content, old_string, 0, pieces);
        let at = pieces[0].len() as int;
        assert(content.take(at) =~= content.subrange(0, at));
        assert(pieces.drop_first()[0] == pieces[1]);
        assert(woven(pieces.drop_first(), old_string) == pieces[1]);
        assert(replaced_once(content, old_string, new_string) =~= pieces[0] + new_string
            + pieces[1]);
    }
}

/// The length of an edited text: each match gives way to the new text.
pub proof fn law_edit_changes_the_length_by_the_matches(
    pieces: Seq<Seq<char>>,
    old_string: Seq<char>,
    new_string: Seq<char>,
)
    requires
        old_string.len() > 0,
        left_between_matches(pieces, old_string),
    ensures
        replaced(woven(pieces, old_string), old_string, new_string).len() + (pieces.len() - 1)
            * old_string.len() == woven(pieces, old_string).len() + (pieces.len() - 1)
            * new_string.len(),
{
    let content = woven(pieces, old_string);
    assert(content.skip(0) =~= content);
    lemma_by_pieces(content, old_string, new_string, 0, pieces);
    lemma_woven_length(pieces, old_string, new_string);
}

proof fn lemma_woven_length(pieces: Seq<Seq<char>>, a: Seq<char>, b: Seq<char>)
    requires
        pieces.len() > 0,
    ensures
        woven(pieces, b).len() + (pieces.len() - 1) * a.len() == woven(pieces, a).len() + (
        pieces.len() - 1) * b.len(),
    decreases pieces.len(),
{
    if pieces.len() > 1 {
        lemma_woven_length(pieces.drop_first(), a, b);
        let n = pieces.len() as int;
        let x = a.len() as int;
        let y = b.len() as int;
        assert((n - 1) * x == (n - 2) * x + x) by (nonlinear_arith);
        assert((n - 1) * y == (n - 2) * y + y) by (nonlinear_arith);
        assert(pieces.drop_first().len() - 1 == n - 2);
    } else {
        let x = a.len() as int;
        let y = b.len() as int;
        let n = pieces.len() as int;
        assert((n - 1) * x == 0 && (n - 1) * y == 0) by (nonlinear_arith)
            requires
                n == 1,
        ;
    }
}

/// An edit without a text to look for, of a path that is refused, or of a file
/// that cannot be read, changes nothing.
pub proof fn law_edit_needs_a_text_and_a_file(
    path: Result<Seq<char>, Seq<char>>,
    raw: Seq<char>,
    content: Result<Seq<char>, Seq<char>>,
    old_string: Seq<char>,
    new_string: Seq<char>,
    replace_all: bool,
)
    ensures
        old_string.len() == 0 ==> edit_outcome(
            path,
            raw,
            content,
            old_string,
            new_string,
            replace_all,
        ) == Err::<ActionView, Seq<char>>("old_string must not be empty"@),
        old_string.len() > 0 && path is Err ==> edit_outcome(
            path,
            raw,
            content,
            old_string,
            new_string,
            replace_all,
        ) == Err::<ActionView, Seq<char>>(path->Err_0),
        old_string.len() > 0 && path is Ok && content is Err ==> edit_outcome(
            path,
            raw,
            content,
            old_string,
            new_string,
            replace_all,
        ) == Err::<ActionView, Seq<char>>("failed to read "@ + raw + ": "@ + content->Err_0),
{
}

// ---------------------------------------------------------------------------
// The other tools
// ---------------------------------------------------------------------------

/// A file within the cap is read whole.
pub proof fn law_small_files_are_read_whole(path: Seq<char>, raw: Seq<char>, text: Seq<char>)
    requires
        byte_len(text) <= 1048576,
    ensures
        read_outcome(Ok(path), raw, Ok(text)) == Ok::<Seq<char>, Seq<char>>(text),
{
}

/// A read of a refused path, or of a file that cannot be read, gives its error;
/// any other gives the text, up to the cap.
pub proof fn law_failed_reads_say_why(
    path: Result<Seq<char>, Seq<char>>,
    raw: Seq<char>,
    content: Result<Seq<char>, Seq<char>>,
)
    ensures
        path is Err ==> read_outcome(path, raw, content) == Err::<Seq<char>, Seq<char>>(
            path->Err_0,
        ),
        path is Ok && content is Err ==> read_outcome(path, raw, content) == Err::<
            Seq<char>,
            Seq<char>,
        >("failed to read "@ + raw + ": "@ + content->Err_0),
        path is Ok && content is Ok ==> read_outcome(path, raw, content) == Ok::<
            Seq<char>,
            Seq<char>,
        >(capped(content->Ok_0)),
{
}

/// A new file gets exactly the given text; nothing that stands there is
/// overwritten.
pub proof fn law_create_writes_the_text_and_overwrites_nothing(
    path: Result<Seq<char>, Seq<char>>,
    raw: Seq<char>,
    content: Seq<char>,
)
    ensures
        path matches Ok(p) ==> create_outcome(path, raw, content, false) == Ok::<
            ActionView,
            Seq<char>,
        >(ActionView::Write { path: p, content }),
        path is Ok ==> create_outcome(path, raw, content, true) == Err::<ActionView, Seq<char>>(
            "file already exists: "@ + raw,
        ),
        path matches Err(e) ==> create_outcome(path, raw, content, true) == Err::<
            ActionView,
            Seq<char>,
        >(e) && create_outcome(path, raw, content, false) == Err::<ActionView, Seq<char>>(e),
{
}

/// Only a regular file is removed, and it is the one at the path.
pub proof fn law_only_regular_files_are_removed(
    path: Result<Seq<char>, Seq<char>>,
    raw: Seq<char>,
    found: Result<FileKind, String>,
)
    ensures
        remove_outcome(path, raw, found) is Ok <==> path is Ok && found == Ok::<
            FileKind,
            String,
        >(FileKind::Regular),
        remove_outcome(path, raw, found) matches Ok(action) ==> action == (ActionView::Remove {
            path: path->Ok_0,
        }),
        path is Ok && (found matches Ok(kind) && kind == FileKind::Symlink) ==> remove_outcome(
            path,
            raw,
            found,
        ) == Err::<ActionView, Seq<char>>("refusing to remove symlink: "@ + raw),
        path is Ok && (found matches Ok(kind) && kind == FileKind::Other) ==> remove_outcome(
            path,
            raw,
            found,
        ) == Err::<ActionView, Seq<char>>("not a regular file: "@ + raw),
        path is Ok && found is Err ==> remove_outcome(path, raw, found) == Err::<
            ActionView,
            Seq<char>,
        >("file does not exist: "@ + raw + " ("@ + found->Err_0@ + ")"@),
        path is Err ==> remove_outcome(path, raw, found) == Err::<ActionView, Seq<char>>(
            path->Err_0,
        ),
{
}

/// The model is told what was written, or what was removed, or why not.
pub proof fn law_the_model_learns_what_was_done(
    path: Seq<char>,
    content: Seq<char>,
    raw: Seq<char>,
    e: String,
)
    ensures
        action_outcome(ActionView::Write { path, content }, raw, Ok(())) == Ok::<
            Seq<char>,
            Seq<char>,
        >(content),
        action_outcome(ActionView::Write { path, content }, raw, Err(e)) == Err::<
            Seq<char>,
            Seq<char>,
        >("failed to write "@ + raw + ": "@ + e@),
        action_outcome(ActionView::Remove { path }, raw, Ok(())) == Ok::<Seq<char>, Seq<char>>(
            "removed "@ + raw,
        ),
        action_outcome(ActionView::Remove { path }, raw, Err(e)) == Err::<Seq<char>, Seq<char>>(
            "failed to remove "@ + raw + ": "@ + e@,
        ),
{
}

} // verus!
