//! How paths are put together and taken apart, and which lies under which.
use vstd::prelude::*;
use vstd::string::*;

use crate::paths::{
    before_last_piece, body_start, components, components_from, file_name_of, joined, last_piece,
    lemma_join_adds_component, lemma_join_stays_under, lemma_piece_start_stops, lemma_without_tail,
    parent_of, piece_start, plain_name, same_path, under, without_tail,
};

verus! {

/// An absolute path stands for itself; a relative one is counted from the base,
/// with one separator in between.
pub proof fn law_relative_paths_start_at_the_base(base: Seq<char>, path: Seq<char>)
    ensures
        path.len() > 0 && path[0] == '/' ==> joined(base, path) == path,
        (path.len() == 0 || path[0] != '/') && base.len() > 0 && base.last() != '/' ==> joined(
            base,
            path,
        ) == base + seq!['/'] + path,
        (path.len() == 0 || path[0] != '/') && base.len() > 0 && base.last() == '/' ==> joined(
            base,
            path,
        ) == base + path,
        (path.len() == 0 || path[0] != '/') ==> joined(Seq::empty(), path) == path,
{
    assert(Seq::<char>::empty() + path =~= path);
}

proof fn lemma_join_shape(base: Seq<char>, name: Seq<char>)
    requires
        plain_name(name),
        base.len() > 0,
        base[0] == '/',
    ensures
        ({
            let path = joined(base, name);
            &&& body_start(path) == 1
            &&& path.len() > 1
            &&& path[0] == '/'
            &&& piece_start(path, 1) >= 1
            &&& piece_start(path, 1) <= path.len()
            &&& last_piece(path, 1) == name
            &&& components_from(before_last_piece(path, 1), 1) == components(base)
            &&& before_last_piece(path, 1).len() >= 1
            &&& before_last_piece(path, 1)[0] == '/'
        }),
{
    let path = joined(base, name);
    assert(name.len() > 0 && name[0] != '/');
    assert(path[0] == base[0]);
    if base.last() == '/' {
        assert(path =~= base + name);
        lemma_piece_start_stops(path, base.len() as int, 1);
        assert(last_piece(path, 1) =~= name);
        if base.len() == 1 {
            assert(before_last_piece(path, 1) =~= base);
        } else {
            lemma_piece_start_stops(base, base.len() as int, 1);
            assert(last_piece(base, 1) =~= Seq::<char>::empty());
            assert(before_last_piece(path, 1) =~= before_last_piece(base, 1));
        }
    } else {
        assert(path =~= base + seq!['/'] + name);
        assert(path[base.len() as int] == '/');
        lemma_piece_start_stops(path, base.len() as int + 1, 1);
        assert(last_piece(path, 1) =~= name);
        assert(before_last_piece(path, 1) =~= base);
    }
}

/// What was joined comes apart again: the file name is the name that was joined
/// to a directory, and the parent is that directory. Two dots are no name.
pub proof fn law_joined_paths_come_apart(base: Seq<char>, name: Seq<char>)
    requires
        base.len() > 0,
        base[0] == '/',
        plain_name(name),
    ensures
        name != ".."@ ==> file_name_of(joined(base, name)) == Some(name),
        name == ".."@ ==> file_name_of(joined(base, name)) is None,
        parent_of(joined(base, name)) is Some,
        same_path(parent_of(joined(base, name))->0, base),
{
    reveal_strlit("..");
    assert(".."@ =~= seq!['.', '.']);
    lemma_join_shape(base, name);
    let path = joined(base, name);
    assert(without_tail(path, 1) == path);
    let rest = before_last_piece(path, 1);
    lemma_without_tail(rest, 1);
    let parent = without_tail(rest, 1);
    assert(parent[0] == rest[0]);
    assert(body_start(parent) == 1);
}

/// The root is its own end: it has no parent and no name.
pub proof fn law_the_root_has_no_parent()
    ensures
        parent_of(seq!['/']) is None,
        file_name_of(seq!['/']) is None,
        parent_of(Seq::<char>::empty()) is None,
        file_name_of(Seq::<char>::empty()) is None,
{
    assert(without_tail(seq!['/'], 1) == seq!['/']);
}

/// A separator at the end, or a dot, leads to the same place.
pub proof fn law_trailing_separators_change_nothing(base: Seq<char>)
    requires
        base.len() > 0,
    ensures
        same_path(base + seq!['/'], base),
        base.last() != '/' ==> same_path(joined(base, seq!['.']), base),
{
    let path = base + seq!['/'];
    let start = body_start(base);
    assert(path[0] == base[0]);
    if base.len() > 1 {
        assert(path[1] == base[1]);
    } else {
        assert(path[1] == '/');
    }
    assert(body_start(path) == start);
    lemma_piece_start_stops(path, path.len() as int, start);
    assert(last_piece(path, start) =~= Seq::<char>::empty());
    assert(before_last_piece(path, start) =~= base);
    if base.last() != '/' {
        let dotted = joined(base, seq!['.']);
        assert(dotted =~= base + seq!['/'] + seq!['.']);
        assert(dotted[0] == base[0]);
        assert(dotted[base.len() as int] == '/');
        if base.len() > 1 {
            assert(dotted[1] == base[1]);
        }
        assert(body_start(dotted) == start);
        lemma_piece_start_stops(dotted, base.len() as int + 1, start);
        assert(last_piece(dotted, start) =~= seq!['.']);
        assert(before_last_piece(dotted, start) =~= base);
    }
}

/// A path lies under itself and under every directory above it, and under no
/// sibling, however alike the names begin.
pub proof fn law_under_goes_by_whole_names(base: Seq<char>, a: Seq<char>, b: Seq<char>)
    requires
        plain_name(a),
        plain_name(b),
    ensures
        under(base, base),
        under(joined(base, a), base),
        !under(base, joined(base, a)),
        under(joined(base, a), joined(base, b)) <==> a == b,
        same_path(joined(base, a), joined(base, b)) <==> a == b,
        under(joined(joined(base, a), b), base),
        under(joined(joined(base, a), b), joined(base, a)),
{
    lemma_join_adds_component(base, a);
    lemma_join_adds_component(base, b);
    let c = components(base);
    assert(c.subrange(0, c.len() as int) =~= c);
    lemma_join_stays_under(base, base, a);
    let ca = c.push(a);
    let cb = c.push(b);
    assert(ca.last() == a && cb.last() == b);
    assert(ca.subrange(0, cb.len() as int) =~= ca);
    lemma_join_stays_under(joined(base, a), base, b);
    lemma_join_stays_under(joined(base, a), joined(base, a), b);
}

/// What lies under a directory that lies under another lies under that one too.
pub proof fn law_under_reaches_all_the_way_up(a: Seq<char>, b: Seq<char>, c: Seq<char>)
    requires
        under(a, b),
        under(b, c),
    ensures
        under(a, c),
{
    let x = components(a);
    let y = components(b);
    let z = components(c);
    assert(x.subrange(0, y.len() as int).subrange(0, z.len() as int) =~= x.subrange(
        0,
        z.len() as int,
    ));
}

/// Every name counts, two dots among them: joined to a path it is one component
/// more. The root is a component by itself, and nothing else is in the empty
/// path.
pub proof fn law_every_name_is_a_component(base: Seq<char>, name: Seq<char>)
    requires
        name.len() > 0,
        name != seq!['.'],
        !name.contains('/'),
    ensures
        components(joined(base, name)) == components(base).push(name),
        components(seq!['/']) == seq![seq!['/']],
        components(Seq::<char>::empty()).len() == 0,
{
    assert(plain_name(name)) by {
        assert forall|j: int| 0 <= j < name.len() implies name[j] != '/' by {
            assert(name.contains(name[j]));
        }
    }
    lemma_join_adds_component(base, name);
    assert(body_start(seq!['/']) == 1);
}

/// The files of a session lie in its own directory, under the sessions of the
/// data directory.
pub proof fn law_a_session_has_its_own_directory(data: Seq<char>, id: Seq<char>)
    requires
        id.len() > 0,
        id != seq!['.'],
        !id.contains('/'),
    ensures
        components(crate::agent::scratch_path(data, id)) == components(data).push(
            "sessions"@,
        ).push(id).push("tmp"@),
        components(crate::tools::subagent::journal_file(data, id)) == components(data).push(
            "sessions"@,
        ).push(id).push("journal.jsonl"@),
        components(crate::tools::subagent::session_path(data, id)) == components(data).push(
            "sessions"@,
        ).push(id),
{
    reveal_strlit("sessions");
    reveal_strlit("tmp");
    reveal_strlit("journal.jsonl");
    assert("sessions"@.len() == 8 && "tmp"@.len() == 3 && "journal.jsonl"@.len() == 13);
    law_every_name_is_a_component(data, "sessions"@);
    let sessions = joined(data, "sessions"@);
    law_every_name_is_a_component(sessions, id);
    let session = joined(sessions, id);
    law_every_name_is_a_component(session, "tmp"@);
    law_every_name_is_a_component(session, "journal.jsonl"@);
}

proof fn lemma_parent_behind_one(base: Seq<char>, b: Seq<char>)
    requires
        base.len() > 1,
        base[0] == '/',
        base.last() != '/',
        without_tail(base, 1) == base,
        plain_name(b),
    ensures
        parent_of(base + seq!['/'] + b) == Some(base),
{
    let path = base + seq!['/'] + b;
    assert(path[0] == '/' && path[base.len() as int] == '/');
    assert(body_start(path) == 1);
    lemma_piece_start_stops(path, base.len() as int + 1, 1);
    assert(last_piece(path, 1) =~= b);
    assert(before_last_piece(path, 1) =~= base);
    assert(without_tail(path, 1) == path);
}

proof fn lemma_parent_behind_two(base: Seq<char>, b: Seq<char>)
    requires
        base.len() > 1,
        base[0] == '/',
        base.last() != '/',
        without_tail(base, 1) == base,
        plain_name(b),
    ensures
        parent_of(base + seq!['/', '/'] + b) == Some(base),
{
    let wide = base + seq!['/', '/'] + b;
    let mid = base + seq!['/'];
    assert(wide[0] == '/' && wide[base.len() as int + 1] == '/');
    assert(body_start(wide) == 1);
    lemma_piece_start_stops(wide, base.len() as int + 2, 1);
    assert(last_piece(wide, 1) =~= b);
    assert(without_tail(wide, 1) == wide);
    assert(before_last_piece(wide, 1) =~= mid);
    lemma_piece_start_stops(mid, mid.len() as int, 1);
    assert(last_piece(mid, 1) =~= Seq::<char>::empty());
    assert(before_last_piece(mid, 1) =~= base);
    assert(without_tail(mid, 1) == without_tail(base, 1));
}

proof fn lemma_parent_at_the_root(b: Seq<char>)
    requires
        plain_name(b),
    ensures
        parent_of(seq!['/'] + b) == Some(seq!['/']),
{
    let top = seq!['/'] + b;
    let root = seq!['/'];
    assert(body_start(top) == 1);
    lemma_piece_start_stops(top, 1, 1);
    assert(last_piece(top, 1) =~= b);
    assert(without_tail(top, 1) == top);
    assert(before_last_piece(top, 1) =~= root);
    assert(without_tail(root, 1) == root);
}

/// The parent is written as the directory was: without the separators,
/// one or two, that stood before the name. The parent of a name at the root is the root.
pub proof fn law_the_parent_is_written_plainly(dir: Seq<char>, a: Seq<char>, b: Seq<char>)
    requires
        dir.len() > 0,
        dir[0] == '/',
        plain_name(a),
        plain_name(b),
    ensures
        parent_of(joined(dir, a) + seq!['/'] + b) == Some(joined(dir, a)),
        parent_of(joined(dir, a) + seq!['/', '/'] + b) == Some(joined(dir, a)),
        parent_of(seq!['/'] + b) == Some(seq!['/']),
{
    lemma_join_shape(dir, a);
    let base = joined(dir, a);
    assert(a.len() > 0 && a.last() != '/');
    assert(base.last() == a.last());
    assert(without_tail(base, 1) == base);
    lemma_parent_behind_one(base, b);
    lemma_parent_behind_two(base, b);
    lemma_parent_at_the_root(b);
}

} // verus!
