//! What a `SKILL.md` says of its skill, and which skills are found.
use vstd::prelude::*;
use vstd::string::*;

use crate::skills::{
    by_dir, by_name, collected, dir_names, discovered, header, header_lines, header_value,
    insert_place, is_quote, law_first_directory_of_a_name_wins, lemma_by_name_sorted,
    lemma_collected_from, lemma_insert_place, lemma_insert_sorted, line_value, skill_description,
    skill_in, skill_name, sorted, unquoted, unquoted_end, unquoted_start, usable, SkillEntry, SkillView,
};
use crate::text::{blank, lines, text_before, trimmed, trimmed_start};
use crate::text_laws::law_texts_split_at_the_first;

verus! {

// ---------------------------------------------------------------------------
// The header
// ---------------------------------------------------------------------------

/// A text of quote characters alone.
pub open spec fn all_quotes(s: Seq<char>) -> bool {
    forall|i: int| 0 <= i < s.len() ==> (#[trigger] s[i]) == '"' || s[i] == '\''
}

proof fn lemma_unquotes_start(a: Seq<char>, m: Seq<char>)
    requires
        all_quotes(a),
        m.len() == 0 || !is_quote(m[0]),
    ensures
        unquoted_start(a + m) == m,
    decreases a.len(),
{
    let s = a + m;
    if a.len() == 0 {
        assert(s =~= m);
    } else {
        assert(s[0] == a[0]);
        let rest = a.drop_first();
        assert forall|i: int| 0 <= i < rest.len() implies (#[trigger] rest[i]) == '"' || rest[i]
            == '\'' by {
            assert(rest[i] == a[i + 1]);
        }
        lemma_unquotes_start(rest, m);
        assert(s.drop_first() =~= rest + m);
    }
}

proof fn lemma_unquotes_end(m: Seq<char>, b: Seq<char>)
    requires
        all_quotes(b),
        m.len() == 0 || !is_quote(m.last()),
    ensures
        unquoted_end(m + b) == m,
    decreases b.len(),
{
    let s = m + b;
    if b.len() == 0 {
        assert(s =~= m);
    } else {
        assert(s.last() == b[b.len() - 1]);
        let rest = b.drop_last();
        assert forall|i: int| 0 <= i < rest.len() implies (#[trigger] rest[i]) == '"' || rest[i]
            == '\'' by {
            assert(rest[i] == b[i]);
        }
        lemma_unquotes_end(m, rest);
        assert(s.drop_last() =~= m + rest);
    }
}

/// The quotes around a value are taken off, and those inside stay.
pub proof fn law_quotes_are_taken_off(a: Seq<char>, m: Seq<char>, b: Seq<char>)
    requires
        all_quotes(a),
        all_quotes(b),
        m.len() > 0,
        m[0] != '"' && m[0] != '\'',
        m.last() != '"' && m.last() != '\'',
    ensures
        unquoted(a + m + b) == m,
{
    let inner = m + b;
    assert(inner[0] == m[0]);
    assert(a + m + b =~= a + inner);
    lemma_unquotes_start(a, inner);
    lemma_unquotes_end(m, b);
}

/// A line that gives `value` to `key`: the key, a colon, and the value, with
/// blanks around either.
pub open spec fn gives(line: Seq<char>, key: Seq<char>, k: Seq<char>, value: Seq<char>) -> bool {
    line == k + seq![':'] + value && !k.contains(':') && trimmed(k) == key
}

/// A line that gives nothing to `key`.
pub open spec fn gives_nothing(line: Seq<char>, key: Seq<char>) -> bool {
    forall|k: Seq<char>, value: Seq<char>| !#[trigger] gives(line, key, k, value)
}

proof fn lemma_gives(line: Seq<char>, key: Seq<char>, k: Seq<char>, value: Seq<char>)
    requires
        gives(line, key, k, value),
    ensures
        line_value(line, key) == Some(unquoted(trimmed(value))),
{
    law_texts_split_at_the_first(k, ':', value);
}

proof fn lemma_first_colon(line: Seq<char>) -> (i: int)
    ensures
        -1 <= i < line.len(),
        i >= 0 ==> line[i] == ':' && !line.take(i).contains(':'),
        i < 0 ==> !line.contains(':'),
    decreases line.len(),
{
    if line.len() == 0 {
        -1
    } else {
        let head = line.drop_last();
        let i = lemma_first_colon(head);
        if i >= 0 {
            assert(head.take(i) =~= line.take(i));
            assert(head[i] == line[i]);
            i
        } else if line.last() == ':' {
            assert(line.take(line.len() - 1) =~= head);
            line.len() - 1
        } else {
            assert forall|x: int| 0 <= x < line.len() implies line[x] != ':' by {
                if x < head.len() {
                    assert(head[x] == line[x]);
                    assert(head.contains(head[x]));
                }
            }
            -1
        }
    }
}

proof fn lemma_gives_nothing(line: Seq<char>, key: Seq<char>)
    requires
        gives_nothing(line, key),
    ensures
        line_value(line, key) is None,
{
    let i = lemma_first_colon(line);
    if i < 0 {
        law_texts_split_at_the_first(line, ':', Seq::empty());
    } else {
        let k = line.take(i);
        let value = line.skip(i + 1);
        assert(line =~= k + seq![':'] + value);
        law_texts_split_at_the_first(k, ':', value);
        assert(!gives(line, key, k, value));
    }
}

proof fn lemma_value_of(all: Seq<Seq<char>>, key: Seq<char>, fallback: Seq<char>, i: int)
    requires
        -1 <= i < all.len(),
        i >= 0 ==> line_value(all[i], key) is Some,
        forall|j: int| i < j < all.len() ==> gives_nothing(#[trigger] all[j], key),
    ensures
        i >= 0 ==> header_value(all, key, fallback) == line_value(all[i], key)->0,
        i < 0 ==> header_value(all, key, fallback) == fallback,
    decreases all.len(),
{
    if i < all.len() - 1 {
        let rest = all.drop_last();
        lemma_gives_nothing(all[all.len() - 1], key);
        assert(i >= 0 ==> rest[i] == all[i]);
        assert forall|j: int| i < j < rest.len() implies gives_nothing(#[trigger] rest[j], key) by {
            assert(rest[j] == all[j]);
        }
        lemma_value_of(rest, key, fallback, i);
    }
}

/// A line that opens or closes a header.
pub open spec fn closes(line: Seq<char>) -> bool {
    trimmed(line) == "---"@ || trimmed(line) == "..."@
}

proof fn lemma_header_lines(body: Seq<Seq<char>>, close: Seq<char>, rest: Seq<Seq<char>>)
    requires
        forall|i: int| 0 <= i < body.len() ==> !closes(#[trigger] body[i]),
        closes(close),
    ensures
        header_lines(body + seq![close] + rest) == body,
        header_lines(body) == body,
    decreases body.len(),
{
    let all = body + seq![close] + rest;
    if body.len() == 0 {
        assert(all[0] == close);
        assert(header_lines(all) =~= body);
        assert(header_lines(body) =~= body);
    } else {
        assert(!closes(body[0]));
        let tail = body.drop_first();
        assert forall|i: int| 0 <= i < tail.len() implies !closes(#[trigger] tail[i]) by {
            assert(tail[i] == body[i + 1]);
        }
        lemma_header_lines(tail, close, rest);
        assert(all[0] == body[0]);
        assert(all.drop_first() =~= tail + seq![close] + rest);
        assert(seq![body[0]] + tail =~= body);
    }
}

/// The content has this header: the lines between a first line `---` and the
/// next `---` or `...`.
pub open spec fn headed(content: Seq<char>, body: Seq<Seq<char>>) -> bool {
    &&& forall|i: int| 0 <= i < body.len() ==> !closes(#[trigger] body[i])
    &&& exists|open: Seq<char>, close: Seq<char>, rest: Seq<Seq<char>>|
        trimmed(open) == "---"@ && closes(close) && lines(trimmed_start(content))
            == #[trigger] (seq![open] + (body + seq![close] + rest))
}

proof fn lemma_headed(content: Seq<char>, body: Seq<Seq<char>>)
    requires
        headed(content, body),
    ensures
        header(content) == body,
{
    let (open, close, rest) = choose|open: Seq<char>, close: Seq<char>, rest: Seq<Seq<char>>|
        trimmed(open) == "---"@ && closes(close) && lines(trimmed_start(content))
            == #[trigger] (seq![open] + (body + seq![close] + rest));
    let all = lines(trimmed_start(content));
    assert(all[0] == open);
    assert(all.drop_first() =~= body + seq![close] + rest);
    lemma_header_lines(body, close, rest);
}

/// The name and the description of a skill are those of its header, without
/// blanks and quotes around them; where several lines give one, the last does.
pub proof fn law_the_header_names_the_skill(
    content: Seq<char>,
    body: Seq<Seq<char>>,
    i: int,
    k: Seq<char>,
    value: Seq<char>,
    dir: Seq<char>,
)
    requires
        headed(content, body),
        0 <= i < body.len(),
    ensures
        gives(body[i], "name"@, k, value) && (forall|j: int|
            i < j < body.len() ==> gives_nothing(#[trigger] body[j], "name"@)) ==> skill_name(
            dir,
            content,
        ) == unquoted(trimmed(value)),
        gives(body[i], "description"@, k, value) && (forall|j: int|
            i < j < body.len() ==> gives_nothing(#[trigger] body[j], "description"@))
            ==> skill_description(content) == unquoted(trimmed(value)),
{
    lemma_headed(content, body);
    if gives(body[i], "name"@, k, value) && forall|j: int|
        i < j < body.len() ==> gives_nothing(#[trigger] body[j], "name"@) {
        lemma_gives(body[i], "name"@, k, value);
        lemma_value_of(body, "name"@, dir, i);
    }
    if gives(body[i], "description"@, k, value) && forall|j: int|
        i < j < body.len() ==> gives_nothing(#[trigger] body[j], "description"@) {
        lemma_gives(body[i], "description"@, k, value);
        lemma_value_of(body, "description"@, Seq::empty(), i);
    }
}

/// Where the header gives none, the name is that of the directory, and there is
/// no description.
pub proof fn law_the_directory_names_the_skill(
    content: Seq<char>,
    body: Seq<Seq<char>>,
    dir: Seq<char>,
)
    requires
        headed(content, body),
    ensures
        (forall|j: int| 0 <= j < body.len() ==> gives_nothing(#[trigger] body[j], "name"@))
            ==> skill_name(dir, content) == dir,
        (forall|j: int| 0 <= j < body.len() ==> gives_nothing(#[trigger] body[j], "description"@))
            ==> skill_description(content) == Seq::<char>::empty(),
{
    lemma_headed(content, body);
    if forall|j: int| 0 <= j < body.len() ==> gives_nothing(#[trigger] body[j], "name"@) {
        lemma_value_of(body, "name"@, dir, -1);
    }
    if forall|j: int| 0 <= j < body.len() ==> gives_nothing(#[trigger] body[j], "description"@) {
        lemma_value_of(body, "description"@, Seq::empty(), -1);
    }
}

/// A content that does not open with `---` has no header.
pub proof fn law_a_header_opens_with_dashes(content: Seq<char>, dir: Seq<char>)
    requires
        lines(trimmed_start(content)).len() == 0 || trimmed(lines(trimmed_start(content))[0])
            != "---"@,
    ensures
        skill_name(dir, content) == dir,
        skill_description(content) == Seq::<char>::empty(),
{
}

// ---------------------------------------------------------------------------
// Discovery
// ---------------------------------------------------------------------------

/// A directory holds a skill where its `SKILL.md` can be read and says
/// something.
pub open spec fn holds_skill(entry: SkillEntry) -> bool {
    entry.content is Some && !blank(entry.content->0@)
}

/// The name of the skill in a directory.
pub open spec fn name_in(entry: SkillEntry) -> Seq<char> {
    skill_name(entry.dir_name@, entry.content->0@)
}

/// The skill of a directory: under its name, with its description, at the
/// canonical path of the directory, or at its path where it has none.
pub open spec fn is_skill_of(skill: SkillView, entry: SkillEntry) -> bool {
    &&& skill.name == name_in(entry)
    &&& skill.description == skill_description(entry.content->0@)
    &&& entry.canonical matches Some(path) ==> skill.path == path@
    &&& entry.canonical is None ==> skill.path == entry.path@
}

proof fn lemma_skill_of(entry: SkillEntry)
    ensures
        usable(entry) <==> holds_skill(entry),
        is_skill_of(skill_in(entry), entry),
        skill_in(entry).name == name_in(entry),
{
}

proof fn lemma_by_dir_holds(entries: Seq<SkillEntry>)
    ensures
        forall|e: SkillEntry|
            #![trigger by_dir(entries).contains(e)]
            #![trigger entries.contains(e)]
            by_dir(entries).contains(e) <==> entries.contains(e),
    decreases entries.len(),
{
    if entries.len() == 0 {
        assert(by_dir(entries) =~= entries);
    } else {
        let rest = entries.drop_last();
        let last = entries.last();
        lemma_by_dir_holds(rest);
        let before = by_dir(rest);
        lemma_insert_place(dir_names(before), last.dir_name@);
        let at = insert_place(dir_names(before), last.dir_name@) as int;
        let all = by_dir(entries);
        assert(all =~= before.insert(at, last));
        assert forall|e: SkillEntry| all.contains(e) <==> entries.contains(e) by {
            if all.contains(e) {
                let i = choose|i: int| 0 <= i < all.len() && all[i] == e;
                if i < at {
                    assert(before[i] == e);
                    assert(before.contains(e));
                    assert(rest.contains(e));
                    let k = choose|k: int| 0 <= k < rest.len() && rest[k] == e;
                    assert(entries[k] == e);
                } else if i == at {
                    assert(entries[entries.len() - 1] == e);
                } else {
                    assert(before[i - 1] == e);
                    assert(before.contains(e));
                    assert(rest.contains(e));
                    let k = choose|k: int| 0 <= k < rest.len() && rest[k] == e;
                    assert(entries[k] == e);
                }
            }
            if entries.contains(e) {
                let k = choose|k: int| 0 <= k < entries.len() && entries[k] == e;
                if k < rest.len() {
                    assert(rest[k] == e);
                    assert(rest.contains(e));
                    assert(before.contains(e));
                    let i = choose|i: int| 0 <= i < before.len() && before[i] == e;
                    if i < at {
                        assert(all[i] == e);
                    } else {
                        assert(all[i + 1] == e);
                    }
                } else {
                    assert(all[at] == e);
                }
            }
        }
    }
}

proof fn lemma_sorted_by_dir(entries: Seq<SkillEntry>)
    ensures
        sorted(dir_names(by_dir(entries))),
    decreases entries.len(),
{
    if entries.len() > 0 {
        let before = by_dir(entries.drop_last());
        let last = entries.last();
        lemma_sorted_by_dir(entries.drop_last());
        lemma_insert_place(dir_names(before), last.dir_name@);
        lemma_insert_sorted(dir_names(before), last.dir_name@);
        let at = insert_place(dir_names(before), last.dir_name@) as int;
        assert(dir_names(by_dir(entries)) =~= dir_names(before).insert(at, last.dir_name@));
    }
}

proof fn lemma_by_dir_sorted(entries: Seq<SkillEntry>, i: int, j: int)
    requires
        0 <= i < j < by_dir(entries).len(),
    ensures
        !text_before(by_dir(entries)[j].dir_name@, by_dir(entries)[i].dir_name@),
{
    lemma_sorted_by_dir(entries);
    let keys = dir_names(by_dir(entries));
    assert(!text_before(keys[j], keys[i]));
}

proof fn lemma_discovered_holds(nested: Seq<SkillEntry>, top: Seq<SkillEntry>, s: SkillView)
    ensures
        discovered(nested, top).contains(s) <==> collected(by_dir(nested) + by_dir(top)).contains(
            s,
        ),
{
    broadcast use vstd::seq_lib::group_to_multiset_ensures;

    let all = collected(by_dir(nested) + by_dir(top));
    lemma_by_name_sorted(all);
    assert(all.contains(s) <==> all.to_multiset().count(s) > 0);
    assert(by_name(all).contains(s) <==> by_name(all).to_multiset().count(s) > 0);
}

/// Every skill directory is found, unless another one has the name already: one
/// of `skills/` counts before one that lies directly in the agents directory, and
/// beside each other the one whose directory comes first by name counts.
pub proof fn law_every_skill_is_found(
    nested: Seq<SkillEntry>,
    top: Seq<SkillEntry>,
    entry: SkillEntry,
)
    requires
        holds_skill(entry),
    ensures
        nested.contains(entry) && (forall|k: int|
            0 <= k < nested.len() && holds_skill(#[trigger] nested[k]) && nested[k] != entry
                && name_in(nested[k]) == name_in(entry) ==> text_before(
                entry.dir_name@,
                nested[k].dir_name@,
            )) ==> exists|i: int|
            0 <= i < discovered(nested, top).len() && is_skill_of(
                #[trigger] discovered(nested, top)[i],
                entry,
            ),
        top.contains(entry) && (forall|k: int|
            0 <= k < nested.len() && holds_skill(#[trigger] nested[k]) ==> name_in(nested[k])
                != name_in(entry)) && (forall|k: int|
            0 <= k < top.len() && holds_skill(#[trigger] top[k]) && top[k] != entry && name_in(top[k])
                == name_in(entry) ==> text_before(entry.dir_name@, top[k].dir_name@)) ==> exists|i: int|
            0 <= i < discovered(nested, top).len() && is_skill_of(
                #[trigger] discovered(nested, top)[i],
                entry,
            ),
{
    let a = by_dir(nested);
    let b = by_dir(top);
    let all = a + b;
    let found = discovered(nested, top);
    lemma_by_dir_holds(nested);
    lemma_by_dir_holds(top);
    lemma_skill_of(entry);
    if nested.contains(entry) && forall|k: int|
        0 <= k < nested.len() && holds_skill(#[trigger] nested[k]) && nested[k] != entry
            && name_in(nested[k]) == name_in(entry) ==> text_before(
            entry.dir_name@,
            nested[k].dir_name@,
        ) {
        assert(a.contains(entry));
        let p = lemma_first_place_of(a, entry);
        assert(all[p] == entry);
        assert forall|k: int| 0 <= k < p && usable(#[trigger] all[k]) implies skill_in(all[k]).name
            != skill_in(all[p]).name by {
            assert(all[k] == a[k]);
            assert(a.contains(a[k]));
            assert(nested.contains(a[k]));
            let q = choose|q: int| 0 <= q < nested.len() && nested[q] == a[k];
            lemma_skill_of(nested[q]);
            assert(nested[q] != entry);
            lemma_by_dir_sorted(nested, k, p);
        }
        law_first_directory_of_a_name_wins(all, p);
        lemma_discovered_holds(nested, top, skill_in(entry));
        let i = choose|i: int| 0 <= i < found.len() && found[i] == skill_in(entry);
        assert(is_skill_of(found[i], entry));
    }
    if top.contains(entry) && (forall|k: int|
        0 <= k < nested.len() && holds_skill(#[trigger] nested[k]) ==> name_in(nested[k])
            != name_in(entry)) && (forall|k: int|
        0 <= k < top.len() && holds_skill(#[trigger] top[k]) && top[k] != entry && name_in(top[k])
            == name_in(entry) ==> text_before(entry.dir_name@, top[k].dir_name@)) {
        assert(b.contains(entry));
        let p = lemma_first_place_of(b, entry);
        let at = a.len() + p;
        assert(all[at] == entry);
        assert forall|k: int| 0 <= k < at && usable(#[trigger] all[k]) implies skill_in(all[k]).name
            != skill_in(all[at]).name by {
            if k < a.len() {
                assert(all[k] == a[k]);
                assert(a.contains(a[k]));
                assert(nested.contains(a[k]));
                let q = choose|q: int| 0 <= q < nested.len() && nested[q] == a[k];
                lemma_skill_of(nested[q]);
            } else {
                assert(all[k] == b[k - a.len()]);
                assert(b.contains(b[k - a.len()]));
                assert(top.contains(b[k - a.len()]));
                let q = choose|q: int| 0 <= q < top.len() && top[q] == b[k - a.len()];
                lemma_skill_of(top[q]);
                assert(top[q] != entry);
                lemma_by_dir_sorted(top, k - a.len(), p);
            }
        }
        law_first_directory_of_a_name_wins(all, at);
        lemma_discovered_holds(nested, top, skill_in(entry));
        let i = choose|i: int| 0 <= i < found.len() && found[i] == skill_in(entry);
        assert(is_skill_of(found[i], entry));
    }
}

proof fn lemma_first_place_of(entries: Seq<SkillEntry>, entry: SkillEntry) -> (p: int)
    requires
        entries.contains(entry),
    ensures
        0 <= p < entries.len(),
        entries[p] == entry,
        forall|k: int| 0 <= k < p ==> entries[k] != entry,
    decreases entries.len(),
{
    let rest = entries.drop_last();
    if rest.contains(entry) {
        let p = lemma_first_place_of(rest, entry);
        assert forall|k: int| 0 <= k < p implies entries[k] != entry by {
            assert(rest[k] == entries[k]);
        }
        p
    } else {
        assert forall|k: int| 0 <= k < entries.len() - 1 implies entries[k] != entry by {
            assert(rest[k] == entries[k]);
        }
        entries.len() - 1
    }
}

/// Whatever is found is the skill of some directory.
pub proof fn law_nothing_else_is_found(nested: Seq<SkillEntry>, top: Seq<SkillEntry>, i: int)
    requires
        0 <= i < discovered(nested, top).len(),
    ensures
        exists|e: SkillEntry|
            holds_skill(e) && (nested.contains(e) || top.contains(e)) && #[trigger] is_skill_of(
                discovered(nested, top)[i],
                e,
            ),
{
    let found = discovered(nested, top);
    let a = by_dir(nested);
    let b = by_dir(top);
    let all = a + b;
    lemma_discovered_holds(nested, top, found[i]);
    assert(found.contains(found[i]));
    let k = choose|k: int| 0 <= k < collected(all).len() && collected(all)[k] == found[i];
    lemma_collected_from(all, k);
    let j = choose|j: int|
        0 <= j < all.len() && usable(#[trigger] all[j]) && skill_in(all[j]) == collected(all)[k];
    lemma_by_dir_holds(nested);
    lemma_by_dir_holds(top);
    if j < a.len() {
        assert(a.contains(a[j]));
        assert(nested.contains(all[j]));
    } else {
        assert(b.contains(b[j - a.len()]));
        assert(top.contains(all[j]));
    }
    lemma_skill_of(all[j]);
    assert(is_skill_of(found[i], all[j]));
}

} // verus!
