//! Global skills: `<agents dir>/<skill>/SKILL.md` and
//! `<agents dir>/skills/<skill>/SKILL.md`.
//!
//! The caller reads the directories; this module parses what it found, keeps
//! one skill per name and sorts them.
use vstd::prelude::*;
use vstd::string::*;

use crate::paths::{join, joined};
use crate::text::{
    blank, chars_of, comes_before, is_blank, lines, lines_of, same_text, split_at_first,
    split_once, text_before, text_of, texts, trim, trim_start, trimmed, trimmed_start,
};

verus! {

/// A discovered skill: what its header says, and its folder.
#[derive(Debug, Clone, PartialEq, Eq)]
pub struct Skill {
    pub name: String,
    pub description: String,
    pub path: String,
}

/// The texts of a skill.
#[verifier::ext_equal]
pub struct SkillView {
    pub name: Seq<char>,
    pub description: Seq<char>,
    pub path: Seq<char>,
}

impl View for Skill {
    type V = SkillView;

    open spec fn view(&self) -> SkillView {
        SkillView { name: self.name@, description: self.description@, path: self.path@ }
    }
}

/// The texts of a list of skills.
pub open spec fn skills_view(skills: Seq<Skill>) -> Seq<SkillView> {
    skills.map_values(|s: Skill| s@)
}

/// A directory that may hold a skill.
#[derive(Debug, Clone, PartialEq, Eq)]
pub struct SkillEntry {
    /// The name of the directory.
    pub dir_name: String,
    /// The path of the directory.
    pub path: String,
    /// Its canonical path, where there is one.
    pub canonical: Option<String>,
    /// The text of its `SKILL.md`, where it can be read.
    pub content: Option<String>,
}

// ---------------------------------------------------------------------------
// The header of a SKILL.md
// ---------------------------------------------------------------------------

/// A quote character.
pub open spec fn is_quote(c: char) -> bool {
    c == '"' || c == '\''
}

/// A value without the quotes in front of it.
pub open spec fn unquoted_start(s: Seq<char>) -> Seq<char>
    decreases s.len(),
{
    if s.len() > 0 && is_quote(s[0]) {
        unquoted_start(s.drop_first())
    } else {
        s
    }
}

/// A value without the quotes behind it.
pub open spec fn unquoted_end(s: Seq<char>) -> Seq<char>
    decreases s.len(),
{
    if s.len() > 0 && is_quote(s.last()) {
        unquoted_end(s.drop_last())
    } else {
        s
    }
}

/// A value without the quotes around it.
pub open spec fn unquoted(s: Seq<char>) -> Seq<char> {
    unquoted_end(unquoted_start(s))
}

/// A line that closes the header.
pub open spec fn is_fence(line: Seq<char>) -> bool {
    trimmed(line) == "---"@ || trimmed(line) == "..."@
}

/// The lines up to the one that closes the header.
pub open spec fn header_lines(all: Seq<Seq<char>>) -> Seq<Seq<char>>
    decreases all.len(),
{
    if all.len() == 0 || is_fence(all[0]) {
        Seq::empty()
    } else {
        seq![all[0]] + header_lines(all.drop_first())
    }
}

/// The header of a SKILL.md: the lines between the opening `---` line and the
/// line that closes it; empty without an opening.
pub open spec fn header(content: Seq<char>) -> Seq<Seq<char>> {
    let all = lines(trimmed_start(content));
    if all.len() > 0 && trimmed(all[0]) == "---"@ {
        header_lines(all.drop_first())
    } else {
        Seq::empty()
    }
}

/// The value that a line gives to `key`.
pub open spec fn line_value(line: Seq<char>, key: Seq<char>) -> Option<Seq<char>> {
    match split_at_first(line, ':') {
        Some((k, value)) => if trimmed(k) == key {
            Some(unquoted(trimmed(value)))
        } else {
            None
        },
        None => None,
    }
}

/// The value of `key`: that of the last line that gives one, or `fallback`.
pub open spec fn header_value(
    all: Seq<Seq<char>>,
    key: Seq<char>,
    fallback: Seq<char>,
) -> Seq<char>
    decreases all.len(),
{
    if all.len() == 0 {
        fallback
    } else {
        match line_value(all.last(), key) {
            Some(value) => value,
            None => header_value(all.drop_last(), key, fallback),
        }
    }
}

/// The name in the header of a SKILL.md, or that of its directory.
pub open spec fn skill_name(dir_name: Seq<char>, content: Seq<char>) -> Seq<char> {
    header_value(header(content), "name"@, dir_name)
}

/// The description in the header of a SKILL.md, or none.
pub open spec fn skill_description(content: Seq<char>) -> Seq<char> {
    header_value(header(content), "description"@, Seq::empty())
}

fn trim_quotes(s: &str) -> (r: String)
    ensures
        r@ == unquoted(s@),
{
    let chars = chars_of(s);
    let mut from: usize = 0;
    assert(s@.skip(0) =~= s@);
    while from < chars.len() && (chars[from] == '"' || chars[from] == '\'')
        invariant
            from <= chars.len(),
            chars@ == s@,
            unquoted_start(s@) == unquoted_start(s@.skip(from as int)),
        decreases chars.len() - from,
    {
        assert(s@.skip(from as int).drop_first() =~= s@.skip(from + 1));
        from = from + 1;
    }
    let ghost front = s@.skip(from as int);
    assert(unquoted_start(s@) == front);
    let mut to: usize = chars.len();
    assert(chars@.subrange(from as int, to as int) =~= front);
    while to > from && (chars[to - 1] == '"' || chars[to - 1] == '\'')
        invariant
            from <= to <= chars.len(),
            unquoted_end(front) == unquoted_end(chars@.subrange(from as int, to as int)),
        decreases to,
    {
        assert(chars@.subrange(from as int, to as int).drop_last() =~= chars@.subrange(
            from as int,
            to - 1,
        ));
        assert(chars@.subrange(from as int, to as int).last() == chars@[to - 1]);
        to = to - 1;
    }
    let ghost kept = chars@.subrange(from as int, to as int);
    assert(to > from ==> kept.last() == chars@[to - 1]);
    assert(unquoted_end(kept) == kept);
    text_of(&chars, from, to)
}

fn closes_header(line: &str) -> (r: bool)
    ensures
        r == is_fence(line@),
{
    let t = trim(line);
    same_text(t, "---") || same_text(t, "...")
}

fn value_for(line: &str, key: &str) -> (r: Option<String>)
    ensures
        match r {
            Some(v) => line_value(line@, key@) == Some(v@),
            None => line_value(line@, key@) is None,
        },
{
    match split_once(line, ':') {
        Some((k, value)) => if same_text(trim(k), key) {
            Some(trim_quotes(trim(value)))
        } else {
            None
        },
        None => None,
    }
}

/// Parses a SKILL.md: an optional header between `---` lines, of which the
/// fields `name` and `description` count, and then the instructions. Without
/// a name the directory gives it.
pub fn parse_skill_md(dir_name: &str, content: &str) -> (r: (String, String))
    ensures
        r.0@ == skill_name(dir_name@, content@),
        r.1@ == skill_description(content@),
{
    let mut name = dir_name.to_owned();
    let mut description = String::new();
    assert(description@ =~= Seq::<char>::empty());
    let all = lines_of(trim_start(content));
    let ghost every = texts(all@);
    if all.len() == 0 {
        return (name, description);
    }
    assert(every[0] == all@[0]@);
    if !same_text(trim(all[0].as_str()), "---") {
        return (name, description);
    }
    let ghost ls = every.drop_first();
    let ghost head = header_lines(ls);
    let mut i: usize = 1;
    assert(ls.skip(0) =~= ls);
    assert(ls.take(0) + header_lines(ls) =~= header_lines(ls));
    assert(ls.take(0).len() == 0);
    while i < all.len() && !closes_header(all[i].as_str())
        invariant
            1 <= i <= all.len(),
            ls == texts(all@).drop_first(),
            head == header_lines(ls),
            head == ls.take(i - 1) + header_lines(ls.skip(i - 1)),
            name@ == header_value(ls.take(i - 1), "name"@, dir_name@),
            description@ == header_value(ls.take(i - 1), "description"@, Seq::empty()),
        decreases all.len() - i,
    {
        let ghost k = i - 1;
        assert(ls[k] == all@[i as int]@);
        assert(ls.skip(k)[0] == ls[k]);
        assert(ls.skip(k).drop_first() =~= ls.skip(k + 1));
        assert(ls.take(k + 1) =~= ls.take(k) + seq![ls[k]]);
        assert(ls.take(k) + (seq![ls[k]] + header_lines(ls.skip(k + 1))) =~= ls.take(k + 1)
            + header_lines(ls.skip(k + 1)));
        assert(ls.take(k + 1).drop_last() =~= ls.take(k));
        assert(ls.take(k + 1).last() == ls[k]);
        if let Some(value) = value_for(all[i].as_str(), "name") {
            name = value;
        }
        if let Some(value) = value_for(all[i].as_str(), "description") {
            description = value;
        }
        i = i + 1;
    }
    proof {
        if i < all@.len() {
            assert(ls.skip(i - 1)[0] == all@[i as int]@);
        }
        assert(header_lines(ls.skip(i - 1)) =~= Seq::<Seq<char>>::empty());
        assert(head =~= ls.take(i - 1));
    }
    (name, description)
}

// ---------------------------------------------------------------------------
// Discovery
// ---------------------------------------------------------------------------

/// Where `key` goes among sorted keys: behind those that do not come after it.
pub open spec fn insert_place(keys: Seq<Seq<char>>, key: Seq<char>) -> nat
    decreases keys.len(),
{
    if keys.len() == 0 || text_before(key, keys[0]) {
        0
    } else {
        1 + insert_place(keys.drop_first(), key)
    }
}

/// The names of a list of directories.
pub open spec fn dir_names(entries: Seq<SkillEntry>) -> Seq<Seq<char>> {
    entries.map_values(|e: SkillEntry| e.dir_name@)
}

/// The names of a list of skills.
pub open spec fn names(skills: Seq<SkillView>) -> Seq<Seq<char>> {
    skills.map_values(|s: SkillView| s.name)
}

/// The directories sorted by name.
pub open spec fn by_dir(entries: Seq<SkillEntry>) -> Seq<SkillEntry>
    decreases entries.len(),
{
    if entries.len() == 0 {
        Seq::empty()
    } else {
        let before = by_dir(entries.drop_last());
        before.insert(
            insert_place(dir_names(before), entries.last().dir_name@) as int,
            entries.last(),
        )
    }
}

/// The skills sorted by name.
pub open spec fn by_name(skills: Seq<SkillView>) -> Seq<SkillView>
    decreases skills.len(),
{
    if skills.len() == 0 {
        Seq::empty()
    } else {
        let before = by_name(skills.drop_last());
        before.insert(insert_place(names(before), skills.last().name) as int, skills.last())
    }
}

/// A directory with a SKILL.md that says something.
pub open spec fn usable(entry: SkillEntry) -> bool {
    entry.content matches Some(content) && !blank(content@)
}

/// The skill in a directory.
pub open spec fn skill_in(entry: SkillEntry) -> SkillView {
    let content = entry.content->0@;
    SkillView {
        name: skill_name(entry.dir_name@, content),
        description: skill_description(content),
        path: match entry.canonical {
            Some(path) => path@,
            None => entry.path@,
        },
    }
}

/// The skills of a list of directories, the first one of each name.
pub open spec fn collected(entries: Seq<SkillEntry>) -> Seq<SkillView>
    decreases entries.len(),
{
    if entries.len() == 0 {
        Seq::empty()
    } else {
        let before = collected(entries.drop_last());
        let e = entries.last();
        if usable(e) && !names(before).contains(skill_in(e).name) {
            before.push(skill_in(e))
        } else {
            before
        }
    }
}

/// The skills of both layouts: `skills/` comes first, one skill per name,
/// sorted by name.
pub open spec fn discovered(nested: Seq<SkillEntry>, top: Seq<SkillEntry>) -> Seq<SkillView> {
    by_name(collected(by_dir(nested) + by_dir(top)))
}

/// What stands before the place of a key does not come after it; what stands at
/// the place does.
pub proof fn lemma_insert_place(keys: Seq<Seq<char>>, key: Seq<char>)
    ensures
        insert_place(keys, key) <= keys.len(),
        forall|i: int| 0 <= i < insert_place(keys, key) ==> !text_before(key, #[trigger] keys[i]),
        insert_place(keys, key) < keys.len() ==> text_before(
            key,
            keys[insert_place(keys, key) as int],
        ),
    decreases keys.len(),
{
    if keys.len() > 0 && !text_before(key, keys[0]) {
        let rest = keys.drop_first();
        lemma_insert_place(rest, key);
        assert forall|i: int| 0 <= i < insert_place(keys, key) implies !text_before(
            key,
            #[trigger] keys[i],
        ) by {
            if i > 0 {
                assert(keys[i] == rest[i - 1]);
            }
        }
        if insert_place(keys, key) < keys.len() {
            assert(keys[insert_place(keys, key) as int] == rest[insert_place(keys, key) - 1]);
        }
    }
}

fn place_for(keys: &Vec<String>, key: &str) -> (r: usize)
    ensures
        r as nat == insert_place(texts(keys@), key@),
        r <= keys.len(),
{
    let ghost all = texts(keys@);
    assert(all.skip(0) =~= all);
    let mut i: usize = 0;
    while i < keys.len() && !comes_before(key, keys[i].as_str())
        invariant
            i <= keys.len(),
            all == texts(keys@),
            insert_place(all, key@) == i + insert_place(all.skip(i as int), key@),
        decreases keys.len() - i,
    {
        assert(all.skip(i as int)[0] == keys@[i as int]@);
        assert(all.skip(i as int).drop_first() =~= all.skip(i + 1));
        i = i + 1;
    }
    proof {
        if i < keys@.len() {
            assert(all.skip(i as int)[0] == keys@[i as int]@);
        }
    }
    i
}

fn copy_entry(e: &SkillEntry) -> (r: SkillEntry)
    ensures
        r == *e,
{
    SkillEntry {
        dir_name: e.dir_name.clone(),
        path: e.path.clone(),
        canonical: crate::chat::copy_opt(&e.canonical),
        content: crate::chat::copy_opt(&e.content),
    }
}

fn sort_by_dir(entries: &Vec<SkillEntry>) -> (r: Vec<SkillEntry>)
    ensures
        r@ == by_dir(entries@),
{
    let mut out: Vec<SkillEntry> = Vec::new();
    let mut keys: Vec<String> = Vec::new();
    let mut i: usize = 0;
    assert(entries@.take(0).len() == 0);
    assert(texts(keys@) =~= dir_names(out@));
    while i < entries.len()
        invariant
            i <= entries.len(),
            out@ == by_dir(entries@.take(i as int)),
            texts(keys@) == dir_names(out@),
        decreases entries.len() - i,
    {
        assert(entries@.take(i + 1).drop_last() =~= entries@.take(i as int));
        assert(entries@.take(i + 1).last() == entries@[i as int]);
        let e = &entries[i];
        let at: usize = place_for(&keys, e.dir_name.as_str());
        assert(out@.len() == dir_names(out@).len());
        let ghost before = out@;
        let ghost old_keys = keys@;
        keys.insert(at, e.dir_name.clone());
        out.insert(at, copy_entry(e));
        assert(texts(keys@) =~= texts(old_keys).insert(at as int, e.dir_name@));
        assert(dir_names(out@) =~= dir_names(before).insert(at as int, e.dir_name@));
        i = i + 1;
    }
    assert(entries@.take(i as int) =~= entries@);
    out
}

fn has_name(skills: &Vec<Skill>, name: &str) -> (r: bool)
    ensures
        r == names(skills_view(skills@)).contains(name@),
{
    let ghost all = names(skills_view(skills@));
    let mut i: usize = 0;
    while i < skills.len()
        invariant
            i <= skills.len(),
            all == names(skills_view(skills@)),
            forall|k: int| 0 <= k < i ==> #[trigger] all[k] != name@,
        decreases skills.len() - i,
    {
        assert(all[i as int] == skills@[i as int].name@);
        if same_text(skills[i].name.as_str(), name) {
            return true;
        }
        i = i + 1;
    }
    false
}

fn collect(entries: &Vec<SkillEntry>) -> (r: Vec<Skill>)
    ensures
        skills_view(r@) == collected(entries@),
{
    let mut out: Vec<Skill> = Vec::new();
    let mut i: usize = 0;
    assert(entries@.take(0).len() == 0);
    assert(skills_view(out@) =~= Seq::<SkillView>::empty());
    while i < entries.len()
        invariant
            i <= entries.len(),
            skills_view(out@) == collected(entries@.take(i as int)),
        decreases entries.len() - i,
    {
        assert(entries@.take(i + 1).drop_last() =~= entries@.take(i as int));
        assert(entries@.take(i + 1).last() == entries@[i as int]);
        let e = &entries[i];
        if let Some(content) = &e.content {
            if !is_blank(content.as_str()) {
                let (name, description) = parse_skill_md(e.dir_name.as_str(), content.as_str());
                if !has_name(&out, name.as_str()) {
                    let path = match &e.canonical {
                        Some(path) => path.clone(),
                        None => e.path.clone(),
                    };
                    let skill = Skill { name, description, path };
                    let ghost before = out@;
                    assert(skill@ =~= skill_in(*e));
                    out.push(skill);
                    assert(skills_view(out@) =~= skills_view(before).push(skill_in(*e)));
                }
            }
        }
        i = i + 1;
    }
    assert(entries@.take(i as int) =~= entries@);
    out
}

/// A copy of a skill.
pub fn copy_skill(s: &Skill) -> (r: Skill)
    ensures
        r == *s,
{
    Skill { name: s.name.clone(), description: s.description.clone(), path: s.path.clone() }
}

fn sort_by_name(skills: &Vec<Skill>) -> (r: Vec<Skill>)
    ensures
        skills_view(r@) == by_name(skills_view(skills@)),
{
    let mut out: Vec<Skill> = Vec::new();
    let mut keys: Vec<String> = Vec::new();
    let ghost all = skills_view(skills@);
    let mut i: usize = 0;
    assert(all.take(0).len() == 0);
    assert(skills_view(out@) =~= Seq::<SkillView>::empty());
    assert(texts(keys@) =~= names(skills_view(out@)));
    while i < skills.len()
        invariant
            i <= skills.len(),
            all == skills_view(skills@),
            skills_view(out@) == by_name(all.take(i as int)),
            texts(keys@) == names(skills_view(out@)),
        decreases skills.len() - i,
    {
        assert(all.take(i + 1).drop_last() =~= all.take(i as int));
        assert(all.take(i + 1).last() == skills@[i as int]@);
        let s = &skills[i];
        let at: usize = place_for(&keys, s.name.as_str());
        assert(out@.len() == names(skills_view(out@)).len());
        let ghost before = out@;
        let ghost old_keys = keys@;
        keys.insert(at, s.name.clone());
        out.insert(at, copy_skill(s));
        assert(texts(keys@) =~= texts(old_keys).insert(at as int, s.name@));
        assert(skills_view(out@) =~= skills_view(before).insert(at as int, s@));
        assert(names(skills_view(out@)) =~= names(skills_view(before)).insert(at as int, s.name@));
        i = i + 1;
    }
    assert(all.take(i as int) =~= all);
    out
}

/// The global skills. `nested` are the directories under `skills/`, `top`
/// those right under the agents directory.
pub fn discover_skills(nested: &Vec<SkillEntry>, top: &Vec<SkillEntry>) -> (r: Vec<Skill>)
    ensures
        skills_view(r@) == discovered(nested@, top@),
{
    let mut entries = sort_by_dir(nested);
    let mut rest = sort_by_dir(top);
    entries.append(&mut rest);
    let skills = collect(&entries);
    sort_by_name(&skills)
}

/// The first skill with this name.
pub open spec fn named(skills: Seq<SkillView>, name: Seq<char>) -> Option<SkillView>
    decreases skills.len(),
{
    if skills.len() == 0 {
        None
    } else if skills[0].name == name {
        Some(skills[0])
    } else {
        named(skills.drop_first(), name)
    }
}

/// The skill with this name among the discovered ones.
pub fn find_skill(skills: &Vec<Skill>, name: &str) -> (r: Option<Skill>)
    ensures
        match r {
            Some(s) => named(skills_view(skills@), name@) == Some(s@),
            None => named(skills_view(skills@), name@) is None,
        },
{
    let ghost all = skills_view(skills@);
    assert(all.skip(0) =~= all);
    let mut i: usize = 0;
    while i < skills.len()
        invariant
            i <= skills.len(),
            all == skills_view(skills@),
            named(all, name@) == named(all.skip(i as int), name@),
        decreases skills.len() - i,
    {
        assert(all.skip(i as int)[0] == skills@[i as int]@);
        if same_text(skills[i].name.as_str(), name) {
            return Some(copy_skill(&skills[i]));
        }
        assert(all.skip(i as int).drop_first() =~= all.skip(i + 1));
        i = i + 1;
    }
    None
}

/// The file of a skill.
pub fn skill_file(path: &str) -> (r: String)
    ensures
        r@ == joined(path@, "SKILL.md"@),
{
    join(path, "SKILL.md")
}

// ---------------------------------------------------------------------------
// Laws
// ---------------------------------------------------------------------------

/// No key comes before an earlier one.
pub open spec fn sorted(keys: Seq<Seq<char>>) -> bool {
    forall|i: int, j: int|
        0 <= i < j < keys.len() ==> !text_before(#[trigger] keys[j], #[trigger] keys[i])
}

/// A key at its place keeps sorted keys sorted.
pub proof fn lemma_insert_sorted(keys: Seq<Seq<char>>, key: Seq<char>)
    requires
        sorted(keys),
    ensures
        sorted(keys.insert(insert_place(keys, key) as int, key)),
{
    lemma_insert_place(keys, key);
    let at = insert_place(keys, key) as int;
    let all = keys.insert(at, key);
    assert forall|i: int, j: int| 0 <= i < j < all.len() implies !text_before(
        #[trigger] all[j],
        #[trigger] all[i],
    ) by {
        if i < at && j < at {
            assert(all[i] == keys[i] && all[j] == keys[j]);
        } else if j == at {
            assert(all[i] == keys[i]);
        } else if i == at {
            assert(all[j] == keys[j - 1]);
            if text_before(keys[j - 1], key) {
                crate::text::lemma_before_transitive(keys[j - 1], key, keys[at]);
                if j - 1 > at {
                    assert(!text_before(keys[j - 1], keys[at]));
                } else {
                    crate::text::lemma_before_irreflexive(keys[at]);
                }
            }
        } else if i < at {
            assert(all[i] == keys[i] && all[j] == keys[j - 1]);
        } else {
            assert(all[i] == keys[i - 1] && all[j] == keys[j - 1]);
        }
    }
}

/// Sorting by name sorts, and keeps every skill.
pub proof fn lemma_by_name_sorted(skills: Seq<SkillView>)
    ensures
        sorted(names(by_name(skills))),
        by_name(skills).to_multiset() == skills.to_multiset(),
    decreases skills.len(),
{
    broadcast use vstd::seq_lib::group_to_multiset_ensures;

    if skills.len() == 0 {
        assert(by_name(skills) =~= skills);
    } else {
        let before = by_name(skills.drop_last());
        let s = skills.last();
        lemma_by_name_sorted(skills.drop_last());
        lemma_insert_place(names(before), s.name);
        lemma_insert_sorted(names(before), s.name);
        let at = insert_place(names(before), s.name) as int;
        assert(names(by_name(skills)) =~= names(before).insert(at, s.name));
        assert(skills =~= skills.drop_last().push(s));
    }
}

/// The skills are sorted by name, and sorting neither loses nor adds one.
pub proof fn law_skills_are_sorted(nested: Seq<SkillEntry>, top: Seq<SkillEntry>)
    ensures
        sorted(names(discovered(nested, top))),
        discovered(nested, top).to_multiset() == collected(
            by_dir(nested) + by_dir(top),
        ).to_multiset(),
{
    lemma_by_name_sorted(collected(by_dir(nested) + by_dir(top)));
}

/// No two of a list of names are the same.
pub open spec fn unique(all: Seq<Seq<char>>) -> bool {
    forall|i: int, j: int| 0 <= i < j < all.len() ==> #[trigger] all[i] != #[trigger] all[j]
}

proof fn lemma_collected_unique(entries: Seq<SkillEntry>)
    ensures
        unique(names(collected(entries))),
    decreases entries.len(),
{
    if entries.len() > 0 {
        let before = collected(entries.drop_last());
        lemma_collected_unique(entries.drop_last());
        let e = entries.last();
        if usable(e) && !names(before).contains(skill_in(e).name) {
            let all = names(before.push(skill_in(e)));
            assert(all =~= names(before).push(skill_in(e).name));
            assert forall|i: int, j: int| 0 <= i < j < all.len() implies #[trigger] all[i]
                != #[trigger] all[j] by {
                assert(all[i] == names(before)[i]);
                if j < before.len() {
                    assert(all[j] == names(before)[j]);
                }
            }
        }
    }
}

/// The first usable directory of a name decides its skill: each collected
/// skill stands in the first usable directory that gives its name.
pub proof fn law_first_directory_of_a_name_wins(entries: Seq<SkillEntry>, i: int)
    requires
        0 <= i < entries.len(),
        usable(entries[i]),
        forall|k: int|
            0 <= k < i && usable(#[trigger] entries[k]) ==> skill_in(entries[k]).name != skill_in(
                entries[i],
            ).name,
    ensures
        collected(entries).contains(skill_in(entries[i])),
    decreases entries.len(),
{
    let d = entries.drop_last();
    let before = collected(d);
    if i == entries.len() - 1 {
        let name = skill_in(entries[i]).name;
        if names(before).contains(name) {
            let k = choose|k: int| 0 <= k < names(before).len() && names(before)[k] == name;
            lemma_collected_from(d, k);
            let j = choose|j: int|
                0 <= j < d.len() && usable(#[trigger] d[j]) && skill_in(d[j]) == before[k];
            assert(entries[j] == d[j]);
            assert(names(before)[k] == before[k].name);
        }
        assert(collected(entries)[before.len() as int] == skill_in(entries[i]));
    } else {
        assert forall|k: int| 0 <= k < i && usable(#[trigger] d[k]) implies skill_in(d[k]).name
            != skill_in(d[i]).name by {
            assert(d[k] == entries[k] && d[i] == entries[i]);
        }
        assert(d[i] == entries[i]);
        law_first_directory_of_a_name_wins(d, i);
        let k = choose|k: int| 0 <= k < before.len() && before[k] == skill_in(entries[i]);
        assert(collected(entries)[k] == skill_in(entries[i]));
    }
}

/// Every collected skill is that of a usable directory.
pub proof fn lemma_collected_from(entries: Seq<SkillEntry>, k: int)
    requires
        0 <= k < collected(entries).len(),
    ensures
        exists|j: int|
            0 <= j < entries.len() && usable(#[trigger] entries[j]) && skill_in(entries[j])
                == collected(entries)[k],
    decreases entries.len(),
{
    if entries.len() > 0 {
        let d = entries.drop_last();
        let before = collected(d);
        if k < before.len() {
            lemma_collected_from(d, k);
            let j = choose|j: int|
                0 <= j < d.len() && usable(#[trigger] d[j]) && skill_in(d[j]) == before[k];
            assert(entries[j] == d[j]);
            assert(usable(entries[j]) && skill_in(entries[j]) == collected(entries)[k]);
        } else {
            let j = entries.len() - 1;
            assert(usable(entries[j]) && skill_in(entries[j]) == collected(entries)[k]);
        }
    }
}

/// Each name is listed once.
pub proof fn law_skill_names_are_unique(
    nested: Seq<SkillEntry>,
    top: Seq<SkillEntry>,
    i: int,
    j: int,
)
    requires
        0 <= i < j < discovered(nested, top).len(),
    ensures
        discovered(nested, top)[i].name != discovered(nested, top)[j].name,
{
    let c = collected(by_dir(nested) + by_dir(top));
    lemma_collected_unique(by_dir(nested) + by_dir(top));
    lemma_by_name_unique(c);
    let d = by_name(c);
    assert(names(d)[i] == d[i].name && names(d)[j] == d[j].name);
}

proof fn lemma_by_name_unique(skills: Seq<SkillView>)
    requires
        unique(names(skills)),
    ensures
        unique(names(by_name(skills))),
        forall|name: Seq<char>|
            #![trigger names(by_name(skills)).contains(name)]
            #![trigger names(skills).contains(name)]
            names(by_name(skills)).contains(name) <==> names(skills).contains(name),
    decreases skills.len(),
{
    if skills.len() == 0 {
        assert(by_name(skills) =~= skills);
    } else {
        let d = skills.drop_last();
        let s = skills.last();
        let before = by_name(d);
        assert(names(d) =~= names(skills).drop_last());
        lemma_by_name_unique(d);
        lemma_insert_place(names(before), s.name);
        let at = insert_place(names(before), s.name) as int;
        let all = names(by_name(skills));
        assert(all =~= names(before).insert(at, s.name));
        assert(!names(d).contains(s.name)) by {
            if names(d).contains(s.name) {
                let k = choose|k: int| 0 <= k < names(d).len() && names(d)[k] == s.name;
                assert(names(skills)[k] == s.name);
                assert(names(skills)[skills.len() - 1] == s.name);
            }
        }
        assert forall|i: int, j: int| 0 <= i < j < all.len() implies #[trigger] all[i]
            != #[trigger] all[j] by {
            let x = if i < at {
                i
            } else {
                i - 1
            };
            let y = if j < at {
                j
            } else {
                j - 1
            };
            if i == at {
                assert(all[j] == names(before)[y]);
                assert(names(before).contains(all[j]));
            } else if j == at {
                assert(all[i] == names(before)[x]);
                assert(names(before).contains(all[i]));
            } else {
                assert(all[i] == names(before)[x] && all[j] == names(before)[y]);
            }
        }
        assert forall|name: Seq<char>|
            #![trigger all.contains(name)]
            #![trigger names(skills).contains(name)]
            all.contains(name) <==> names(skills).contains(name) by {
            if all.contains(name) {
                let k = choose|k: int| 0 <= k < all.len() && all[k] == name;
                if k == at {
                    assert(names(skills)[skills.len() - 1] == name);
                } else {
                    let x = if k < at {
                        k
                    } else {
                        k - 1
                    };
                    assert(names(before)[x] == name);
                    assert(names(before).contains(name));
                    assert(names(d).contains(name));
                    let q = choose|q: int| 0 <= q < names(d).len() && names(d)[q] == name;
                    assert(names(skills)[q] == name);
                }
            }
            if names(skills).contains(name) {
                let q = choose|q: int| 0 <= q < names(skills).len() && names(skills)[q] == name;
                if q == skills.len() - 1 {
                    assert(all[at] == name);
                } else {
                    assert(names(d)[q] == name);
                    assert(names(d).contains(name));
                    let k = choose|k: int| 0 <= k < names(before).len() && names(before)[k] == name;
                    if k < at {
                        assert(all[k] == name);
                    } else {
                        assert(all[k + 1] == name);
                    }
                }
            }
        }
    }
}

} // verus!
