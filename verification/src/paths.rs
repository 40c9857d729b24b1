//! Unix paths as texts: joining, parent, file name, and containment by whole
//! components.
use vstd::prelude::*;
use vstd::string::*;

use crate::text::{cat2, cat3, chars_of, same_text, text_of};

verus! {

/// Where the body of a path begins: after the root `/`, or after a leading
/// `.` component.
pub open spec fn body_start(s: Seq<char>) -> int {
    if s.len() > 0 && s[0] == '/' {
        1
    } else if s.len() > 0 && s[0] == '.' && (s.len() == 1 || s[1] == '/') {
        1
    } else {
        0
    }
}

/// Where the last piece of `s` begins, looking no further back than `start`.
pub open spec fn piece_start(s: Seq<char>, start: int) -> int
    decreases s.len(),
{
    if s.len() <= start || s.len() == 0 {
        start
    } else if s.last() == '/' {
        s.len() as int
    } else {
        piece_start(s.drop_last(), start)
    }
}

/// The last piece of a path with the body start `start`.
pub open spec fn last_piece(s: Seq<char>, start: int) -> Seq<char> {
    s.skip(piece_start(s, start))
}

/// The path without its last piece and the separator before it.
pub open spec fn before_last_piece(s: Seq<char>, start: int) -> Seq<char> {
    let p = piece_start(s, start);
    if p > start {
        s.take(p - 1)
    } else {
        s.take(start)
    }
}

/// A piece that names nothing: empty or `.`.
pub open spec fn is_skipped(piece: Seq<char>) -> bool {
    piece.len() == 0 || piece == seq!['.']
}

proof fn lemma_piece_start(s: Seq<char>, start: int)
    requires
        0 <= start < s.len(),
    ensures
        start <= piece_start(s, start) <= s.len(),
        before_last_piece(s, start).len() < s.len(),
        before_last_piece(s, start).len() >= start,
        piece_start(s, start) > start ==> s[piece_start(s, start) - 1] == '/',
        forall|j: int| piece_start(s, start) <= j < s.len() ==> s[j] != '/',
    decreases s.len(),
{
    if s.last() != '/' {
        let d = s.drop_last();
        if start < d.len() {
            lemma_piece_start(d, start);
            assert forall|j: int| piece_start(s, start) <= j < s.len() implies s[j] != '/' by {
                if j < d.len() {
                    assert(d[j] == s[j]);
                }
            }
        }
    }
}

/// The components of a path from its body start on: the root as `/`, a
/// leading `.`, and every named piece.
pub open spec fn components_from(s: Seq<char>, start: int) -> Seq<Seq<char>>
    decreases s.len(),
{
    if start < 0 || s.len() <= start {
        if s.len() == 0 {
            Seq::empty()
        } else {
            seq![s]
        }
    } else {
        let rest = before_last_piece(s, start);
        let piece = last_piece(s, start);
        if rest.len() < s.len() {
            if is_skipped(piece) {
                components_from(rest, start)
            } else {
                components_from(rest, start).push(piece)
            }
        } else {
            Seq::empty()
        }
    }
}

/// The components of a path.
pub open spec fn components(s: Seq<char>) -> Seq<Seq<char>> {
    components_from(s, body_start(s))
}

/// The path without trailing separators and `.` pieces.
pub open spec fn without_tail(s: Seq<char>, start: int) -> Seq<char>
    decreases s.len(),
{
    if s.len() <= start || !is_skipped(last_piece(s, start)) {
        s
    } else {
        let rest = before_last_piece(s, start);
        if rest.len() < s.len() {
            without_tail(rest, start)
        } else {
            s
        }
    }
}

/// The parent of a path: none for the root and for the empty path.
pub open spec fn parent_of(s: Seq<char>) -> Option<Seq<char>> {
    let start = body_start(s);
    let t = without_tail(s, start);
    if t.len() > start {
        Some(without_tail(before_last_piece(t, start), start))
    } else if t.len() > 0 && t[0] == '.' {
        Some(Seq::empty())
    } else {
        None
    }
}

/// The file name of a path: its last component, unless that is the root, a
/// leading `.`, or `..`.
pub open spec fn file_name_of(s: Seq<char>) -> Option<Seq<char>> {
    let start = body_start(s);
    let t = without_tail(s, start);
    if t.len() > start && last_piece(t, start) != seq!['.', '.'] {
        Some(last_piece(t, start))
    } else {
        None
    }
}

/// A path that begins at the root.
pub open spec fn absolute(s: Seq<char>) -> bool {
    s.len() > 0 && s[0] == '/'
}

/// `path` seen from `base`: an absolute path stands alone, a relative one is
/// appended.
pub open spec fn joined(base: Seq<char>, path: Seq<char>) -> Seq<char> {
    if absolute(path) {
        path
    } else if base.len() == 0 || base.last() == '/' {
        base + path
    } else {
        base + seq!['/'] + path
    }
}

/// `path` lies under `base`: the components of `base` come first.
pub open spec fn under(path: Seq<char>, base: Seq<char>) -> bool {
    components(base).is_prefix_of(components(path))
}

/// Two spellings of one path: the same components.
pub open spec fn same_path(a: Seq<char>, b: Seq<char>) -> bool {
    components(a) == components(b)
}

/// One of `paths` names the same path as `path`.
pub open spec fn lists_path(paths: Seq<String>, path: Seq<char>) -> bool {
    exists|i: int| 0 <= i < paths.len() && same_path(#[trigger] paths[i]@, path)
}

/// `path` lies under one of `roots`.
pub open spec fn under_any(path: Seq<char>, roots: Seq<String>) -> bool {
    exists|i: int| 0 <= i < roots.len() && under(path, #[trigger] roots[i]@)
}

// ---------------------------------------------------------------------------
// Facts about paths
// ---------------------------------------------------------------------------

/// The last piece begins behind the last separator.
pub proof fn lemma_piece_start_stops(s: Seq<char>, k: int, start: int)
    requires
        0 <= start <= k <= s.len(),
        start < s.len(),
        k > start ==> s[k - 1] == '/',
        forall|j: int| k <= j < s.len() ==> s[j] != '/',
    ensures
        piece_start(s, start) == k,
    decreases s.len(),
{
    if s.len() > k {
        assert(s.last() != '/');
        let d = s.drop_last();
        if d.len() > start {
            lemma_piece_start_stops(d, k, start);
        }
    }
}

/// A name that can stand for one component.
pub open spec fn plain_name(name: Seq<char>) -> bool {
    !is_skipped(name) && forall|j: int| 0 <= j < name.len() ==> name[j] != '/'
}

/// Joining a name to a path adds exactly that component.
pub proof fn lemma_join_adds_component(base: Seq<char>, name: Seq<char>)
    requires
        plain_name(name),
    ensures
        components(joined(base, name)) == components(base).push(name),
{
    let path = joined(base, name);
    let start = body_start(base);
    assert(name.len() > 0 && name[0] != '/');
    if base.len() == 0 {
        assert(path =~= name);
        if body_start(name) == 1 {
            assert(name.len() == 1);
            assert(name =~= seq!['.']);
        }
        lemma_piece_start_stops(path, 0, 0);
        assert(last_piece(path, 0) =~= name);
        assert(before_last_piece(path, 0) =~= base);
        assert(components_from(base, 0) =~= Seq::<Seq<char>>::empty());
        assert(components(path) =~= components(base).push(name));
    } else if base.last() == '/' {
        assert(path =~= base + name);
        assert(path[0] == base[0]);
        if base.len() == 1 {
            assert(start == 1);
            assert(body_start(path) == 1);
            lemma_piece_start_stops(path, 1, 1);
            assert(last_piece(path, 1) =~= name);
            assert(before_last_piece(path, 1) =~= base);
            assert(components(path) =~= components(base).push(name));
        } else {
            assert(path[1] == base[1]);
            assert(body_start(path) == start);
            lemma_piece_start_stops(path, base.len() as int, start);
            assert(last_piece(path, start) =~= name);
            lemma_piece_start_stops(base, base.len() as int, start);
            assert(last_piece(base, start) =~= Seq::<char>::empty());
            assert(before_last_piece(path, start) =~= before_last_piece(base, start));
            assert(components(path) =~= components(base).push(name));
        }
    } else {
        assert(path =~= base + seq!['/'] + name);
        assert(path[0] == base[0]);
        assert(path[base.len() as int] == '/');
        if base.len() > 1 {
            assert(path[1] == base[1]);
        }
        assert(body_start(path) == start);
        lemma_piece_start_stops(path, base.len() as int + 1, start);
        assert(last_piece(path, start) =~= name);
        assert(before_last_piece(path, start) =~= base);
        assert(components(path) =~= components(base).push(name));
    }
}

/// What `file_name_of` gives is a plain name.
pub proof fn lemma_file_name_is_plain(s: Seq<char>)
    ensures
        file_name_of(s) matches Some(name) ==> plain_name(name),
{
    let start = body_start(s);
    let t = without_tail(s, start);
    lemma_without_tail(s, start);
    if t.len() > start {
        lemma_piece_start(t, start);
    }
}

/// Dropping trailing separators and `.` pieces keeps the components.
pub proof fn lemma_without_tail(s: Seq<char>, start: int)
    requires
        0 <= start,
    ensures
        without_tail(s, start).len() <= s.len(),
        s.len() >= start ==> without_tail(s, start).len() >= start,
        without_tail(s, start).len() > start ==> !is_skipped(
            last_piece(without_tail(s, start), start),
        ),
        without_tail(s, start) == s.take(without_tail(s, start).len() as int),
        components_from(without_tail(s, start), start) == components_from(s, start),
    decreases s.len(),
{
    assert(s.take(s.len() as int) =~= s);
    if s.len() > start && is_skipped(last_piece(s, start)) {
        lemma_piece_start(s, start);
        let rest = before_last_piece(s, start);
        lemma_without_tail(rest, start);
        let t = without_tail(rest, start);
        assert(rest.take(t.len() as int) =~= s.take(t.len() as int));
    }
}

/// A path that lies under a directory stays under it with a name joined.
pub proof fn lemma_join_stays_under(dir: Seq<char>, base: Seq<char>, name: Seq<char>)
    requires
        under(dir, base),
        plain_name(name),
    ensures
        under(joined(dir, name), base),
{
    lemma_join_adds_component(dir, name);
    let a = components(dir);
    let b = components(base);
    assert(a.push(name).subrange(0, b.len() as int) =~= a.subrange(0, b.len() as int));
}

// ---------------------------------------------------------------------------
// The functions
// ---------------------------------------------------------------------------

fn body_start_of(s: &Vec<char>) -> (r: usize)
    ensures
        r as int == body_start(s@),
        r <= s.len(),
{
    if s.len() > 0 && s[0] == '/' {
        1
    } else if s.len() > 0 && s[0] == '.' && (s.len() == 1 || s[1] == '/') {
        1
    } else {
        0
    }
}

/// Where the last piece of the first `end` characters begins.
fn piece_start_of(s: &Vec<char>, end: usize, start: usize) -> (r: usize)
    requires
        start <= end <= s.len(),
    ensures
        r as int == piece_start(s@.take(end as int), start as int),
        start <= r <= end,
{
    let mut i: usize = end;
    while i > start && s[i - 1] != '/'
        invariant
            start <= i <= end <= s.len(),
            piece_start(s@.take(end as int), start as int) == piece_start(
                s@.take(i as int),
                start as int,
            ),
        decreases i,
    {
        assert(s@.take(i as int).drop_last() =~= s@.take(i as int - 1));
        i = i - 1;
    }
    i
}

fn skipped(s: &Vec<char>, from: usize, to: usize) -> (r: bool)
    requires
        from <= to <= s.len(),
    ensures
        r == is_skipped(s@.subrange(from as int, to as int)),
{
    let ghost piece = s@.subrange(from as int, to as int);
    if from == to {
        true
    } else if to - from == 1 {
        assert(piece[0] == s@[from as int]);
        assert(s@[from as int] == '.' ==> piece =~= seq!['.']);
        s[from] == '.'
    } else {
        assert(piece.len() > 1);
        false
    }
}

/// The end of the path without its tail.
fn tail_of(s: &Vec<char>, end: usize, start: usize) -> (r: usize)
    requires
        start <= end <= s.len(),
    ensures
        start <= r <= end,
        s@.take(r as int) == without_tail(s@.take(end as int), start as int),
{
    let mut e: usize = end;
    while e > start
        invariant
            start <= e <= end <= s.len(),
            without_tail(s@.take(end as int), start as int) == without_tail(
                s@.take(e as int),
                start as int,
            ),
        decreases e,
    {
        let ghost cur = s@.take(e as int);
        let p: usize = piece_start_of(s, e, start);
        assert(cur.skip(p as int) =~= s@.subrange(p as int, e as int));
        if !skipped(s, p, e) {
            return e;
        }
        proof {
            lemma_piece_start(cur, start as int);
        }
        let next: usize = if p > start {
            p - 1
        } else {
            start
        };
        assert(before_last_piece(cur, start as int) =~= s@.take(next as int));
        e = next;
    }
    e
}

/// The parent of a path.
pub fn parent(s: &str) -> (r: Option<String>)
    ensures
        match r {
            Some(p) => parent_of(s@) == Some(p@),
            None => parent_of(s@) is None,
        },
{
    let chars = chars_of(s);
    let start: usize = body_start_of(&chars);
    assert(chars@.take(chars@.len() as int) =~= s@);
    let end: usize = tail_of(&chars, chars.len(), start);
    let ghost t = chars@.take(end as int);
    if end > start {
        proof {
            lemma_piece_start(t, start as int);
        }
        let p: usize = piece_start_of(&chars, end, start);
        let next: usize = if p > start {
            p - 1
        } else {
            start
        };
        assert(before_last_piece(t, start as int) =~= chars@.take(next as int));
        let e: usize = tail_of(&chars, next, start);
        let out = text_of(&chars, 0, e);
        assert(out@ =~= chars@.take(e as int));
        Some(out)
    } else if end > 0 && chars[0] == '.' {
        assert(t[0] == chars@[0]);
        let out = text_of(&chars, 0, 0);
        assert(out@ =~= Seq::<char>::empty());
        Some(out)
    } else {
        assert(t.len() > 0 ==> t[0] == chars@[0]);
        None
    }
}

/// The file name of a path.
pub fn file_name(s: &str) -> (r: Option<String>)
    ensures
        match r {
            Some(n) => file_name_of(s@) == Some(n@),
            None => file_name_of(s@) is None,
        },
{
    let chars = chars_of(s);
    let start: usize = body_start_of(&chars);
    assert(chars@.take(chars@.len() as int) =~= s@);
    let end: usize = tail_of(&chars, chars.len(), start);
    let ghost t = chars@.take(end as int);
    if end > start {
        let p: usize = piece_start_of(&chars, end, start);
        assert(last_piece(t, start as int) =~= chars@.subrange(p as int, end as int));
        if end - p == 2 && chars[p] == '.' && chars[p + 1] == '.' {
            assert(last_piece(t, start as int) =~= seq!['.', '.']);
            None
        } else {
            proof {
                let piece = last_piece(t, start as int);
                if piece =~= seq!['.', '.'] {
                    assert(piece.len() == 2 && piece[0] == '.' && piece[1] == '.');
                }
            }
            Some(text_of(&chars, p, end))
        }
    } else {
        None
    }
}

/// Whether a path begins at the root.
pub fn is_absolute(s: &str) -> (r: bool)
    ensures
        r == absolute(s@),
{
    s.unicode_len() > 0 && s.get_char(0) == '/'
}

/// `path` seen from `base`.
pub fn join(base: &str, path: &str) -> (r: String)
    ensures
        r@ == joined(base@, path@),
{
    if is_absolute(path) {
        return path.to_owned();
    }
    let n: usize = base.unicode_len();
    if n == 0 || base.get_char(n - 1) == '/' {
        cat2(base, path)
    } else {
        proof {
            reveal_strlit("/");
        }
        assert("/"@ =~= seq!['/']);
        cat3(base, "/", path)
    }
}

fn components_up_to(chars: &Vec<char>, end: usize, start: usize) -> (r: Vec<String>)
    requires
        start <= end <= chars.len(),
    ensures
        r@.map_values(|s: String| s@) == components_from(chars@.take(end as int), start as int),
    decreases end,
{
    let ghost cur = chars@.take(end as int);
    if end <= start {
        if end == 0 {
            let out: Vec<String> = Vec::new();
            assert(out@.map_values(|s: String| s@) =~= Seq::<Seq<char>>::empty());
            return out;
        }
        let mut out: Vec<String> = Vec::new();
        let only = text_of(chars, 0, end);
        assert(only@ =~= cur);
        out.push(only);
        assert(out@.map_values(|s: String| s@) =~= seq![cur]);
        return out;
    }
    proof {
        lemma_piece_start(cur, start as int);
    }
    let p: usize = piece_start_of(chars, end, start);
    let next: usize = if p > start {
        p - 1
    } else {
        start
    };
    assert(before_last_piece(cur, start as int) =~= chars@.take(next as int));
    assert(last_piece(cur, start as int) =~= chars@.subrange(p as int, end as int));
    let mut out = components_up_to(chars, next, start);
    if !skipped(chars, p, end) {
        let ghost before = out@;
        let piece = text_of(chars, p, end);
        out.push(piece);
        assert(out@.map_values(|s: String| s@) =~= before.map_values(|s: String| s@).push(piece@));
    }
    out
}

/// The components of a path.
fn components_of(s: &str) -> (r: Vec<String>)
    ensures
        r@.map_values(|s: String| s@) == components(s@),
{
    let chars = chars_of(s);
    assert(chars@.take(chars@.len() as int) =~= s@);
    let start: usize = body_start_of(&chars);
    components_up_to(&chars, chars.len(), start)
}

/// Whether `path` lies under `base`.
pub fn starts_with(path: &str, base: &str) -> (r: bool)
    ensures
        r == under(path@, base@),
{
    let a = components_of(path);
    let b = components_of(base);
    let ghost x = components(path@);
    let ghost y = components(base@);
    assert(a@.len() == x.len() && b@.len() == y.len());
    if b.len() > a.len() {
        return false;
    }
    let mut i: usize = 0;
    while i < b.len()
        invariant
            i <= b.len() <= a.len(),
            x == components(path@),
            y == components(base@),
            a@.map_values(|s: String| s@) == x,
            b@.map_values(|s: String| s@) == y,
            forall|j: int| 0 <= j < i ==> x[j] == y[j],
        decreases b.len() - i,
    {
        assert(x[i as int] == a@[i as int]@ && y[i as int] == b@[i as int]@);
        if !same_text(a[i].as_str(), b[i].as_str()) {
            assert(x.subrange(0, y.len() as int)[i as int] != y[i as int]);
            return false;
        }
        i = i + 1;
    }
    assert(x.subrange(0, y.len() as int) =~= y);
    true
}

/// Whether two texts name the same path.
pub fn paths_equal(a: &str, b: &str) -> (r: bool)
    ensures
        r == same_path(a@, b@),
{
    let ab = starts_with(a, b);
    let ba = starts_with(b, a);
    let ghost x = components(a@);
    let ghost y = components(b@);
    proof {
        if ab && ba {
            assert(x.len() == y.len());
            assert(x.subrange(0, y.len() as int) =~= x);
        }
        if x == y {
            assert(x.subrange(0, y.len() as int) =~= y);
        }
    }
    ab && ba
}

/// Whether one of `paths` names the same path as `path`.
pub fn contains_path(paths: &Vec<String>, path: &str) -> (r: bool)
    ensures
        r == lists_path(paths@, path@),
{
    let mut i: usize = 0;
    while i < paths.len()
        invariant
            i <= paths.len(),
            forall|j: int| 0 <= j < i ==> !same_path(#[trigger] paths@[j]@, path@),
        decreases paths.len() - i,
    {
        if paths_equal(paths[i].as_str(), path) {
            return true;
        }
        i = i + 1;
    }
    false
}

/// Whether `path` lies under one of `roots`.
pub fn starts_with_any(path: &str, roots: &Vec<String>) -> (r: bool)
    ensures
        r == under_any(path@, roots@),
{
    let mut i: usize = 0;
    while i < roots.len()
        invariant
            i <= roots.len(),
            forall|j: int| 0 <= j < i ==> !under(path@, #[trigger] roots@[j]@),
        decreases roots.len() - i,
    {
        if starts_with(path, roots[i].as_str()) {
            return true;
        }
        i = i + 1;
    }
    false
}

} // verus!
