//! What trimming, splitting, ordering and spelling numbers come to.
use vstd::prelude::*;
use vstd::string::*;

use crate::text::{
    blank, decimal, digits_value, first_index, is_space, lines, opt_text, parsed_number, signed_decimal,
    split_at_first, text_before, trimmed, trimmed_end, trimmed_start,
};

verus! {

// ---------------------------------------------------------------------------
// Numbers
// ---------------------------------------------------------------------------

/// A decimal digit.
pub open spec fn is_digit(c: char) -> bool {
    '0' <= c <= '9'
}

proof fn lemma_decimal(n: nat)
    ensures
        digits_value(decimal(n)) == Some(n),
        decimal(n).len() > 0,
        forall|i: int| 0 <= i < decimal(n).len() ==> is_digit(#[trigger] decimal(n)[i]),
        decimal(n)[0] == '0' ==> n == 0,
    decreases n,
{
    if n < 10 {
        let s = decimal(n);
        assert(s.drop_last() =~= Seq::<char>::empty());
        assert(digits_value(Seq::<char>::empty()) == Some(0nat));
        assert(s.last() == s[0]);
    } else {
        let head = decimal(n / 10);
        lemma_decimal(n / 10);
        let s = decimal(n);
        assert(s.drop_last() =~= head);
        assert(s[0] == head[0]);
        assert forall|i: int| 0 <= i < s.len() implies is_digit(#[trigger] s[i]) by {
            if i < head.len() {
                assert(s[i] == head[i]);
            }
        }
    }
}

/// A number is spelled in decimal digits, without leading zeros, and reads back
/// as itself.
pub proof fn law_numbers_read_back(n: nat, max: nat)
    ensures
        decimal(n).len() > 0,
        forall|i: int| 0 <= i < decimal(n).len() ==> is_digit(#[trigger] decimal(n)[i]),
        n > 0 ==> decimal(n)[0] != '0',
        n <= max ==> parsed_number(decimal(n), max) == Some(n),
        n > max ==> parsed_number(decimal(n), max) is None,
{
    lemma_decimal(n);
    assert(is_digit(decimal(n)[0]));
}

/// A negative number has a minus sign in front of its digits, and no other has.
pub proof fn law_signs_go_in_front(n: nat)
    ensures
        signed_decimal(n as int) == decimal(n),
        n > 0 ==> signed_decimal(-n) == seq!['-'] + decimal(n),
{
}

/// Every further digit counts ten times what stands before it, up to the
/// largest number allowed.
pub proof fn law_digits_count_by_place(s: Seq<char>, c: char, max: nat, n: nat)
    requires
        parsed_number(s, n) == Some(n),
        is_digit(c),
    ensures
        ({
            let value = (n * 10 + (c as u32 - '0' as u32)) as nat;
            &&& value <= max ==> parsed_number(s.push(c), max) == Some(value)
            &&& value > max ==> parsed_number(s.push(c), max) is None
        }),
{
    let t = s.push(c);
    let digits = if s[0] == '+' {
        s.drop_first()
    } else {
        s
    };
    let more = if t[0] == '+' {
        t.drop_first()
    } else {
        t
    };
    assert(more =~= digits.push(c));
    assert(more.drop_last() =~= digits);
}

proof fn lemma_not_all_digits(s: Seq<char>, i: int)
    requires
        0 <= i < s.len(),
        !is_digit(s[i]),
    ensures
        digits_value(s) is None,
    decreases s.len(),
{
    if i < s.len() - 1 {
        let rest = s.drop_last();
        assert(rest[i] == s[i]);
        lemma_not_all_digits(rest, i);
    }
}

/// Nothing but digits makes a number: not an empty text, nor one with any other
/// character, but for one plus sign in front.
pub proof fn law_only_digits_make_a_number(s: Seq<char>, max: nat, i: int)
    ensures
        parsed_number(Seq::<char>::empty(), max) is None,
        parsed_number(seq!['+'], max) is None,
        0 <= i < s.len() && !is_digit(s[i]) && (i > 0 || s[i] != '+') ==> parsed_number(s, max)
            is None,
        s.len() > 0 && s[0] != '+' ==> parsed_number(seq!['+'] + s, max) == parsed_number(s, max),
{
    assert(seq!['+'].drop_first() =~= Seq::<char>::empty());
    if 0 <= i < s.len() && !is_digit(s[i]) && (i > 0 || s[i] != '+') {
        if s[0] == '+' {
            let digits = s.drop_first();
            assert(digits[i - 1] == s[i]);
            lemma_not_all_digits(digits, i - 1);
        } else {
            lemma_not_all_digits(s, i);
        }
    }
    if s.len() > 0 {
        assert((seq!['+'] + s).drop_first() =~= s);
    }
}

// ---------------------------------------------------------------------------
// Blanks
// ---------------------------------------------------------------------------

/// Spaces, tabs and line ends are blanks; what can be seen of ASCII is none.
pub proof fn law_blanks_cannot_be_seen(c: char)
    ensures
        is_space(' ') && is_space('\t') && is_space('\n') && is_space('\r'),
        '!' <= c <= '~' ==> !is_space(c),
        c <= ' ' ==> (is_space(c) <==> c == ' ' || '\t' <= c <= '\r'),
        c > '~' ==> (is_space(c) <==> c == '\u{85}' || c == '\u{a0}' || c == '\u{1680}' || '\u{2000}'
            <= c <= '\u{200a}' || c == '\u{2028}' || c == '\u{2029}' || c == '\u{202f}' || c
            == '\u{205f}' || c == '\u{3000}'),
{
}

proof fn lemma_trims_start(a: Seq<char>, m: Seq<char>)
    requires
        blank(a),
        m.len() == 0 || !is_space(m[0]),
    ensures
        trimmed_start(a + m) == m,
    decreases a.len(),
{
    let s = a + m;
    if a.len() == 0 {
        assert(s =~= m);
    } else {
        assert(s[0] == a[0]);
        assert(is_space(a[0]));
        let rest = a.drop_first();
        assert forall|i: int| 0 <= i < rest.len() implies is_space(#[trigger] rest[i]) by {
            assert(rest[i] == a[i + 1]);
        }
        lemma_trims_start(rest, m);
        assert(s.drop_first() =~= rest + m);
    }
}

proof fn lemma_trims_end(m: Seq<char>, b: Seq<char>)
    requires
        blank(b),
        m.len() == 0 || !is_space(m.last()),
    ensures
        trimmed_end(m + b) == m,
    decreases b.len(),
{
    let s = m + b;
    if b.len() == 0 {
        assert(s =~= m);
    } else {
        assert(s.last() == b[b.len() - 1]);
        assert(is_space(b[b.len() - 1]));
        let rest = b.drop_last();
        assert forall|i: int| 0 <= i < rest.len() implies is_space(#[trigger] rest[i]) by {
            assert(rest[i] == b[i]);
        }
        lemma_trims_end(m, rest);
        assert(s.drop_last() =~= m + rest);
    }
}

/// Trimming takes the blanks off both ends, all of them, and nothing else.
pub proof fn law_trimming_takes_the_blanks_off(a: Seq<char>, m: Seq<char>, b: Seq<char>)
    requires
        blank(a),
        blank(b),
        m.len() > 0,
        !is_space(m[0]),
        !is_space(m.last()),
    ensures
        trimmed(a + m + b) == m,
        trimmed_start(a + m + b) == m + b,
        trimmed_end(a + m + b) == a + m,
        !blank(a + m + b),
{
    let inner = m + b;
    assert(inner[0] == m[0]);
    assert(a + m + b =~= a + inner);
    lemma_trims_start(a, inner);
    lemma_trims_end(m, b);
    assert((a + m).last() == m.last());
    lemma_trims_end(a + m, b);
    let all = a + m + b;
    assert(all[a.len() as int] == m[0]);
}

// ---------------------------------------------------------------------------
// Splitting
// ---------------------------------------------------------------------------

proof fn lemma_first_place(a: Seq<char>, c: char, b: Seq<char>)
    requires
        !a.contains(c),
    ensures
        first_index(a + seq![c] + b, c) == Some(a.len() as int),
    decreases a.len(),
{
    let s = a + seq![c] + b;
    if a.len() == 0 {
        assert(s[0] == c);
    } else {
        assert(s[0] == a[0]);
        assert(a.contains(a[0]));
        let rest = a.drop_first();
        assert forall|x: char| rest.contains(x) implies a.contains(x) by {
            let i = choose|i: int| 0 <= i < rest.len() && rest[i] == x;
            assert(a[i + 1] == x);
        }
        lemma_first_place(rest, c, b);
        assert(s.drop_first() =~= rest + seq![c] + b);
    }
}

proof fn lemma_no_place(s: Seq<char>, c: char)
    requires
        !s.contains(c),
    ensures
        first_index(s, c) is None,
    decreases s.len(),
{
    if s.len() > 0 {
        assert(s.contains(s[0]));
        let rest = s.drop_first();
        assert forall|x: char| rest.contains(x) implies s.contains(x) by {
            let i = choose|i: int| 0 <= i < rest.len() && rest[i] == x;
            assert(s[i + 1] == x);
        }
        lemma_no_place(rest, c);
    }
}

/// A text splits at the first of a character, into what stands before it and
/// everything behind it; without one it does not split.
pub proof fn law_texts_split_at_the_first(a: Seq<char>, c: char, b: Seq<char>)
    requires
        !a.contains(c),
    ensures
        split_at_first(a + seq![c] + b, c) == Some((a, b)),
        split_at_first(a, c) is None,
{
    lemma_first_place(a, c, b);
    lemma_no_place(a, c);
    let s = a + seq![c] + b;
    assert(s.take(a.len() as int) =~= a);
    assert(s.skip(a.len() as int + 1) =~= b);
}

/// Each line feed ends a line, with the carriage return in front of it; what
/// stands behind the last one is a line as it is, unless it is empty.
pub proof fn law_lines_end_at_line_feeds(line: Seq<char>, rest: Seq<char>)
    requires
        !line.contains('\n'),
    ensures
        line.len() == 0 || line.last() != '\r' ==> lines(line + seq!['\n'] + rest) == seq![line]
            + lines(rest),
        lines(line + seq!['\r'] + seq!['\n'] + rest) == seq![line] + lines(rest),
        line.len() > 0 ==> lines(line) == seq![line],
        lines(Seq::<char>::empty()) == Seq::<Seq<char>>::empty(),
{
    lemma_first_place(line, '\n', rest);
    lemma_no_place(line, '\n');
    let s = line + seq!['\n'] + rest;
    assert(s.take(line.len() as int) =~= line);
    assert(s.skip(line.len() as int + 1) =~= rest);
    let cr = line + seq!['\r'];
    assert forall|i: int| 0 <= i < cr.len() implies cr[i] != '\n' by {
        if i < line.len() {
            assert(line.contains(line[i]));
        }
    }
    lemma_first_place(cr, '\n', rest);
    let t = cr + seq!['\n'] + rest;
    assert(t.take(cr.len() as int) =~= cr);
    assert(t.skip(cr.len() as int + 1) =~= rest);
    assert(cr.last() == '\r');
    assert(cr.drop_last() =~= line);
}

// ---------------------------------------------------------------------------
// The order of names
// ---------------------------------------------------------------------------

/// Texts are ordered by the first place where they differ, by code point; and a
/// text comes behind its own beginnings.
pub proof fn law_the_first_difference_orders(
    common: Seq<char>,
    x: char,
    a: Seq<char>,
    y: char,
    b: Seq<char>,
)
    requires
        x < y,
    ensures
        text_before(common + seq![x] + a, common + seq![y] + b),
        !text_before(common + seq![y] + b, common + seq![x] + a),
        text_before(common, common + seq![x] + a),
        !text_before(common + seq![x] + a, common),
    decreases common.len(),
{
    let left = common + seq![x] + a;
    let right = common + seq![y] + b;
    if common.len() > 0 {
        let rest = common.drop_first();
        law_the_first_difference_orders(rest, x, a, y, b);
        assert(left[0] == common[0] && right[0] == common[0]);
        assert(left.drop_first() =~= rest + seq![x] + a);
        assert(right.drop_first() =~= rest + seq![y] + b);
    } else {
        assert(left[0] == x && right[0] == y);
    }
}

/// An optional text is shown as it is, the empty one too.
pub proof fn law_optional_texts_are_shown(o: Option<String>)
    ensures
        o is None <==> opt_text(o) is None,
        o matches Some(text) ==> opt_text(o) == Some(text@),
{
}

} // verus!
