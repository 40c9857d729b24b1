//! Text primitives: whitespace trimming, line splitting, substring search and
//! replacement, decimal numbers and the order of names.
//!
//! A string is modelled by the sequence of its characters; byte counts are
//! those of its UTF-8 encoding.

use vstd::prelude::*;
use vstd::string::*;
use vstd::utf8::*;

verus! {

/// `String::push`: the given character becomes the last one.
pub assume_specification[ String::push ](s: &mut String, ch: char)
    ensures
        final(s)@ == old(s)@.push(ch),
;

/// The characters with the Unicode `White_Space` property.
pub open spec fn is_space(c: char) -> bool {
    let n = c as u32;
    ||| 0x9 <= n <= 0xd
    ||| n == 0x20
    ||| n == 0x85
    ||| n == 0xa0
    ||| n == 0x1680
    ||| 0x2000 <= n <= 0x200a
    ||| n == 0x2028
    ||| n == 0x2029
    ||| n == 0x202f
    ||| n == 0x205f
    ||| n == 0x3000
}

/// `s` without its leading whitespace.
pub open spec fn trimmed_start(s: Seq<char>) -> Seq<char>
    decreases s.len(),
{
    if s.len() > 0 && is_space(s[0]) {
        trimmed_start(s.drop_first())
    } else {
        s
    }
}

/// `s` without its trailing whitespace.
pub open spec fn trimmed_end(s: Seq<char>) -> Seq<char>
    decreases s.len(),
{
    if s.len() > 0 && is_space(s.last()) {
        trimmed_end(s.drop_last())
    } else {
        s
    }
}

/// `s` without its leading and trailing whitespace.
pub open spec fn trimmed(s: Seq<char>) -> Seq<char> {
    trimmed_end(trimmed_start(s))
}

/// `s` holds nothing but whitespace.
pub open spec fn blank(s: Seq<char>) -> bool {
    forall|i: int| 0 <= i < s.len() ==> is_space(#[trigger] s[i])
}

/// A text is blank exactly when nothing is left of it after trimming.
pub proof fn lemma_blank_trims_to_nothing(s: Seq<char>)
    ensures
        blank(s) <==> trimmed(s).len() == 0,
        blank(s) <==> trimmed_start(s).len() == 0,
        blank(s) <==> trimmed_end(s).len() == 0,
{
    lemma_trimmed_start_suffix(s);
    lemma_trimmed_end_prefix(s);
    lemma_trimmed_end_prefix(trimmed_start(s));
    let t = trimmed_start(s);
    if t.len() > 0 {
        let k = s.len() - t.len();
        assert(t[0] == s[k]);
        assert(!is_space(s[k]));
        if trimmed_end(t).len() == 0 {
            assert(is_space(t[0]));
        }
    } else {
        assert forall|i: int| 0 <= i < s.len() implies is_space(#[trigger] s[i]) by {}
    }
    let e = trimmed_end(s);
    if e.len() > 0 {
        assert(!is_space(s[e.len() - 1]));
    }
}

/// What trimming the start leaves is a suffix that does not begin with
/// whitespace, and everything before it is whitespace.
pub proof fn lemma_trimmed_start_suffix(s: Seq<char>)
    ensures
        trimmed_start(s).len() <= s.len(),
        trimmed_start(s) == s.subrange(s.len() - trimmed_start(s).len(), s.len() as int),
        trimmed_start(s).len() > 0 ==> !is_space(trimmed_start(s)[0]),
        forall|i: int|
            0 <= i < s.len() - trimmed_start(s).len() ==> is_space(#[trigger] s[i]),
    decreases s.len(),
{
    if s.len() > 0 && is_space(s[0]) {
        let r = s.drop_first();
        lemma_trimmed_start_suffix(r);
        assert forall|i: int|
            0 <= i < s.len() - trimmed_start(s).len() implies is_space(#[trigger] s[i]) by {
            if i > 0 {
                assert(s[i] == r[i - 1]);
            }
        }
    }
}

/// What trimming the end leaves is a prefix that does not end with
/// whitespace, and everything after it is whitespace.
pub proof fn lemma_trimmed_end_prefix(s: Seq<char>)
    ensures
        trimmed_end(s).len() <= s.len(),
        trimmed_end(s) == s.subrange(0, trimmed_end(s).len() as int),
        trimmed_end(s).len() > 0 ==> !is_space(trimmed_end(s).last()),
        forall|i: int| trimmed_end(s).len() <= i < s.len() ==> is_space(#[trigger] s[i]),
    decreases s.len(),
{
    if s.len() > 0 && is_space(s.last()) {
        let r = s.drop_last();
        lemma_trimmed_end_prefix(r);
        assert forall|i: int| trimmed_end(s).len() <= i < s.len() implies is_space(
            #[trigger] s[i],
        ) by {
            if i < s.len() - 1 {
                assert(s[i] == r[i]);
            }
        }
    }
}

/// Whether `c` is whitespace.
pub fn is_whitespace(c: char) -> (r: bool)
    ensures
        r == is_space(c),
{
    let n: u32 = c as u32;
    (0x9 <= n && n <= 0xd) || n == 0x20 || n == 0x85 || n == 0xa0 || n == 0x1680 || (0x2000 <= n
        && n <= 0x200a) || n == 0x2028 || n == 0x2029 || n == 0x202f || n == 0x205f || n == 0x3000
}

/// The characters of `s`.
pub fn chars_of(s: &str) -> (r: Vec<char>)
    ensures
        r@ == s@,
{
    let mut out: Vec<char> = Vec::new();
    for c in iter: s.chars()
        invariant
            out@ == iter.seq().take(iter.index() as int),
            iter.seq() == s@,
    {
        out.push(c);
    }
    out
}

/// The text of the characters `from..to` of `chars`.
pub fn text_of(chars: &Vec<char>, from: usize, to: usize) -> (r: String)
    requires
        from <= to <= chars@.len(),
    ensures
        r@ == chars@.subrange(from as int, to as int),
{
    let mut out = String::new();
    let mut i: usize = from;
    while i < to
        invariant
            from <= i <= to <= chars@.len(),
            out@ == chars@.subrange(from as int, i as int),
        decreases to - i,
    {
        out.push(chars[i]);
        i = i + 1;
        assert(out@ =~= chars@.subrange(from as int, i as int));
    }
    out
}

/// `s` without its leading whitespace.
pub fn trim_start(s: &str) -> (r: &str)
    ensures
        r@ == trimmed_start(s@),
{
    let chars = chars_of(s);
    let mut i: usize = 0;
    assert(s@.skip(0) =~= s@);
    while i < chars.len() && is_whitespace(chars[i])
        invariant
            i <= chars.len(),
            chars@ == s@,
            trimmed_start(s@) == trimmed_start(s@.skip(i as int)),
        decreases chars.len() - i,
    {
        assert(s@.skip(i as int).drop_first() =~= s@.skip(i as int + 1));
        i = i + 1;
    }
    assert(s@.skip(i as int) =~= s@.subrange(i as int, s@.len() as int));
    s.substring_char(i, chars.len())
}

/// `s` without its trailing whitespace.
pub fn trim_end(s: &str) -> (r: &str)
    ensures
        r@ == trimmed_end(s@),
{
    let chars = chars_of(s);
    let mut i: usize = chars.len();
    assert(s@.take(i as int) =~= s@);
    while i > 0 && is_whitespace(chars[i - 1])
        invariant
            i <= chars.len(),
            chars@ == s@,
            trimmed_end(s@) == trimmed_end(s@.take(i as int)),
        decreases i,
    {
        assert(s@.take(i as int).drop_last() =~= s@.take(i as int - 1));
        i = i - 1;
    }
    assert(s@.take(i as int) =~= s@.subrange(0, i as int));
    s.substring_char(0, i)
}

/// `s` without its leading and trailing whitespace.
pub fn trim(s: &str) -> (r: &str)
    ensures
        r@ == trimmed(s@),
{
    trim_end(trim_start(s))
}

/// Whether `s` is empty or holds nothing but whitespace.
pub fn is_blank(s: &str) -> (r: bool)
    ensures
        r == blank(s@),
        r == (trimmed(s@).len() == 0),
{
    proof {
        lemma_blank_trims_to_nothing(s@);
    }
    trim_start(s).is_empty()
}

/// Whether two texts hold the same characters.
pub fn same_text(a: &str, b: &str) -> (r: bool)
    ensures
        r == (a@ == b@),
{
    a.to_owned() == b.to_owned()
}

/// Whether `needle` is one of the texts in `list`.
pub open spec fn lists(list: Seq<String>, needle: Seq<char>) -> bool {
    exists|i: int| 0 <= i < list.len() && (#[trigger] list[i])@ == needle
}

/// Whether `needle` is one of the texts in `list`.
pub fn list_holds(list: &Vec<String>, needle: &str) -> (r: bool)
    ensures
        r == lists(list@, needle@),
{
    let mut i: usize = 0;
    while i < list.len()
        invariant
            i <= list.len(),
            forall|j: int| 0 <= j < i ==> (#[trigger] list@[j])@ != needle@,
        decreases list.len() - i,
    {
        if same_text(list[i].as_str(), needle) {
            return true;
        }
        i = i + 1;
    }
    false
}

/// `a` followed by `b`.
pub fn cat2(a: &str, b: &str) -> (r: String)
    ensures
        r@ == a@ + b@,
{
    let mut s = a.to_owned();
    s.append(b);
    s
}

/// Three texts in a row.
pub fn cat3(a: &str, b: &str, c: &str) -> (r: String)
    ensures
        r@ == a@ + b@ + c@,
{
    let mut s = cat2(a, b);
    s.append(c);
    s
}

/// Four texts in a row.
pub fn cat4(a: &str, b: &str, c: &str, d: &str) -> (r: String)
    ensures
        r@ == a@ + b@ + c@ + d@,
{
    let mut s = cat3(a, b, c);
    s.append(d);
    s
}

/// Five texts in a row.
pub fn cat5(a: &str, b: &str, c: &str, d: &str, e: &str) -> (r: String)
    ensures
        r@ == a@ + b@ + c@ + d@ + e@,
{
    let mut s = cat4(a, b, c, d);
    s.append(e);
    s
}

/// The characters of an optional text.
pub open spec fn opt_text(o: Option<String>) -> Option<Seq<char>> {
    match o {
        Some(s) => Some(s@),
        None => None,
    }
}

// ---------------------------------------------------------------------------
// Decimal numbers
// ---------------------------------------------------------------------------

/// The digit of a value below ten.
pub open spec fn digit(d: nat) -> char {
    if d == 0 {
        '0'
    } else if d == 1 {
        '1'
    } else if d == 2 {
        '2'
    } else if d == 3 {
        '3'
    } else if d == 4 {
        '4'
    } else if d == 5 {
        '5'
    } else if d == 6 {
        '6'
    } else if d == 7 {
        '7'
    } else if d == 8 {
        '8'
    } else {
        '9'
    }
}

/// `n` in decimal, without leading zeros.
pub open spec fn decimal(n: nat) -> Seq<char>
    decreases n,
{
    if n < 10 {
        seq![digit(n)]
    } else {
        decimal(n / 10).push(digit(n % 10))
    }
}

/// `n` in decimal, with a minus sign where it is negative.
pub open spec fn signed_decimal(n: int) -> Seq<char> {
    if n < 0 {
        seq!['-'] + decimal((-n) as nat)
    } else {
        decimal(n as nat)
    }
}

/// The value of a decimal digit.
pub open spec fn digit_value(c: char) -> Option<nat> {
    if '0' <= c <= '9' {
        Some((c as u32 - '0' as u32) as nat)
    } else {
        None
    }
}

/// The number that a sequence of decimal digits stands for; `None` where
/// something else occurs in it.
pub open spec fn digits_value(s: Seq<char>) -> Option<nat>
    decreases s.len(),
{
    if s.len() == 0 {
        Some(0)
    } else {
        match (digits_value(s.drop_last()), digit_value(s.last())) {
            (Some(head), Some(d)) => Some(head * 10 + d),
            _ => None,
        }
    }
}

/// The unsigned number that `s` spells: an optional `+`, then at least one
/// decimal digit, for a value of at most `max`.
pub open spec fn parsed_number(s: Seq<char>, max: nat) -> Option<nat> {
    let digits = if s.len() > 0 && s[0] == '+' {
        s.drop_first()
    } else {
        s
    };
    match digits_value(digits) {
        Some(n) if digits.len() > 0 && n <= max => Some(n),
        _ => None,
    }
}

/// The digit of a value below ten.
fn digit_char(d: u64) -> (c: char)
    requires
        d < 10,
    ensures
        c == digit(d as nat),
{
    if d == 0 {
        '0'
    } else if d == 1 {
        '1'
    } else if d == 2 {
        '2'
    } else if d == 3 {
        '3'
    } else if d == 4 {
        '4'
    } else if d == 5 {
        '5'
    } else if d == 6 {
        '6'
    } else if d == 7 {
        '7'
    } else if d == 8 {
        '8'
    } else {
        '9'
    }
}

/// `n` in decimal.
pub fn decimal_text(n: u64) -> (r: String)
    ensures
        r@ == decimal(n as nat),
    decreases n,
{
    if n < 10 {
        let mut s = String::new();
        s.push(digit_char(n));
        assert(s@ =~= seq![digit(n as nat)]);
        s
    } else {
        let mut s = decimal_text(n / 10);
        s.push(digit_char(n % 10));
        s
    }
}

/// `n` in decimal, with a minus sign where it is negative.
pub fn signed_decimal_text(n: i32) -> (r: String)
    ensures
        r@ == signed_decimal(n as int),
{
    if n < 0 {
        let wide: i64 = n as i64;
        let magnitude: u64 = (-wide) as u64;
        let mut s = String::new();
        s.push('-');
        let ghost sign = s@;
        s.append(decimal_text(magnitude).as_str());
        assert(sign =~= seq!['-']);
        s
    } else {
        decimal_text(n as u64)
    }
}

/// The number that the leading digits stand for never exceeds that of all of
/// them.
proof fn lemma_digits_grow(s: Seq<char>, k: int)
    requires
        0 <= k <= s.len(),
    ensures
        digits_value(s) is Some ==> digits_value(s.take(k)) is Some && digits_value(s.take(k))->0
            <= digits_value(s)->0,
    decreases s.len() - k,
{
    if k < s.len() {
        lemma_digits_grow(s, k + 1);
        assert(s.take(k + 1).drop_last() =~= s.take(k));
    } else {
        assert(s.take(k) =~= s);
    }
}

/// The unsigned number that `s` spells, where it spells one of at most `max`.
pub fn parse_number(s: &str, max: u64) -> (r: Option<u64>)
    ensures
        match r {
            Some(n) => parsed_number(s@, max as nat) == Some(n as nat),
            None => parsed_number(s@, max as nat) is None,
        },
{
    let chars = chars_of(s);
    let start: usize = if chars.len() > 0 && chars[0] == '+' {
        1
    } else {
        0
    };
    let ghost digits = s@.skip(start as int);
    assert(start == 1 ==> digits =~= s@.drop_first());
    assert(start == 0 ==> digits =~= s@);
    if chars.len() == start {
        return None;
    }
    let mut i: usize = start;
    let mut n: u64 = 0;
    while i < chars.len()
        invariant
            start <= i <= chars.len(),
            chars@ == s@,
            digits == s@.skip(start as int),
            digits_value(digits.take(i - start)) == Some(n as nat),
            n <= max,
            digits.len() > 0,
            parsed_number(s@, max as nat) == (match digits_value(digits) {
                Some(v) if digits.len() > 0 && v <= max as nat => Some(v),
                _ => None,
            }),
        decreases chars.len() - i,
    {
        let c = chars[i];
        let ghost k = i - start;
        proof {
            lemma_digits_grow(digits, k + 1);
            assert(digits.take(k + 1).drop_last() =~= digits.take(k));
            assert(digits.take(k + 1).last() == c);
        }
        if c < '0' || c > '9' {
            return None;
        }
        let d: u64 = (c as u32 - '0' as u32) as u64;
        if n > max / 10 {
            assert(n * 10 > max);
            return None;
        }
        if d > max || n * 10 > max - d {
            return None;
        }
        n = n * 10 + d;
        i = i + 1;
    }
    assert(digits.take(i - start) =~= digits);
    Some(n)
}

// ---------------------------------------------------------------------------
// Searching and replacing
// ---------------------------------------------------------------------------

/// `pat` stands in `text` at `i`.
pub open spec fn matches_at(text: Seq<char>, pat: Seq<char>, i: int) -> bool {
    0 <= i && i + pat.len() <= text.len() && text.subrange(i, i + pat.len()) == pat
}

/// The first place at or after `from` where `pat` stands in `text`.
pub open spec fn next_match(text: Seq<char>, pat: Seq<char>, from: int) -> Option<int>
    decreases text.len() + 1 - from,
{
    if from + pat.len() > text.len() {
        None
    } else if matches_at(text, pat, from) {
        Some(from)
    } else {
        next_match(text, pat, from + 1)
    }
}

/// How often `pat` stands in `text` from `from` on, counted from the left
/// without overlaps.
pub open spec fn match_count(text: Seq<char>, pat: Seq<char>, from: int) -> nat
    decreases text.len() - from,
    when pat.len() > 0
{
    match next_match(text, pat, from) {
        None => 0,
        Some(i) => if from <= i && i + pat.len() <= text.len() {
            1 + match_count(text, pat, i + pat.len())
        } else {
            0
        },
    }
}

/// `text` from `from` on, with `with` in the place of every match of `pat`.
pub open spec fn replaced_from(
    text: Seq<char>,
    pat: Seq<char>,
    with: Seq<char>,
    from: int,
) -> Seq<char>
    decreases text.len() - from,
    when pat.len() > 0
{
    match next_match(text, pat, from) {
        None => text.skip(from),
        Some(i) => if from <= i && i + pat.len() <= text.len() {
            text.subrange(from, i) + with + replaced_from(text, pat, with, i + pat.len())
        } else {
            text.skip(from)
        },
    }
}

/// `text` with `with` in the place of every match of `pat`.
pub open spec fn replaced(text: Seq<char>, pat: Seq<char>, with: Seq<char>) -> Seq<char> {
    replaced_from(text, pat, with, 0)
}

/// `text` with `with` in the place of the first match of `pat`.
pub open spec fn replaced_once(text: Seq<char>, pat: Seq<char>, with: Seq<char>) -> Seq<char> {
    match next_match(text, pat, 0) {
        None => text,
        Some(i) => text.take(i) + with + text.skip(i + pat.len()),
    }
}

/// `next_match` finds a match, and none lies before it; where it finds none,
/// there is none.
pub proof fn lemma_next_match(text: Seq<char>, pat: Seq<char>, from: int)
    requires
        0 <= from,
    ensures
        match next_match(text, pat, from) {
            Some(i) => from <= i && matches_at(text, pat, i) && forall|j: int|
                from <= j < i ==> !matches_at(text, pat, j),
            None => forall|j: int| from <= j ==> !matches_at(text, pat, j),
        },
    decreases text.len() + 1 - from,
{
    if from + pat.len() <= text.len() && !matches_at(text, pat, from) {
        lemma_next_match(text, pat, from + 1);
    }
}

/// With exactly one match, replacing every match and replacing the first one
/// come to the same.
pub proof fn lemma_replace_single_match(text: Seq<char>, pat: Seq<char>, with: Seq<char>)
    requires
        pat.len() > 0,
        match_count(text, pat, 0) == 1,
    ensures
        replaced(text, pat, with) == replaced_once(text, pat, with),
{
    lemma_next_match(text, pat, 0);
    let i = next_match(text, pat, 0)->0;
    lemma_next_match(text, pat, i + pat.len());
    assert(match_count(text, pat, i + pat.len()) == 0);
    assert(replaced_from(text, pat, with, i + pat.len()) == text.skip(i + pat.len()));
    assert(text.subrange(0, i) =~= text.take(i));
}

/// Putting the pattern back in place of itself changes nothing.
pub proof fn lemma_replace_by_itself(text: Seq<char>, pat: Seq<char>, from: int)
    requires
        pat.len() > 0,
        0 <= from <= text.len(),
    ensures
        replaced_from(text, pat, pat, from) == text.skip(from),
    decreases text.len() - from,
{
    lemma_next_match(text, pat, from);
    match next_match(text, pat, from) {
        None => {},
        Some(i) => {
            lemma_replace_by_itself(text, pat, i + pat.len());
            assert(text.subrange(from, i) + pat + text.skip(i + pat.len()) =~= text.skip(from));
        },
    }
}

/// The first place at or after `from` where `pat` stands in `text`.
pub fn find_from(text: &Vec<char>, pat: &Vec<char>, from: usize) -> (r: Option<usize>)
    requires
        from <= text.len(),
    ensures
        match r {
            Some(i) => next_match(text@, pat@, from as int) == Some(i as int),
            None => next_match(text@, pat@, from as int) is None,
        },
{
    if pat.len() > text.len() - from {
        return None;
    }
    let last: usize = text.len() - pat.len();
    let mut i: usize = from;
    loop
        invariant
            from <= i <= last,
            last == text.len() - pat.len(),
            pat.len() <= text.len(),
            next_match(text@, pat@, from as int) == next_match(text@, pat@, i as int),
        decreases text.len() - i,
    {
        let mut k: usize = 0;
        while k < pat.len() && text[i + k] == pat[k]
            invariant
                k <= pat.len(),
                i <= last,
                last == text.len() - pat.len(),
                pat.len() <= text.len(),
                forall|j: int| 0 <= j < k ==> text@[i + j] == pat@[j],
            decreases pat.len() - k,
        {
            k = k + 1;
        }
        if k == pat.len() {
            assert(text@.subrange(i as int, i + pat@.len()) =~= pat@);
            return Some(i);
        }
        assert(!matches_at(text@, pat@, i as int)) by {
            assert(text@[i + k] != pat@[k as int]);
            if matches_at(text@, pat@, i as int) {
                assert(text@.subrange(i as int, i + pat@.len())[k as int] == pat@[k as int]);
            }
        }
        if i == last {
            return None;
        }
        i = i + 1;
    }
}

/// How often `pat` stands in `text`, counted from the left without overlaps.
pub fn count_matches(text: &Vec<char>, pat: &Vec<char>) -> (r: usize)
    requires
        pat@.len() > 0,
    ensures
        r as nat == match_count(text@, pat@, 0),
{
    let mut n: usize = 0;
    let mut from: usize = 0;
    loop
        invariant
            from <= text.len(),
            n <= from,
            pat@.len() > 0,
            match_count(text@, pat@, 0) == n + match_count(text@, pat@, from as int),
        decreases text.len() - from,
    {
        proof {
            lemma_next_match(text@, pat@, from as int);
        }
        match find_from(text, pat, from) {
            None => {
                return n;
            },
            Some(i) => {
                n = n + 1;
                from = i + pat.len();
            },
        }
    }
}

/// Appends the characters `from..to` of `chars` to `out`.
fn push_chars(out: &mut String, chars: &Vec<char>, from: usize, to: usize)
    requires
        from <= to <= chars@.len(),
    ensures
        final(out)@ == old(out)@ + chars@.subrange(from as int, to as int),
{
    let mut i: usize = from;
    assert(out@ =~= old(out)@ + chars@.subrange(from as int, from as int));
    while i < to
        invariant
            from <= i <= to <= chars@.len(),
            out@ == old(out)@ + chars@.subrange(from as int, i as int),
        decreases to - i,
    {
        out.push(chars[i]);
        i = i + 1;
        assert(out@ =~= old(out)@ + chars@.subrange(from as int, i as int));
    }
}

/// `text` with `with` in the place of every match of `pat`.
pub fn replace(text: &Vec<char>, pat: &Vec<char>, with: &str) -> (r: String)
    requires
        pat@.len() > 0,
    ensures
        r@ == replaced(text@, pat@, with@),
{
    let mut out = String::new();
    let mut from: usize = 0;
    assert(out@ + replaced_from(text@, pat@, with@, 0) =~= replaced(text@, pat@, with@));
    loop
        invariant
            from <= text.len(),
            pat@.len() > 0,
            replaced(text@, pat@, with@) == out@ + replaced_from(
                text@,
                pat@,
                with@,
                from as int,
            ),
        decreases text.len() - from,
    {
        proof {
            lemma_next_match(text@, pat@, from as int);
        }
        let ghost before = out@;
        match find_from(text, pat, from) {
            None => {
                push_chars(&mut out, text, from, text.len());
                assert(text@.subrange(from as int, text@.len() as int) =~= text@.skip(
                    from as int,
                ));
                return out;
            },
            Some(i) => {
                push_chars(&mut out, text, from, i);
                out.append(with);
                let ghost rest = replaced_from(text@, pat@, with@, i + pat@.len());
                assert(before + (text@.subrange(from as int, i as int) + with@ + rest) =~= before
                    + text@.subrange(from as int, i as int) + with@ + rest);
                from = i + pat.len();
            },
        }
    }
}

/// `text` with `with` in the place of the first match of `pat`.
pub fn replace_once(text: &Vec<char>, pat: &Vec<char>, with: &str) -> (r: String)
    requires
        pat@.len() > 0,
    ensures
        r@ == replaced_once(text@, pat@, with@),
{
    proof {
        lemma_next_match(text@, pat@, 0);
    }
    match find_from(text, pat, 0) {
        None => {
            assert(text@.subrange(0, text@.len() as int) =~= text@);
            text_of(text, 0, text.len())
        },
        Some(i) => {
            let mut out = text_of(text, 0, i);
            assert(out@ =~= text@.take(i as int));
            out.append(with);
            push_chars(&mut out, text, i + pat.len(), text.len());
            assert(text@.subrange(i + pat@.len(), text@.len() as int) =~= text@.skip(
                i + pat@.len(),
            ));
            out
        },
    }
}

/// The first place of `c` in `s`.
pub open spec fn first_index(s: Seq<char>, c: char) -> Option<int>
    decreases s.len(),
{
    if s.len() == 0 {
        None
    } else if s[0] == c {
        Some(0)
    } else {
        match first_index(s.drop_first(), c) {
            Some(i) => Some(i + 1),
            None => None,
        }
    }
}

/// The parts of `s` before and after the first `c`.
pub open spec fn split_at_first(s: Seq<char>, c: char) -> Option<(Seq<char>, Seq<char>)> {
    match first_index(s, c) {
        Some(i) => Some((s.take(i), s.skip(i + 1))),
        None => None,
    }
}

proof fn lemma_first_index(s: Seq<char>, c: char, i: int)
    requires
        0 <= i <= s.len(),
        forall|j: int| 0 <= j < i ==> s[j] != c,
    ensures
        i < s.len() && s[i] == c ==> first_index(s, c) == Some(i),
        i == s.len() ==> first_index(s, c) is None,
    decreases s.len(),
{
    if i > 0 {
        let r = s.drop_first();
        assert forall|j: int| 0 <= j < i - 1 implies r[j] != c by {
            assert(r[j] == s[j + 1]);
        }
        lemma_first_index(r, c, i - 1);
    }
}

/// The parts of `s` before and after the first `c`.
pub fn split_once(s: &str, c: char) -> (r: Option<(&str, &str)>)
    ensures
        match r {
            Some((a, b)) => split_at_first(s@, c) == Some((a@, b@)),
            None => split_at_first(s@, c) is None,
        },
{
    let chars = chars_of(s);
    let mut i: usize = 0;
    while i < chars.len() && chars[i] != c
        invariant
            i <= chars.len(),
            chars@ == s@,
            forall|j: int| 0 <= j < i ==> s@[j] != c,
        decreases chars.len() - i,
    {
        i = i + 1;
    }
    proof {
        lemma_first_index(s@, c, i as int);
    }
    if i == chars.len() {
        return None;
    }
    let a = s.substring_char(0, i);
    let b = s.substring_char(i + 1, chars.len());
    assert(a@ =~= s@.take(i as int));
    assert(b@ =~= s@.skip(i as int + 1));
    Some((a, b))
}

// ---------------------------------------------------------------------------
// Lines
// ---------------------------------------------------------------------------

/// A line without the carriage return that precedes its line feed.
pub open spec fn without_cr(line: Seq<char>) -> Seq<char> {
    if line.len() > 0 && line.last() == '\r' {
        line.drop_last()
    } else {
        line
    }
}

/// The lines of `s`: each ends with `\n` or `\r\n`, the last one may end with
/// the text.
pub open spec fn lines(s: Seq<char>) -> Seq<Seq<char>>
    decreases s.len(),
{
    if s.len() == 0 {
        Seq::empty()
    } else {
        match first_index(s, '\n') {
            Some(i) => if 0 <= i < s.len() {
                seq![without_cr(s.take(i))] + lines(s.skip(i + 1))
            } else {
                Seq::empty()
            },
            None => seq![s],
        }
    }
}

/// The texts of a list.
pub open spec fn texts(list: Seq<String>) -> Seq<Seq<char>> {
    list.map_values(|s: String| s@)
}

/// The lines of `s`.
pub fn lines_of(s: &str) -> (r: Vec<String>)
    ensures
        texts(r@) == lines(s@),
{
    let chars = chars_of(s);
    let mut out: Vec<String> = Vec::new();
    let mut from: usize = 0;
    assert(s@.skip(0) =~= s@);
    assert(texts(out@) + lines(s@.skip(0)) =~= lines(s@));
    while from < chars.len()
        invariant
            from <= chars.len(),
            chars@ == s@,
            lines(s@) == texts(out@) + lines(s@.skip(from as int)),
        decreases chars.len() - from,
    {
        let ghost rest = s@.skip(from as int);
        let mut i: usize = from;
        while i < chars.len() && chars[i] != '\n'
            invariant
                from <= i <= chars.len(),
                chars@ == s@,
                rest == s@.skip(from as int),
                forall|j: int| 0 <= j < i - from ==> rest[j] != '\n',
            decreases chars.len() - i,
        {
            i = i + 1;
        }
        proof {
            lemma_first_index(rest, '\n', i - from);
        }
        let ghost before = out@;
        if i == chars.len() {
            let line = text_of(&chars, from, i);
            assert(line@ =~= rest);
            out.push(line);
            assert(texts(out@) =~= texts(before) + seq![rest]);
            from = i;
            assert(s@.skip(from as int).len() == 0);
            assert(texts(out@) + lines(s@.skip(from as int)) =~= texts(out@));
        } else {
            let end: usize = if i > from && chars[i - 1] == '\r' {
                i - 1
            } else {
                i
            };
            let line = text_of(&chars, from, end);
            proof {
                let whole = rest.take(i - from);
                assert(whole =~= chars@.subrange(from as int, i as int));
                if end < i {
                    assert(line@ =~= whole.drop_last());
                } else {
                    assert(line@ =~= whole);
                }
                assert(line@ == without_cr(whole));
                assert(rest.skip(i - from + 1) =~= s@.skip(i + 1));
            }
            let ghost piece = line@;
            out.push(line);
            assert(texts(out@) =~= texts(before) + seq![piece]);
            from = i + 1;
            assert(texts(before) + (seq![piece] + lines(s@.skip(from as int))) =~= texts(out@)
                + lines(s@.skip(from as int)));
        }
    }
    assert(s@.skip(from as int).len() == 0);
    assert(texts(out@) + lines(s@.skip(from as int)) =~= texts(out@));
    out
}

// ---------------------------------------------------------------------------
// The order of names
// ---------------------------------------------------------------------------

/// `a` comes before `b`: at the first place where they differ its character
/// has the smaller code point, or it ends there.
pub open spec fn text_before(a: Seq<char>, b: Seq<char>) -> bool
    decreases a.len(),
{
    if b.len() == 0 {
        false
    } else if a.len() == 0 {
        true
    } else if a[0] == b[0] {
        text_before(a.drop_first(), b.drop_first())
    } else {
        a[0] < b[0]
    }
}

/// No text comes before itself.
pub proof fn lemma_before_irreflexive(a: Seq<char>)
    ensures
        !text_before(a, a),
    decreases a.len(),
{
    if a.len() > 0 {
        lemma_before_irreflexive(a.drop_first());
    }
}

/// The order of texts is transitive.
pub proof fn lemma_before_transitive(a: Seq<char>, b: Seq<char>, c: Seq<char>)
    requires
        text_before(a, b),
        text_before(b, c),
    ensures
        text_before(a, c),
    decreases a.len(),
{
    if a.len() > 0 && a[0] == b[0] && b[0] == c[0] {
        lemma_before_transitive(a.drop_first(), b.drop_first(), c.drop_first());
    }
}

/// Whether `a` comes before `b`.
pub fn comes_before(a: &str, b: &str) -> (r: bool)
    ensures
        r == text_before(a@, b@),
{
    let x = chars_of(a);
    let y = chars_of(b);
    let mut i: usize = 0;
    assert(a@.skip(0) =~= a@ && b@.skip(0) =~= b@);
    while i < x.len() && i < y.len() && x[i] == y[i]
        invariant
            i <= x.len(),
            i <= y.len(),
            x@ == a@,
            y@ == b@,
            text_before(a@, b@) == text_before(a@.skip(i as int), b@.skip(i as int)),
        decreases x.len() - i,
    {
        assert(a@.skip(i as int).drop_first() =~= a@.skip(i as int + 1));
        assert(b@.skip(i as int).drop_first() =~= b@.skip(i as int + 1));
        i = i + 1;
    }
    if i == y.len() {
        false
    } else if i == x.len() {
        true
    } else {
        let p: char = x[i];
        let q: char = y[i];
        p < q
    }
}

} // verus!
