//! The cap on what a tool returns.
use vstd::prelude::*;
use vstd::string::*;
use vstd::utf8::*;

use crate::text::{chars_of, decimal, decimal_text, text_of};

verus! {

/// The largest tool output that is returned whole, in bytes.
pub const OUTPUT_CAP: usize = 1048576;

/// The length of a text in bytes.
pub open spec fn byte_len(s: Seq<char>) -> nat {
    encode_utf8(s).len()
}

/// The length of a character in bytes.
pub open spec fn char_bytes(c: char) -> nat {
    encode_scalar(c as u32).len()
}

/// How many leading characters fit in `cap` bytes.
pub open spec fn fitting(s: Seq<char>, cap: int) -> nat
    decreases s.len(),
{
    if s.len() == 0 || char_bytes(s[0]) > cap {
        0
    } else {
        1 + fitting(s.drop_first(), cap - char_bytes(s[0]))
    }
}

/// A text cut at the last character that ends within the cap, with a note on
/// the cut; a text within the cap stays whole.
pub open spec fn capped(text: Seq<char>) -> Seq<char> {
    if byte_len(text) > OUTPUT_CAP {
        let head = text.take(fitting(text, OUTPUT_CAP as int) as int);
        head + "\n\n[output truncated: "@ + decimal(byte_len(text)) + " bytes total, showing first "@
            + decimal(byte_len(head)) + "]"@
    } else {
        text
    }
}

proof fn lemma_byte_len_next(s: Seq<char>, k: int)
    requires
        0 <= k < s.len(),
    ensures
        byte_len(s.take(k + 1)) == byte_len(s.take(k)) + char_bytes(s[k]),
    decreases k,
{
    if k == 0 {
        assert(s.take(1).drop_first() =~= Seq::<char>::empty());
        assert(s.take(0) =~= Seq::<char>::empty());
        assert(encode_utf8(s.take(1)) =~= encode_scalar(s[0] as u32) + encode_utf8(
            Seq::<char>::empty(),
        ));
    } else {
        let d = s.drop_first();
        lemma_byte_len_next(d, k - 1);
        assert(s.take(k + 1).drop_first() =~= d.take(k));
        assert(s.take(k).drop_first() =~= d.take(k - 1));
    }
}

/// What is kept fits in the cap, and one more character would not.
pub proof fn law_fitting_is_the_longest_prefix(s: Seq<char>, cap: int)
    requires
        0 <= cap,
    ensures
        fitting(s, cap) <= s.len(),
        byte_len(s.take(fitting(s, cap) as int)) <= cap,
        fitting(s, cap) < s.len() ==> byte_len(s.take(fitting(s, cap) as int + 1)) > cap,
    decreases s.len(),
{
    if s.len() == 0 || char_bytes(s[0]) > cap {
        assert(s.take(0) =~= Seq::<char>::empty());
        if s.len() > 0 {
            lemma_byte_len_next(s, 0);
        }
    } else {
        let d = s.drop_first();
        law_fitting_is_the_longest_prefix(d, cap - char_bytes(s[0]));
        let k = fitting(s, cap) as int;
        assert(s.take(k).drop_first() =~= d.take(k - 1));
        assert(s.take(k)[0] == s[0]);
        if k < s.len() {
            assert(s.take(k + 1).drop_first() =~= d.take(k));
            assert(s.take(k + 1)[0] == s[0]);
        }
    }
}

proof fn lemma_longer_takes_more(s: Seq<char>, j: int, k: int)
    requires
        0 <= j <= k <= s.len(),
    ensures
        byte_len(s.take(j)) <= byte_len(s.take(k)),
    decreases k - j,
{
    if j < k {
        lemma_longer_takes_more(s, j, k - 1);
        lemma_byte_len_next(s, k - 1);
    }
}

/// An output within a megabyte is returned whole. A larger one keeps its
/// beginning: as many whole characters as fit, and a note on how many bytes
/// there were and how many are shown.
pub proof fn law_output_is_kept_up_to_the_cap(text: Seq<char>, k: int)
    requires
        0 <= k < text.len(),
    ensures
        byte_len(text) <= 1048576 ==> capped(text) == text,
        byte_len(text.take(k)) <= 1048576 < byte_len(text.take(k + 1)) ==> capped(text)
            == text.take(k) + "\n\n[output truncated: "@ + decimal(byte_len(text))
            + " bytes total, showing first "@ + decimal(byte_len(text.take(k))) + "]"@,
{
    if byte_len(text.take(k)) <= 1048576 < byte_len(text.take(k + 1)) {
        lemma_longer_takes_more(text, k + 1, text.len() as int);
        assert(text.take(text.len() as int) =~= text);
        law_fitting_is_the_longest_prefix(text, 1048576);
        let f = fitting(text, 1048576) as int;
        if f < k {
            lemma_longer_takes_more(text, f + 1, k);
        }
        if k < f {
            lemma_longer_takes_more(text, k + 1, f);
        }
    }
}

fn width(c: char) -> (r: usize)
    ensures
        r as nat == char_bytes(c),
        1 <= r <= 4,
{
    let v: u32 = c as u32;
    if v <= 0x7F {
        1
    } else if v <= 0x7FF {
        2
    } else if v <= 0xFFFF {
        3
    } else {
        4
    }
}

/// The output, cut at the cap with an explicit note.
pub fn cap_output(text: &str) -> (r: String)
    ensures
        r@ == capped(text@),
{
    let total: usize = text.as_bytes().len();
    if total <= OUTPUT_CAP {
        return text.to_owned();
    }
    let chars = chars_of(text);
    let ghost s = text@;
    let mut k: usize = 0;
    let mut used: usize = 0;
    assert(s.skip(0) =~= s);
    assert(s.take(0) =~= Seq::<char>::empty());
    while k < chars.len()
        invariant
            k <= chars.len(),
            chars@ == s,
            s == text@,
            total as nat == byte_len(s),
            total > OUTPUT_CAP,
            used <= OUTPUT_CAP,
            used as nat == byte_len(s.take(k as int)),
            fitting(s, OUTPUT_CAP as int) == k + fitting(s.skip(k as int), OUTPUT_CAP - used),
        decreases chars.len() - k,
    {
        let w: usize = width(chars[k]);
        assert(s.skip(k as int)[0] == s[k as int]);
        if w > OUTPUT_CAP - used {
            let mut out = text_of(&chars, 0, k);
            assert(out@ =~= s.take(k as int));
            out.append("\n\n[output truncated: ");
            out.append(decimal_text(total as u64).as_str());
            out.append(" bytes total, showing first ");
            out.append(decimal_text(used as u64).as_str());
            out.append("]");
            return out;
        }
        proof {
            lemma_byte_len_next(s, k as int);
            assert(s.skip(k as int).drop_first() =~= s.skip(k + 1));
        }
        used = used + w;
        k = k + 1;
    }
    assert(s.take(k as int) =~= s);
    text.to_owned()
}

} // verus!
