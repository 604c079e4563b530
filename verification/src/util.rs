//! A preview of a long text, for diagnostics.

use crate::text::{
    char_width, decimal, decimal_string, lemma_utf8_concat, lemma_utf8_single, utf8,
};
use vstd::prelude::*;
use vstd::string::*;

verus! {

/// The most bytes of a text that a preview shows.
pub const MAX: usize = 512;

/// The number of bytes that the UTF-8 encoding of `c` takes: from 1 to 4.
pub fn width_of(c: char) -> (w: usize)
    ensures
        w == char_width(c),
        1 <= w <= 4,
{
    let u: u32 = c as u32;
    if u < 0x80 {
        1
    } else if u < 0x800 {
        2
    } else if u < 0x10000 {
        proof {
            vstd::utf8::char_is_scalar(c);
        }
        3
    } else {
        4
    }
}

/// The number of characters at the beginning of `s` whose encodings take
/// `limit` bytes at most, all together.
pub open spec fn fitting_chars(s: Seq<char>, limit: int) -> nat
    decreases s.len(),
{
    if s.len() == 0 || char_width(s.first()) > limit {
        0
    } else {
        1 + fitting_chars(s.drop_first(), limit - char_width(s.first()))
    }
}

/// The beginning that [`fitting_chars`] counts is the longest that keeps to
/// the limit: it takes `limit` bytes at most, and with one more character it
/// would take more.
pub proof fn lemma_fitting_chars_is_longest(s: Seq<char>, limit: int)
    requires
        0 <= limit,
    ensures
        fitting_chars(s, limit) <= s.len(),
        utf8(s.take(fitting_chars(s, limit) as int)).len() <= limit,
        fitting_chars(s, limit) < s.len() ==> utf8(
            s.take(fitting_chars(s, limit) as int + 1),
        ).len() > limit,
    decreases s.len(),
{
    if s.len() == 0 {
        assert(s.take(0) =~= s);
    } else if char_width(s.first()) > limit {
        assert(s.take(0) =~= Seq::<char>::empty());
        assert(s.take(1) =~= seq![s.first()]);
        lemma_utf8_single(s.first());
    } else {
        let rest = s.drop_first();
        let w = char_width(s.first());
        lemma_fitting_chars_is_longest(rest, limit - w);
        let k = fitting_chars(rest, limit - w) as int;
        assert(s.take(k + 1) =~= seq![s.first()] + rest.take(k));
        lemma_utf8_concat(seq![s.first()], rest.take(k));
        lemma_utf8_single(s.first());
        if k < rest.len() {
            assert(s.take(k + 2) =~= seq![s.first()] + rest.take(k + 1));
            lemma_utf8_concat(seq![s.first()], rest.take(k + 1));
        }
    }
}

/// What is shown of a text: the text itself where its encoding takes [`MAX`]
/// bytes at most; else its longest beginning that takes no more, an
/// ellipsis, and the number of bytes of the whole.
pub open spec fn preview(s: Seq<char>) -> Seq<char> {
    if utf8(s).len() > MAX {
        s.take(fitting_chars(s, MAX as int) as int) + "\u{2026} ("@ + decimal(utf8(s).len())
            + " bytes)"@
    } else {
        s
    }
}

/// The number of characters at the beginning of `s` that fit into `limit`
/// bytes.
fn fitting(s: &str, limit: usize) -> (k: usize)
    ensures
        k == fitting_chars(s@, limit as int),
        k <= s@.len(),
{
    let n: usize = s.unicode_len();
    let mut k: usize = 0;
    let mut used: usize = 0;
    let mut fits: bool = true;
    let mut i: usize = 0;
    assert(s@.skip(0) =~= s@);
    for c in it: s.chars()
        invariant
            it.seq() == s@,
            i == it.index(),
            n == s@.len(),
            k <= i,
            used <= limit,
            fits ==> k == i,
            fitting_chars(s@, limit as int) == k + (if fits {
                fitting_chars(s@.skip(i as int), limit - used)
            } else {
                0
            }),
    {
        if fits {
            let w: usize = width_of(c);
            proof {
                let rest = s@.skip(i as int);
                assert(rest.first() == c);
                assert(rest.drop_first() =~= s@.skip(i + 1));
            }
            if w <= limit - used {
                used += w;
                k += 1;
            } else {
                fits = false;
            }
        }
        i += 1;
    }
    k
}

/// A preview of `s` for a diagnostic: `s` itself if it is short, else its
/// beginning, cut between two characters, with the length of the whole.
pub fn truncate(s: &str) -> (r: String)
    ensures
        r@ == preview(s@),
{
    let total: usize = s.as_bytes().len();
    if total > MAX {
        let k: usize = fitting(s, MAX);
        let mut out = String::from_str(s.substring_char(0, k));
        out.append("\u{2026} (");
        out.append(decimal_string(total).as_str());
        out.append(" bytes)");
        proof {
            assert(s@.subrange(0, k as int) =~= s@.take(k as int));
        }
        out
    } else {
        String::from_str(s)
    }
}

} // verus!
