//! Routines on text: trimming, replacing, and a rolling checksum.

use crate::bits::{
    rotate_left_signed, rotate_right_signed, rotated_left_signed, rotated_right_signed,
};
use vstd::prelude::*;
use vstd::string::{StrSliceExecFns, StringExecFns};

verus! {

/// Whether `c` has the Unicode property `White_Space`: the ASCII blanks
/// (tab, line feed, vertical tab, form feed, carriage return, space) and the
/// nineteen further separators listed below.
pub open spec fn is_white_space(c: char) -> bool {
    let n = c as u32;
    ||| 0x0009 <= n <= 0x000D
    ||| n == 0x0020
    ||| n == 0x0085
    ||| n == 0x00A0
    ||| n == 0x1680
    ||| 0x2000 <= n <= 0x200A
    ||| n == 0x2028
    ||| n == 0x2029
    ||| n == 0x202F
    ||| n == 0x205F
    ||| n == 0x3000
}

/// The text without the white space it begins with.
pub open spec fn trimmed_start(text: Seq<char>) -> Seq<char>
    decreases text.len(),
{
    if text.len() > 0 && is_white_space(text[0]) {
        trimmed_start(text.skip(1))
    } else {
        text
    }
}

/// The text without the white space it ends with.
pub open spec fn trimmed_end(text: Seq<char>) -> Seq<char>
    decreases text.len(),
{
    if text.len() > 0 && is_white_space(text.last()) {
        trimmed_end(text.drop_last())
    } else {
        text
    }
}

/// The text without the white space at either end.
pub open spec fn trimmed(text: Seq<char>) -> Seq<char> {
    trimmed_end(trimmed_start(text))
}

/// Cutting off exactly the leading white space: if the first `n` characters
/// are white space and the next one, if any, is not, then trimming the start
/// skips those `n`.
pub proof fn lemma_trimmed_start_skips(text: Seq<char>, n: int)
    requires
        0 <= n <= text.len(),
        forall|i: int| 0 <= i < n ==> is_white_space(#[trigger] text[i]),
        n < text.len() ==> !is_white_space(text[n]),
    ensures
        trimmed_start(text) == text.skip(n),
    decreases n,
{
    if n == 0 {
        assert(text.skip(0) =~= text);
    } else {
        let rest = text.skip(1);
        assert forall|i: int| 0 <= i < n - 1 implies is_white_space(#[trigger] rest[i]) by {
            assert(rest[i] == text[i + 1]);
        }
        lemma_trimmed_start_skips(rest, n - 1);
        assert(rest.skip(n - 1) =~= text.skip(n));
    }
}

/// Cutting off exactly the trailing white space: if everything from index
/// `n` on is white space and the character before it, if any, is not, then
/// trimming the end keeps the first `n` characters.
pub proof fn lemma_trimmed_end_takes(text: Seq<char>, n: int)
    requires
        0 <= n <= text.len(),
        forall|i: int| n <= i < text.len() ==> is_white_space(#[trigger] text[i]),
        n > 0 ==> !is_white_space(text[n - 1]),
    ensures
        trimmed_end(text) == text.take(n),
    decreases text.len() - n,
{
    if n == text.len() {
        assert(text.take(n) =~= text);
    } else {
        let rest = text.drop_last();
        lemma_trimmed_end_takes(rest, n);
        assert(rest.take(n) =~= text.take(n));
    }
}

/// Decides [`is_white_space`].
pub fn white_space(c: char) -> (answer: bool)
    ensures
        answer == is_white_space(c),
{
    let n: u32 = c as u32;
    let ascii = (0x0009 <= n && n <= 0x000D) || n == 0x0020;
    let latin = n == 0x0085 || n == 0x00A0;
    let spaces = n == 0x1680 || (0x2000 <= n && n <= 0x200A) || n == 0x202F || n == 0x205F
        || n == 0x3000;
    let breaks = n == 0x2028 || n == 0x2029;
    ascii || latin || spaces || breaks
}

/// The part of `text` between its leading and its trailing white space.
pub fn trim(text: &str) -> (kept: &str)
    ensures
        kept@ == trimmed(text@),
{
    let length = text.unicode_len();
    let mut start: usize = 0;
    let mut end: usize = 0;
    let mut seen: usize = 0;
    let mut blank_so_far = true;
    for c in it: text.chars()
        invariant
            it.seq() == text@,
            length == text@.len(),
            seen == it.index(),
            blank_so_far ==> start == 0 && end == 0,
            blank_so_far ==> forall|i: int| 0 <= i < seen ==> is_white_space(#[trigger] text@[i]),
            !blank_so_far ==> start < end <= seen,
            !blank_so_far ==> !is_white_space(text@[start as int]),
            !blank_so_far ==> !is_white_space(text@[end - 1]),
            !blank_so_far ==> forall|i: int| 0 <= i < start ==> is_white_space(#[trigger] text@[i]),
            !blank_so_far ==> forall|i: int| end <= i < seen ==> is_white_space(#[trigger] text@[i]),
    {
        if !white_space(c) {
            if blank_so_far {
                start = seen;
                blank_so_far = false;
            }
            end = seen + 1;
        }
        seen = seen + 1;
    }
    proof {
        let whole = text@;
        if blank_so_far {
            lemma_trimmed_start_skips(whole, whole.len() as int);
            assert(whole.skip(whole.len() as int) =~= whole.subrange(0, 0));
        } else {
            lemma_trimmed_start_skips(whole, start as int);
            let tail = whole.skip(start as int);
            assert forall|i: int| end - start <= i < tail.len() implies is_white_space(
                #[trigger] tail[i],
            ) by {
                assert(tail[i] == whole[i + start]);
            }
            assert(tail[end - start - 1] == whole[end - 1]);
            lemma_trimmed_end_takes(tail, end - start);
            assert(tail.take(end - start) =~= whole.subrange(start as int, end as int));
        }
    }
    text.substring_char(start, end)
}

/// The text in which every occurrence of the pattern `from` is replaced by
/// `to`. Occurrences are found from the left and do not overlap: after one is
/// replaced, the search goes on behind it.
pub open spec fn replaced(text: Seq<char>, from: Seq<char>, to: Seq<char>) -> Seq<char>
    recommends
        from.len() > 0,
    decreases text.len(),
{
    if from.len() == 0 || text.len() < from.len() {
        text
    } else if text.take(from.len() as int) == from {
        to + replaced(text.skip(from.len() as int), from, to)
    } else {
        seq![text[0]] + replaced(text.skip(1), from, to)
    }
}

/// Replacing a pattern by itself changes nothing.
pub proof fn lemma_replaced_by_itself(text: Seq<char>, pattern: Seq<char>)
    ensures
        replaced(text, pattern, pattern) == text,
    decreases text.len(),
{
    if pattern.len() == 0 || text.len() < pattern.len() {
    } else if text.take(pattern.len() as int) == pattern {
        lemma_replaced_by_itself(text.skip(pattern.len() as int), pattern);
        assert(text.take(pattern.len() as int) + text.skip(pattern.len() as int) =~= text);
    } else {
        lemma_replaced_by_itself(text.skip(1), pattern);
        assert(seq![text[0]] + text.skip(1) =~= text);
    }
}

/// Calls `str::replace` of the standard library, for a pattern that is not
/// empty.
///
/// Assumed, not proved: the new string is the text with all matches of the
/// pattern replaced, the matches being those found from the left without
/// overlap, as [`replaced`] states it.
#[verifier::external_body]
fn replace(text: &str, from: &str, to: &str) -> (changed: String)
    requires
        from@.len() > 0,
    ensures
        changed@ == replaced(text@, from@, to@),
{
    text.replace(from, to)
}

/// Copies the text, appends nothing to it, replaces every `a` by `a`, and
/// trims the result: what comes out is the text without the white space at
/// its ends.
pub fn useless_string_op(s: &str) -> (result: String)
    ensures
        result@ == trimmed(s@),
{
    let mut r = String::from_str(s);
    r.append("");
    proof {
        reveal_strlit("");
        reveal_strlit("a");
        assert(r@ =~= s@);
        lemma_replaced_by_itself(r@, "a"@);
    }
    r = replace(r.as_str(), "a", "a");
    String::from_str(trim(r.as_str()))
}

/// One round of the checksum: the running value `acc` after the character
/// `c` at position `i` has been worked in.
pub open spec fn cursed_step(acc: i64, c: char, i: usize) -> i64 {
    let low = (c as u32 % 256) as i64;
    let stirred = acc ^ (rotated_left_signed(low.wrapping_add(i as i64), 3) & 0xFF);
    let scaled = stirred.wrapping_mul(3).wrapping_sub(7);
    let turned = if i % 2 == 0 {
        rotated_right_signed(scaled, (i % 64) as u32)
    } else {
        rotated_left_signed(scaled, (i % 64) as u32)
    };
    turned ^ (!turned).wrapping_add(0xDEAD_BEEF)
}

/// The checksum of a text: zero for the empty text, and otherwise one
/// [`cursed_step`] for each character in turn.
pub open spec fn cursed_value(input: Seq<char>) -> i64
    decreases input.len(),
{
    if input.len() == 0 {
        0
    } else {
        cursed_step(cursed_value(input.drop_last()), input.last(), (input.len() - 1) as usize)
    }
}

/// Computes the checksum of `input`.
pub fn cursed_compute(input: &str) -> (acc: i64)
    ensures
        acc == cursed_value(input@),
{
    let length = input.unicode_len();
    let mut acc: i64 = 0;
    let mut i: usize = 0;
    for c in it: input.chars()
        invariant
            it.seq() == input@,
            length == input@.len(),
            i == it.index(),
            acc == cursed_value(input@.take(i as int)),
    {
        proof {
            assert(input@.take(i + 1).drop_last() =~= input@.take(i as int));
        }
        let code: u32 = c as u32;
        assert((code as u8) == code % 256) by (bit_vector);
        let low: i64 = #[verifier::truncate] (code as u8) as i64;
        acc = acc ^ (rotate_left_signed(low.wrapping_add(#[verifier::truncate] (i as i64)), 3) & 0xFF);
        acc = acc.wrapping_mul(3).wrapping_sub(7);
        if i % 2 == 0 {
            acc = rotate_right_signed(acc, (i % 64) as u32);
        } else {
            acc = rotate_left_signed(acc, (i % 64) as u32);
        }
        acc = acc ^ (!acc).wrapping_add(0xDEAD_BEEF);
        i = i + 1;
    }
    proof {
        assert(input@.take(input@.len() as int) =~= input@);
    }
    acc
}

} // verus!
