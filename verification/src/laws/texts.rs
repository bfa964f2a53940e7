//! Laws of texts: white space, words, lines, orders and numbers.

use crate::rank;
use crate::text;
use std::cmp::Ordering;
use vstd::prelude::*;

verus! {

// ---------------------------------------------------------------------------
// Characters
// ---------------------------------------------------------------------------

/// White space is what Unicode lists as such: the tab and the four controls behind it, the space,
/// the next line, the no-break spaces, the spaces of typography, and the two separators.
pub proof fn law_white_space(c: char)
    ensures
        text::is_space(c) <==> ({
            let n = c as int;
            ||| 9 <= n <= 13
            ||| n == 32
            ||| n == 133
            ||| n == 160
            ||| n == 5760
            ||| 8192 <= n <= 8202
            ||| 8232 <= n <= 8233
            ||| n == 8239
            ||| n == 8287
            ||| n == 12288
        }),
{
}

/// Bringing ASCII capitals down changes them into the letter thirty-two places further, and leaves
/// every other character and the length.
pub proof fn law_ascii_lowered(s: Seq<char>, i: int)
    requires
        0 <= i < s.len(),
    ensures
        text::ascii_lowered(s).len() == s.len(),
        65 <= s[i] as int <= 90 ==> text::ascii_lowered(s)[i] as int == s[i] as int + 32,
        !(65 <= s[i] as int <= 90) ==> text::ascii_lowered(s)[i] == s[i],
{
}

/// Replacing a character changes it wherever it stands, and nothing else.
pub proof fn law_with_replaced(s: Seq<char>, from: char, to: char, i: int)
    requires
        0 <= i < s.len(),
    ensures
        text::with_replaced(s, from, to).len() == s.len(),
        s[i] == from ==> text::with_replaced(s, from, to)[i] == to,
        s[i] != from ==> text::with_replaced(s, from, to)[i] == s[i],
{
}

// ---------------------------------------------------------------------------
// Trimming and words
// ---------------------------------------------------------------------------

/// Whether all of `s` is white space.
pub open spec fn all_space(s: Seq<char>) -> bool {
    forall|i: int| 0 <= i < s.len() ==> text::is_space(#[trigger] s[i])
}

/// Whether none of `s` is white space.
pub open spec fn no_space(s: Seq<char>) -> bool {
    forall|i: int| 0 <= i < s.len() ==> !text::is_space(#[trigger] s[i])
}

proof fn lemma_leading_space(space: Seq<char>, s: Seq<char>)
    requires
        all_space(space),
        s.len() > 0 ==> !text::is_space(s[0]),
    ensures
        text::trimmed_start(space + s) == s,
    decreases space.len(),
{
    let all = space + s;
    if space.len() == 0 {
        assert(all =~= s);
    } else {
        assert(all[0] == space[0]);
        assert(all.skip(1) =~= space.skip(1) + s);
        lemma_leading_space(space.skip(1), s);
    }
}

proof fn lemma_trailing_space(s: Seq<char>, space: Seq<char>)
    requires
        all_space(space),
        s.len() > 0 ==> !text::is_space(s.last()),
    ensures
        text::trimmed_end(s + space) == s,
    decreases space.len(),
{
    let all = s + space;
    if space.len() == 0 {
        assert(all =~= s);
    } else {
        assert(all.last() == space.last());
        assert(all.drop_last() =~= s + space.drop_last());
        lemma_trailing_space(s, space.drop_last());
    }
}

/// A text without white space at its ends is what trimming leaves of it, whatever white space
/// stands before it and behind it. Of white space nothing is left.
pub proof fn law_trimming(front: Seq<char>, s: Seq<char>, back: Seq<char>)
    requires
        all_space(front),
        all_space(back),
        s.len() > 0 ==> !text::is_space(s[0]) && !text::is_space(s.last()),
    ensures
        text::trimmed(front + s + back) == s,
{
    if s.len() > 0 {
        assert(front + s + back =~= front + (s + back));
        assert((s + back)[0] == s[0]);
        lemma_leading_space(front, s + back);
        lemma_trailing_space(s, back);
    } else {
        let all = front + s + back;
        assert forall|i: int| 0 <= i < all.len() implies text::is_space(#[trigger] all[i]) by {
            if i < front.len() {
                assert(all[i] == front[i]);
            } else {
                assert(all[i] == back[i - front.len()]);
            }
        }
        assert(all =~= all + s);
        lemma_leading_space(all, s);
        assert(s =~= Seq::empty());
        assert(text::trimmed_end(s) == s);
    }
}

proof fn lemma_leading_word(word: Seq<char>, rest: Seq<char>)
    requires
        no_space(word),
        rest.len() > 0 ==> text::is_space(rest[0]),
    ensures
        text::leading_word(word + rest) == word,
        (word + rest).skip(word.len() as int) == rest,
    decreases word.len(),
{
    let all = word + rest;
    assert(all.skip(word.len() as int) =~= rest);
    if word.len() == 0 {
        assert(all =~= rest);
        assert(text::leading_word(all) =~= word);
    } else {
        assert(all[0] == word[0]);
        assert(all.skip(1) =~= word.skip(1) + rest);
        lemma_leading_word(word.skip(1), rest);
        assert(seq![word[0]] + word.skip(1) =~= word);
    }
}

/// The second word of a text is what stands between the second and the third stretch of white
/// space in it, where it begins with a word or with white space before one. A text of one word,
/// or of none, has no second word.
pub proof fn law_second_word(
    front: Seq<char>,
    first: Seq<char>,
    gap: Seq<char>,
    second: Seq<char>,
    rest: Seq<char>,
)
    requires
        all_space(front),
        all_space(gap),
        no_space(first),
        no_space(second),
        first.len() > 0,
        gap.len() > 0,
        second.len() > 0,
        rest.len() > 0 ==> text::is_space(rest[0]),
    ensures
        text::second_word(front + first + gap + second + rest) == Some(second),
        text::second_word(front + first + gap) is None,
        text::second_word(front + first) is None,
        text::second_word(front) is None,
{
    let none = Seq::<char>::empty();
    let tail = gap + (second + rest);
    assert(front + first + gap + second + rest =~= front + (first + tail));
    assert((first + tail)[0] == first[0]);
    lemma_leading_space(front, first + tail);
    assert(tail[0] == gap[0]);
    lemma_leading_word(first, tail);
    assert((second + rest)[0] == second[0]);
    lemma_leading_space(gap, second + rest);
    lemma_leading_word(second, rest);
    assert(front + first + gap =~= front + (first + gap));
    assert((first + gap)[0] == first[0]);
    lemma_leading_space(front, first + gap);
    lemma_leading_word(first, gap);
    assert(gap =~= gap + none);
    lemma_leading_space(gap, none);
    lemma_leading_space(front, first);
    assert(first =~= first + none);
    lemma_leading_word(first, none);
    assert(front =~= front + none);
    lemma_leading_space(front, none);
    lemma_leading_word(none, none);
    assert(none + none =~= none);
}

// ---------------------------------------------------------------------------
// Parts and lines
// ---------------------------------------------------------------------------

/// A part occurs in a text where the text is something, the part, and something.
pub proof fn law_occurs_in(s: Seq<char>, front: Seq<char>, part: Seq<char>, back: Seq<char>)
    ensures
        text::occurs_in(front + part + back, part),
        text::occurs_in(s, part) ==> exists|a: Seq<char>, b: Seq<char>|
            s == #[trigger] (a + part + b),
{
    let all = front + part + back;
    assert(all.subrange(front.len() as int, (front.len() + part.len()) as int) =~= part);
    assert(text::stands_at(all, part, front.len() as int));
    if text::occurs_in(s, part) {
        let i = choose|i: int| text::stands_at(s, part, i);
        assert(s =~= s.take(i) + part + s.skip(i + part.len())) by {
            assert forall|k: int| 0 <= k < s.len() implies s[k] == (s.take(i) + part + s.skip(
                i + part.len(),
            ))[k] by {
                if i <= k < i + part.len() {
                    assert(s.subrange(i, i + part.len())[k - i] == s[k]);
                }
            }
        }
    }
}

/// What stands before the first of a character is the text up to it, or all of a text that does
/// not have it.
pub proof fn law_before(s: Seq<char>, stop: char, rest: Seq<char>)
    requires
        !s.contains(stop),
    ensures
        text::before(s, stop) == s,
        text::before(s + seq![stop] + rest, stop) == s,
    decreases s.len(),
{
    let all = s + seq![stop] + rest;
    if s.len() == 0 {
        assert(all[0] == stop);
        assert(text::before(all, stop) =~= s);
        assert(text::before(s, stop) =~= s);
    } else {
        assert(s.contains(s[0]));
        let tail = s.skip(1);
        assert(!tail.contains(stop)) by {
            if tail.contains(stop) {
                assert(s[tail.index_of(stop) + 1] == stop);
            }
        }
        law_before(tail, stop, rest);
        assert(all.skip(1) =~= tail + seq![stop] + rest);
        assert(seq![s[0]] + tail =~= s);
        assert(all[0] == s[0]);
    }
}

/// What stands before the first of a character is a beginning of the text that does not have it,
/// and the character follows it, unless it is all of the text.
pub proof fn law_before_is_a_beginning(s: Seq<char>, stop: char)
    ensures
        ({
            let n = text::before(s, stop).len() as int;
            &&& n <= s.len()
            &&& text::before(s, stop) == s.take(n)
            &&& !text::before(s, stop).contains(stop)
            &&& n < s.len() ==> s[n] == stop
        }),
    decreases s.len(),
{
    let head = text::before(s, stop);
    if s.len() > 0 && s[0] != stop {
        let tail = text::before(s.skip(1), stop);
        law_before_is_a_beginning(s.skip(1), stop);
        assert(head =~= s.take(head.len() as int));
        assert(!head.contains(stop)) by {
            if head.contains(stop) {
                let k = head.index_of(stop);
                assert(tail[k - 1] == stop);
            }
        }
    } else {
        assert(head =~= s.take(0));
    }
}

/// A text has one line for each line feed, and one for what follows the last of them, if anything
/// does. A line feed ends a line, and so does a carriage return with a line feed; neither is a part
/// of the line. A carriage return anywhere else is.
pub proof fn law_lines(line: Seq<char>, rest: Seq<char>)
    requires
        !line.contains('\n'),
    ensures
        text::lines_of(Seq::empty()) == Seq::<Seq<char>>::empty(),
        line.len() > 0 ==> text::lines_of(line) == seq![line],
        !(line.len() > 0 && line.last() == '\r') ==> text::lines_of(line + seq!['\n'] + rest)
            == seq![line] + text::lines_of(rest),
        text::lines_of(line + seq!['\r'] + seq!['\n'] + rest) == seq![line] + text::lines_of(rest),
{
    law_before(line, '\n', rest);
    let plain = line + seq!['\n'] + rest;
    assert(plain.skip(line.len() as int + 1) =~= rest);
    let marked = line + seq!['\r'];
    assert(!marked.contains('\n')) by {
        if marked.contains('\n') {
            let k = marked.index_of('\n');
            if k < line.len() {
                assert(line[k] == '\n');
            }
        }
    }
    law_before(marked, '\n', rest);
    let both = marked + seq!['\n'] + rest;
    assert(both.skip(marked.len() as int + 1) =~= rest);
    assert(marked.last() == '\r');
    assert(marked.drop_last() =~= line);
}

// ---------------------------------------------------------------------------
// Orders
// ---------------------------------------------------------------------------

/// Whether `a` and `b` agree up to `n`, where `a` ends or has the lower character.
pub open spec fn differs_lower_at(a: Seq<char>, b: Seq<char>, n: int) -> bool {
    &&& 0 <= n <= a.len()
    &&& n < b.len()
    &&& forall|i: int| 0 <= i < n ==> #[trigger] a[i] == b[i]
    &&& n == a.len() || (a[n] as int) < (b[n] as int)
}

/// A text comes before another where it ends, or has the lower character, at the first place at
/// which they differ.
pub proof fn law_text_before(a: Seq<char>, b: Seq<char>)
    ensures
        rank::text_before(a, b) <==> exists|n: int| #[trigger] differs_lower_at(a, b, n),
    decreases a.len(),
{
    if a.len() == 0 {
        if b.len() > 0 {
            assert(differs_lower_at(a, b, 0));
        }
    } else if b.len() > 0 {
        if a[0] == b[0] {
            let x = a.skip(1);
            let y = b.skip(1);
            law_text_before(x, y);
            if rank::text_before(x, y) {
                let n = choose|n: int| #[trigger] differs_lower_at(x, y, n);
                assert forall|i: int| 0 <= i < n + 1 implies #[trigger] a[i] == b[i] by {
                    if i > 0 {
                        assert(x[i - 1] == y[i - 1]);
                    }
                }
                assert(differs_lower_at(a, b, n + 1));
            }
            if exists|n: int| #[trigger] differs_lower_at(a, b, n) {
                let n = choose|n: int| #[trigger] differs_lower_at(a, b, n);
                assert(n > 0);
                assert forall|i: int| 0 <= i < n - 1 implies #[trigger] x[i] == y[i] by {
                    assert(a[i + 1] == b[i + 1]);
                }
                assert(differs_lower_at(x, y, n - 1));
            }
        } else {
            if a[0] < b[0] {
                assert(differs_lower_at(a, b, 0));
            }
            if exists|n: int| #[trigger] differs_lower_at(a, b, n) {
                let n = choose|n: int| #[trigger] differs_lower_at(a, b, n);
                assert(n == 0) by {
                    if n > 0 {
                        assert(a[0] == b[0]);
                    }
                }
            }
        }
    }
}

/// Two texts are equal in the order of texts where they are the same, and one is greater than the
/// other where the other comes before it.
pub proof fn law_text_order(a: Seq<char>, b: Seq<char>)
    ensures
        rank::text_order(a, b) == Ordering::Equal <==> a == b,
        rank::text_order(a, b) == Ordering::Less <==> rank::text_before(a, b),
        rank::text_order(a, b) == Ordering::Greater <==> rank::text_before(b, a),
{
    rank::lemma_text_order_equal(a, b);
    rank::lemma_text_order_flips(a, b);
    rank::lemma_text_order_flips(b, a);
}

// ---------------------------------------------------------------------------
// Numbers
// ---------------------------------------------------------------------------

/// The digits of a number, read from the left, give it back, and no zero stands before them.
pub proof fn law_decimal_reads_back(n: nat, max: nat)
    ensures
        text::unsigned_value(text::decimal(n), max) == (if n <= max {
            Some(n)
        } else {
            None
        }),
        n > 0 ==> text::decimal(n)[0] != '0',
    decreases n,
{
    text::lemma_decimal_reads_back(n);
    let d = text::decimal(n);
    assert(text::is_digit(d[0]));
    if n >= 10 {
        law_decimal_reads_back(n / 10, max);
        assert(d[0] == text::decimal(n / 10)[0]) by {
            text::lemma_decimal_reads_back(n / 10);
        }
    }
}

/// Each further digit counts ten times what stood before it, and itself.
pub proof fn law_digits_count_by_ten(s: Seq<char>, c: char)
    requires
        48 <= c as int <= 57,
    ensures
        text::digits_value(Seq::empty()) == 0,
        text::digits_value(s.push(c)) == text::digits_value(s) * 10 + (c as int - 48),
{
    assert(s.push(c).drop_last() =~= s);
}

/// A text reads as a number where it is one or more digits, with or without a plus sign before
/// them, whose value is not over the maximum. Everything else reads as none.
pub proof fn law_unsigned_numbers(s: Seq<char>, max: nat)
    ensures
        text::unsigned_value(seq!['+'] + s, max) == (if s.len() > 0 && s[0] == '+' {
            None
        } else {
            text::unsigned_value(s, max)
        }),
        s.len() == 0 ==> text::unsigned_value(s, max) is None,
        (exists|i: int| 0 <= i < s.len() && #[trigger] s[i] != '+' && !(48 <= s[i] as int <= 57))
            ==> text::unsigned_value(s, max) is None,
        s.len() > 0 && (forall|i: int| 0 <= i < s.len() ==> 48 <= #[trigger] s[i] as int <= 57)
            ==> text::unsigned_value(s, max) == (if text::digits_value(s) <= max {
            Some(text::digits_value(s))
        } else {
            None
        }),
{
    let signed = seq!['+'] + s;
    assert(signed.skip(1) =~= s);
    let d = text::unsigned_digits(s);
    if s.len() > 0 && s[0] == '+' {
        assert(!text::is_digit(s[0]));
    }
    if exists|i: int| 0 <= i < s.len() && #[trigger] s[i] != '+' && !(48 <= s[i] as int <= 57) {
        let i = choose|i: int|
            0 <= i < s.len() && #[trigger] s[i] != '+' && !(48 <= s[i] as int <= 57);
        if s[0] == '+' {
            assert(!text::is_digit(d[i - 1]));
        } else {
            assert(!text::is_digit(d[i]));
        }
    }
    if s.len() > 0 && (forall|i: int| 0 <= i < s.len() ==> 48 <= #[trigger] s[i] as int <= 57) {
        assert(48 <= s[0] as int <= 57);
        assert(d == s);
        assert forall|i: int| 0 <= i < d.len() implies text::is_digit(#[trigger] d[i]) by {
            assert(48 <= s[i] as int <= 57);
        }
    }
}

} // verus!
