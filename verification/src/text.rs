//! Text primitives over `str`, stated on the characters of the text.

use vstd::prelude::*;

verus! {

broadcast use vstd::string::group_string_axioms;

/// `String::push` appends one character.
pub assume_specification[ String::push ](s: &mut String, ch: char)
    ensures
        final(s)@ == old(s)@.push(ch),
;

/// What `str::to_lowercase` returns for a text: its Unicode lowercase form.
pub uninterp spec fn lowercase(s: Seq<char>) -> Seq<char>;

/// Whether `str::to_lowercase` does to `s` what it does to ASCII: bring the capitals down.
pub open spec fn lowers_as_ascii(s: Seq<char>) -> bool {
    vstd::utf8::is_ascii_chars(s) ==> lowercase(s) == ascii_lowered(s)
}

/// Calls `str::to_lowercase`. The Unicode mapping itself is named, not spelled out; of ASCII it
/// brings the capitals down and changes nothing else.
#[verifier::external_body]
pub(crate) fn to_lowercase(s: &str) -> (r: String)
    ensures
        r@ == lowercase(s@),
        vstd::utf8::is_ascii_chars(s@) ==> r@ == ascii_lowered(s@),
{
    s.to_lowercase()
}

// ---------------------------------------------------------------------------
// Characters
// ---------------------------------------------------------------------------

/// The characters with the Unicode property `White_Space`.
pub open spec fn is_space(c: char) -> bool {
    ||| '\u{9}' <= c <= '\u{d}'
    ||| c == '\u{20}'
    ||| c == '\u{85}'
    ||| c == '\u{a0}'
    ||| c == '\u{1680}'
    ||| '\u{2000}' <= c <= '\u{200a}'
    ||| c == '\u{2028}'
    ||| c == '\u{2029}'
    ||| c == '\u{202f}'
    ||| c == '\u{205f}'
    ||| c == '\u{3000}'
}

/// Whether `c` is white space.
pub fn is_whitespace(c: char) -> (r: bool)
    ensures
        r == is_space(c),
{
    ('\u{9}' <= c && c <= '\u{d}') || c == '\u{20}' || c == '\u{85}' || c == '\u{a0}' || c
        == '\u{1680}' || ('\u{2000}' <= c && c <= '\u{200a}') || c == '\u{2028}' || c == '\u{2029}'
        || c == '\u{202f}' || c == '\u{205f}' || c == '\u{3000}'
}

/// `c` with the ASCII capitals brought down.
pub open spec fn ascii_lower(c: char) -> char {
    if 'A' <= c <= 'Z' {
        (c as u8 + 32) as u8 as char
    } else {
        c
    }
}

/// `s` with the ASCII capitals brought down.
pub open spec fn ascii_lowered(s: Seq<char>) -> Seq<char> {
    s.map_values(|c: char| ascii_lower(c))
}

/// The characters of `s`, in order.
pub fn chars_of(s: &str) -> (r: Vec<char>)
    ensures
        r@ == s@,
{
    let mut out: Vec<char> = Vec::new();
    let mut it = s.chars();
    let ghost all = s@;
    loop
        invariant
            out@ + vstd::std_specs::iter::IteratorSpec::remaining(&it) == all,
        ensures
            out@ == all,
        decreases all.len() - out@.len(),
    {
        match it.next() {
            Some(c) => {
                out.push(c);
            },
            None => {
                break;
            },
        }
    }
    out
}

/// Whether `a` and `b` are the same text.
pub fn same_text(a: &str, b: &str) -> (r: bool)
    ensures
        r == (a@ == b@),
{
    let mut x = a.chars();
    let mut y = b.chars();
    let ghost mut n: int = 0;
    assert(a@ == a@.skip(0));
    assert(b@ == b@.skip(0));
    loop
        invariant
            0 <= n <= a@.len(),
            n <= b@.len(),
            a@.take(n) == b@.take(n),
            vstd::std_specs::iter::IteratorSpec::remaining(&x) == a@.skip(n),
            vstd::std_specs::iter::IteratorSpec::remaining(&y) == b@.skip(n),
        decreases a@.len() - n,
    {
        match (x.next(), y.next()) {
            (Some(c), Some(d)) => {
                if c != d {
                    assert(a@[n] != b@[n]);
                    return false;
                }
                proof {
                    assert(a@.take(n + 1) =~= a@.take(n).push(c));
                    assert(b@.take(n + 1) =~= b@.take(n).push(d));
                    n = n + 1;
                }
            },
            (None, None) => {
                assert(a@ =~= a@.take(n));
                assert(b@ =~= b@.take(n));
                return true;
            },
            _ => {
                return false;
            },
        }
    }
}

/// `s` with the ASCII capitals brought down.
pub fn to_ascii_lowercase(s: &str) -> (r: String)
    ensures
        r@ == ascii_lowered(s@),
{
    let chars = chars_of(s);
    let mut out = String::new();
    let mut i: usize = 0;
    while i < chars.len()
        invariant
            i <= chars@.len(),
            chars@ == s@,
            out@ == ascii_lowered(s@.take(i as int)),
        decreases chars@.len() - i,
    {
        let c = chars[i];
        if 'A' <= c && c <= 'Z' {
            out.push((c as u8 + 32) as char);
        } else {
            out.push(c);
        }
        i += 1;
        assert(s@.take(i as int) =~= s@.take(i - 1).push(c));
        assert(out@ =~= ascii_lowered(s@.take(i as int)));
    }
    assert(s@.take(i as int) =~= s@);
    out
}

/// Whether `a` and `b` are the same text up to the case of ASCII letters.
pub fn eq_ignore_ascii_case(a: &str, b: &str) -> (r: bool)
    ensures
        r == (ascii_lowered(a@) == ascii_lowered(b@)),
{
    let x = to_ascii_lowercase(a);
    let y = to_ascii_lowercase(b);
    x == y
}

// ---------------------------------------------------------------------------
// Trimming and words
// ---------------------------------------------------------------------------

/// `s` from its first character that is not white space.
pub open spec fn trimmed_start(s: Seq<char>) -> Seq<char>
    decreases s.len(),
{
    if s.len() > 0 && is_space(s[0]) {
        trimmed_start(s.skip(1))
    } else {
        s
    }
}

/// `s` up to its last character that is not white space.
pub open spec fn trimmed_end(s: Seq<char>) -> Seq<char>
    decreases s.len(),
{
    if s.len() > 0 && is_space(s.last()) {
        trimmed_end(s.drop_last())
    } else {
        s
    }
}

/// `s` without the white space at its two ends.
pub open spec fn trimmed(s: Seq<char>) -> Seq<char> {
    trimmed_end(trimmed_start(s))
}

/// The longest beginning of `s` without white space.
pub open spec fn leading_word(s: Seq<char>) -> Seq<char>
    decreases s.len(),
{
    if s.len() > 0 && !is_space(s[0]) {
        seq![s[0]] + leading_word(s.skip(1))
    } else {
        Seq::empty()
    }
}

/// The second of the words of `s`, where white space separates words.
pub open spec fn second_word(s: Seq<char>) -> Option<Seq<char>> {
    let first = trimmed_start(s);
    let second = trimmed_start(first.skip(leading_word(first).len() as int));
    if second.len() == 0 {
        None
    } else {
        Some(leading_word(second))
    }
}

/// Trimming leaves something of a text that does not begin with white space.
pub proof fn lemma_word_is_kept(s: Seq<char>)
    requires
        s.len() > 0,
        !is_space(s[0]),
    ensures
        trimmed_start(s) == s,
        trimmed_end(s).len() > 0,
        trimmed(s).len() > 0,
    decreases s.len(),
{
    if s.len() > 1 {
        lemma_word_is_kept(s.drop_last());
    } else {
        assert(s.last() == s[0]);
    }
}

/// The index from which `chars` goes on after the white space at `from`.
fn skip_spaces(chars: &Vec<char>, from: usize) -> (r: usize)
    requires
        from <= chars@.len(),
    ensures
        from <= r <= chars@.len(),
        trimmed_start(chars@.skip(from as int)) == chars@.skip(r as int),
{
    let mut i: usize = from;
    while i < chars.len() && is_whitespace(chars[i])
        invariant
            from <= i <= chars@.len(),
            trimmed_start(chars@.skip(from as int)) == trimmed_start(chars@.skip(i as int)),
        decreases chars@.len() - i,
    {
        assert(chars@.skip(i as int).skip(1) =~= chars@.skip(i + 1));
        i += 1;
    }
    i
}

/// The index at which the word that starts at `from` ends.
fn skip_word(chars: &Vec<char>, from: usize) -> (r: usize)
    requires
        from <= chars@.len(),
    ensures
        from <= r <= chars@.len(),
        leading_word(chars@.skip(from as int)) == chars@.subrange(from as int, r as int),
{
    let mut i: usize = from;
    assert(chars@.subrange(from as int, i as int) =~= Seq::empty());
    while i < chars.len() && !is_whitespace(chars[i])
        invariant
            from <= i <= chars@.len(),
            leading_word(chars@.skip(from as int)) == chars@.subrange(from as int, i as int)
                + leading_word(chars@.skip(i as int)),
        decreases chars@.len() - i,
    {
        assert(chars@.skip(i as int).skip(1) =~= chars@.skip(i + 1));
        i += 1;
        assert(chars@.subrange(from as int, i as int) =~= chars@.subrange(from as int, i - 1).push(
            chars@[i - 1],
        ));
    }
    assert(leading_word(chars@.skip(i as int)) =~= Seq::empty());
    assert(leading_word(chars@.skip(from as int)) =~= chars@.subrange(from as int, i as int));
    i
}

/// `s` without the white space at its two ends.
pub fn trim(s: &str) -> (r: &str)
    ensures
        r@ == trimmed(s@),
{
    let chars = chars_of(s);
    assert(chars@.skip(0) =~= s@);
    let from = skip_spaces(&chars, 0);
    let mut to: usize = chars.len();
    assert(chars@.subrange(from as int, to as int) =~= chars@.skip(from as int));
    while from < to && is_whitespace(chars[to - 1])
        invariant
            from <= to <= chars@.len(),
            trimmed(s@) == trimmed_end(chars@.subrange(from as int, to as int)),
        decreases to,
    {
        assert(chars@.subrange(from as int, to as int).drop_last() =~= chars@.subrange(
            from as int,
            to - 1,
        ));
        to -= 1;
    }
    s.substring_char(from, to)
}

/// The second of the words of `s`, where white space separates words.
pub fn nth_word_1(s: &str) -> (r: Option<&str>)
    ensures
        match r {
            Some(w) => second_word(s@) == Some(w@),
            None => second_word(s@) is None,
        },
{
    let chars = chars_of(s);
    assert(chars@.skip(0) =~= s@);
    let a = skip_spaces(&chars, 0);
    let b = skip_word(&chars, a);
    assert(chars@.skip(a as int).skip(b - a) =~= chars@.skip(b as int));
    let c = skip_spaces(&chars, b);
    if c == chars.len() {
        None
    } else {
        let d = skip_word(&chars, c);
        Some(s.substring_char(c, d))
    }
}

// ---------------------------------------------------------------------------
// Searching
// ---------------------------------------------------------------------------

/// Whether `part` stands in `s` at index `i`.
pub open spec fn stands_at(s: Seq<char>, part: Seq<char>, i: int) -> bool {
    0 <= i && i + part.len() <= s.len() && s.subrange(i, i + part.len()) == part
}

/// Whether `part` stands anywhere in `s`.
pub open spec fn occurs_in(s: Seq<char>, part: Seq<char>) -> bool {
    exists|i: int| stands_at(s, part, i)
}

/// Whether `s` is an identifier: one or more letters, digits and underscores of ASCII, no digit
/// first.
pub open spec fn is_identifier(s: Seq<char>) -> bool {
    &&& s.len() > 0
    &&& !is_digit(s[0])
    &&& forall|i: int|
        0 <= i < s.len() ==> ('a' <= #[trigger] s[i] <= 'z' || 'A' <= s[i] <= 'Z' || is_digit(s[i])
            || s[i] == '_')
}

/// An identifier has no white space to trim, and is ASCII.
pub proof fn lemma_identifier(s: Seq<char>)
    requires
        is_identifier(s),
    ensures
        trimmed(s) == s,
        vstd::utf8::is_ascii_chars(s),
        forall|i: int| 0 <= i < s.len() ==> !is_space(#[trigger] s[i]),
{
    assert forall|i: int| 0 <= i < s.len() implies !is_space(#[trigger] s[i]) by {}
    assert(!is_space(s[0]) && !is_space(s[s.len() - 1]));
}

/// A word that stands in a text still stands in it once the text is trimmed.
pub proof fn lemma_word_stays(s: Seq<char>, word: Seq<char>)
    requires
        occurs_in(s, word),
        word.len() > 0,
        forall|i: int| 0 <= i < word.len() ==> !is_space(#[trigger] word[i]),
    ensures
        occurs_in(trimmed(s), word),
    decreases s.len(),
{
    let i = choose|i: int| stands_at(s, word, i);
    assert(s.subrange(i, i + word.len())[0] == word[0]);
    if s.len() > 0 && is_space(s[0]) {
        assert(s.skip(1).subrange(i - 1, i - 1 + word.len()) =~= s.subrange(i, i + word.len()));
        assert(stands_at(s.skip(1), word, i - 1));
        lemma_word_stays(s.skip(1), word);
        assert(trimmed(s) == trimmed(s.skip(1)));
    } else {
        lemma_word_stays_before_end(s, word);
    }
}

proof fn lemma_word_stays_before_end(s: Seq<char>, word: Seq<char>)
    requires
        occurs_in(s, word),
        word.len() > 0,
        forall|i: int| 0 <= i < word.len() ==> !is_space(#[trigger] word[i]),
    ensures
        occurs_in(trimmed_end(s), word),
    decreases s.len(),
{
    let i = choose|i: int| stands_at(s, word, i);
    if s.len() > 0 && is_space(s.last()) {
        assert(s.subrange(i, i + word.len())[word.len() - 1] == word[word.len() - 1]);
        assert(s.drop_last().subrange(i, i + word.len()) =~= s.subrange(i, i + word.len()));
        assert(stands_at(s.drop_last(), word, i));
        lemma_word_stays_before_end(s.drop_last(), word);
    }
}

/// Whether `part` stands in `s` at index `i`.
fn matches_at(s: &Vec<char>, part: &Vec<char>, i: usize) -> (r: bool)
    requires
        i + part@.len() <= s@.len(),
    ensures
        r == stands_at(s@, part@, i as int),
{
    let mut j: usize = 0;
    let n = s.len();
    while j < part.len()
        invariant
            i + part@.len() <= n == s@.len(),
            j <= part@.len(),
            forall|k: int| 0 <= k < j ==> s@[i + k] == part@[k],
        decreases part@.len() - j,
    {
        if s[i + j] != part[j] {
            assert(s@.subrange(i as int, i + part@.len())[j as int] != part@[j as int]);
            return false;
        }
        j += 1;
    }
    assert(s@.subrange(i as int, i + part@.len()) =~= part@);
    true
}

/// Whether `s` begins with `prefix`.
pub fn starts_with(s: &str, prefix: &str) -> (r: bool)
    ensures
        r == prefix@.is_prefix_of(s@),
{
    let a = chars_of(s);
    let b = chars_of(prefix);
    b.len() <= a.len() && matches_at(&a, &b, 0)
}

/// Whether `part` occurs in `s`.
pub fn contains(s: &str, part: &str) -> (r: bool)
    ensures
        r == occurs_in(s@, part@),
{
    let a = chars_of(s);
    let b = chars_of(part);
    if a.len() < b.len() {
        return false;
    }
    let last = a.len() - b.len();
    let mut i: usize = 0;
    while i <= last
        invariant
            a@ == s@,
            b@ == part@,
            last == a@.len() - b@.len(),
            i <= last + 1,
            forall|k: int| 0 <= k < i ==> !stands_at(s@, part@, k),
        decreases last + 1 - i,
    {
        if matches_at(&a, &b, i) {
            return true;
        }
        if i == last {
            return false;
        }
        i += 1;
    }
    false
}

/// What follows `prefix` in `s`, if `s` begins with it.
pub fn strip_prefix<'a>(s: &'a str, prefix: &str) -> (r: Option<&'a str>)
    ensures
        match r {
            Some(rest) => prefix@.is_prefix_of(s@) && rest@ == s@.skip(prefix@.len() as int),
            None => !prefix@.is_prefix_of(s@),
        },
{
    let a = chars_of(s);
    let b = chars_of(prefix);
    if b.len() <= a.len() && matches_at(&a, &b, 0) {
        let rest = s.substring_char(b.len(), a.len());
        assert(rest@ =~= s@.skip(prefix@.len() as int));
        Some(rest)
    } else {
        None
    }
}

/// `s` up to the first `stop`, or all of it.
pub open spec fn before(s: Seq<char>, stop: char) -> Seq<char>
    decreases s.len(),
{
    if s.len() == 0 || s[0] == stop {
        Seq::empty()
    } else {
        seq![s[0]] + before(s.skip(1), stop)
    }
}

/// `s` up to the first `stop`, or all of it.
pub fn split_before(s: &str, stop: char) -> (r: &str)
    ensures
        r@ == before(s@, stop),
{
    let chars = chars_of(s);
    let mut i: usize = 0;
    assert(chars@.skip(0) =~= s@);
    assert(chars@.take(0) =~= Seq::empty());
    while i < chars.len() && chars[i] != stop
        invariant
            i <= chars@.len(),
            chars@ == s@,
            before(s@, stop) == chars@.take(i as int) + before(chars@.skip(i as int), stop),
        decreases chars@.len() - i,
    {
        assert(chars@.skip(i as int).skip(1) =~= chars@.skip(i + 1));
        i += 1;
        assert(chars@.take(i as int) =~= chars@.take(i - 1).push(chars@[i - 1]));
    }
    assert(before(chars@.skip(i as int), stop) =~= Seq::empty());
    let r = s.substring_char(0, i);
    assert(r@ =~= before(s@, stop));
    r
}

/// `s` with every `from` turned into `to`.
pub open spec fn with_replaced(s: Seq<char>, from: char, to: char) -> Seq<char> {
    s.map_values(
        |c: char|
            if c == from {
                to
            } else {
                c
            },
    )
}

/// `s` with every `from` turned into `to`.
pub fn replace_char(s: &str, from: char, to: char) -> (r: String)
    ensures
        r@ == with_replaced(s@, from, to),
{
    let chars = chars_of(s);
    let mut out = String::new();
    let mut i: usize = 0;
    while i < chars.len()
        invariant
            i <= chars@.len(),
            chars@ == s@,
            out@ == with_replaced(s@.take(i as int), from, to),
        decreases chars@.len() - i,
    {
        let c = chars[i];
        if c == from {
            out.push(to);
        } else {
            out.push(c);
        }
        i += 1;
        assert(s@.take(i as int) =~= s@.take(i - 1).push(c));
        assert(out@ =~= with_replaced(s@.take(i as int), from, to));
    }
    assert(s@.take(i as int) =~= s@);
    out
}

// ---------------------------------------------------------------------------
// Lines
// ---------------------------------------------------------------------------

/// `s` without a carriage return at its end.
pub open spec fn without_cr(s: Seq<char>) -> Seq<char> {
    if s.len() > 0 && s.last() == '\r' {
        s.drop_last()
    } else {
        s
    }
}

/// The lines of `s`. A line ends in a line feed, with or without a carriage return before it;
/// the last one may also end with the text. Line ends are not part of the lines.
pub open spec fn lines_of(s: Seq<char>) -> Seq<Seq<char>>
    decreases s.len(),
{
    let head = before(s, '\n');
    if s.len() == 0 {
        Seq::empty()
    } else if head.len() >= s.len() {
        seq![s]
    } else {
        seq![without_cr(head)] + lines_of(s.skip(head.len() as int + 1))
    }
}

/// What stands before the first `stop` is where a search for `stop` ends.
proof fn lemma_before(s: Seq<char>, stop: char, n: int)
    requires
        0 <= n <= s.len(),
        forall|k: int| 0 <= k < n ==> s[k] != stop,
        n < s.len() ==> s[n] == stop,
    ensures
        before(s, stop) == s.take(n),
    decreases n,
{
    if n == 0 {
        assert(s.take(0) =~= Seq::empty());
    } else {
        assert forall|k: int| 0 <= k < n - 1 implies s.skip(1)[k] != stop by {
            assert(s.skip(1)[k] == s[k + 1]);
        }
        lemma_before(s.skip(1), stop, n - 1);
        assert(seq![s[0]] + s.skip(1).take(n - 1) =~= s.take(n));
    }
}

/// The lines of `s`.
pub fn lines(s: &str) -> (r: Vec<&str>)
    ensures
        r@.map_values(|l: &str| l@) == lines_of(s@),
        r@.len() <= s@.len(),
{
    let chars = chars_of(s);
    let mut out: Vec<&str> = Vec::new();
    let mut from: usize = 0;
    assert(chars@.skip(0) =~= s@);
    assert(out@.map_values(|l: &str| l@) =~= Seq::empty());
    while from < chars.len()
        invariant
            from <= chars@.len(),
            chars@ == s@,
            out@.map_values(|l: &str| l@) + lines_of(chars@.skip(from as int)) == lines_of(s@),
            out@.len() <= from,
        decreases chars@.len() - from,
    {
        let ghost rest = chars@.skip(from as int);
        let ghost so_far = out@;
        let mut to: usize = from;
        while to < chars.len() && chars[to] != '\n'
            invariant
                from <= to <= chars@.len(),
                forall|k: int| from <= k < to ==> chars@[k] != '\n',
            decreases chars@.len() - to,
        {
            to += 1;
        }
        proof {
            assert forall|k: int| 0 <= k < to - from implies rest[k] != '\n' by {
                assert(rest[k] == chars@[from + k]);
            }
            lemma_before(rest, '\n', to - from);
            assert(rest.take(to - from) =~= chars@.subrange(from as int, to as int));
        }
        if to == chars.len() {
            let line = s.substring_char(from, to);
            out.push(line);
            proof {
                assert(line@ =~= rest);
                assert(lines_of(rest) =~= seq![rest]);
                assert(chars@.skip(to as int) =~= Seq::empty());
                assert(lines_of(chars@.skip(to as int)) =~= Seq::empty());
                assert(out@.map_values(|l: &str| l@) =~= so_far.map_values(|l: &str| l@).push(
                    line@,
                ));
            }
            from = to;
        } else {
            let end = if from < to && chars[to - 1] == '\r' {
                to - 1
            } else {
                to
            };
            let line = s.substring_char(from, end);
            out.push(line);
            proof {
                let head = rest.take(to - from);
                assert(line@ =~= without_cr(head));
                assert(rest.skip(head.len() as int + 1) =~= chars@.skip(to + 1));
                assert(out@.map_values(|l: &str| l@) =~= so_far.map_values(|l: &str| l@).push(
                    line@,
                ));
                assert(so_far.map_values(|l: &str| l@) + (seq![line@] + lines_of(
                    chars@.skip(to + 1),
                )) =~= so_far.map_values(|l: &str| l@).push(line@) + lines_of(chars@.skip(to + 1)));
            }
            from = to + 1;
        }
    }
    assert(chars@.skip(from as int) =~= Seq::empty());
    assert(out@.map_values(|l: &str| l@) =~= lines_of(s@));
    out
}

// ---------------------------------------------------------------------------
// Decimal numbers
// ---------------------------------------------------------------------------

/// The decimal digit of `d`.
pub open spec fn digit(d: nat) -> char {
    (48 + d) as u8 as char
}

/// The decimal notation of `n`.
pub open spec fn decimal(n: nat) -> Seq<char>
    decreases n,
{
    if n < 10 {
        seq![digit(n)]
    } else {
        decimal(n / 10).push(digit(n % 10))
    }
}

/// The decimal notation of `n`.
pub fn to_decimal(n: u64) -> (r: String)
    ensures
        r@ == decimal(n as nat),
    decreases n,
{
    if n < 10 {
        let mut s = String::new();
        s.push((48 + n as u8) as char);
        assert(s@ =~= decimal(n as nat));
        s
    } else {
        let mut s = to_decimal(n / 10);
        s.push((48 + (n % 10) as u8) as char);
        s
    }
}

/// Whether `c` is a decimal digit.
pub open spec fn is_digit(c: char) -> bool {
    '0' <= c <= '9'
}

/// The number that the digits `s` stand for.
pub open spec fn digits_value(s: Seq<char>) -> nat
    decreases s.len(),
{
    if s.len() == 0 {
        0
    } else {
        digits_value(s.drop_last()) * 10 + (s.last() as nat - 48) as nat
    }
}

/// The digits of an unsigned number: `s` without a plus sign in front.
pub open spec fn unsigned_digits(s: Seq<char>) -> Seq<char> {
    if s.len() > 0 && s[0] == '+' {
        s.skip(1)
    } else {
        s
    }
}

/// The number that `s` reads as: one or more digits, after an optional plus sign, whose value is
/// at most `max`.
pub open spec fn unsigned_value(s: Seq<char>, max: nat) -> Option<nat> {
    let d = unsigned_digits(s);
    if d.len() > 0 && (forall|i: int| 0 <= i < d.len() ==> is_digit(#[trigger] d[i]))
        && digits_value(d) <= max {
        Some(digits_value(d))
    } else {
        None
    }
}

/// Reads `s` as an unsigned number that fits in `usize`.
pub fn parse_usize(s: &str) -> (r: Option<usize>)
    ensures
        match r {
            Some(n) => unsigned_value(s@, usize::MAX as nat) == Some(n as nat),
            None => unsigned_value(s@, usize::MAX as nat) is None,
        },
{
    let chars = chars_of(s);
    let start: usize = if chars.len() > 0 && chars[0] == '+' {
        1
    } else {
        0
    };
    let ghost d = unsigned_digits(s@);
    assert(d =~= chars@.skip(start as int));
    if start == chars.len() {
        return None;
    }
    let mut value: usize = 0;
    let mut overflow: bool = false;
    let mut i: usize = start;
    assert(d.take(0) =~= Seq::empty());
    while i < chars.len()
        invariant
            start <= i <= chars@.len(),
            d == chars@.skip(start as int),
            forall|k: int| 0 <= k < i - start ==> is_digit(#[trigger] d[k]),
            !overflow ==> value == digits_value(d.take(i - start)),
            overflow ==> digits_value(d.take(i - start)) > usize::MAX,
            unsigned_digits(s@) == d,
        decreases chars@.len() - i,
    {
        let c = chars[i];
        if !('0' <= c && c <= '9') {
            assert(!is_digit(d[i - start]));
            return None;
        }
        let v: usize = c as usize - 48;
        assert(d.take(i + 1 - start).drop_last() =~= d.take(i - start));
        assert(d.take(i + 1 - start).last() == c);
        if !overflow {
            if value > (usize::MAX - v) / 10 {
                overflow = true;
                assert(value * 10 + v > usize::MAX);
            } else {
                value = value * 10 + v;
            }
        }
        i += 1;
    }
    assert(d.take(i - start) =~= d);
    if overflow {
        None
    } else {
        Some(value)
    }
}

/// Every character of a decimal notation is a digit, and the notation reads back as its number.
pub proof fn lemma_decimal_reads_back(n: nat)
    ensures
        decimal(n).len() > 0,
        forall|i: int| 0 <= i < decimal(n).len() ==> is_digit(#[trigger] decimal(n)[i]),
        digits_value(decimal(n)) == n,
    decreases n,
{
    if n < 10 {
        assert(decimal(n).drop_last() =~= Seq::empty());
        assert(digits_value(decimal(n).drop_last()) == 0);
        assert(decimal(n).last() as nat == 48 + n);
    } else {
        lemma_decimal_reads_back(n / 10);
        assert(decimal(n).drop_last() =~= decimal(n / 10));
        assert(decimal(n).last() as nat == 48 + n % 10);
        assert forall|i: int| 0 <= i < decimal(n).len() implies is_digit(
            #[trigger] decimal(n)[i],
        ) by {
            if i < decimal(n).len() - 1 {
                assert(decimal(n)[i] == decimal(n / 10)[i]);
            }
        }
    }
}

} // verus!
