//! What the tools on text do to all texts.

use vstd::prelude::*;

use crate::text::{
    all_digits, ascii_lower, decimal, decimal_reads_back, decimal_text, digits_value,
    find, parts, parts_from, same_ignoring_case, trim, trim_end, trim_start, whitespace, whole_number,
    words, words_before,
};

verus! {

/// White space is the blank, what moves the cursor on a line or to another, and the spaces of other
/// widths; a visible ASCII character is none.
pub proof fn blanks_are_white(c: char)
    ensures
        c == ' ' || c == '\t' || c == '\n' || c == '\r' || c == '\u{0B}' || c == '\u{0C}'
            ==> whitespace(c),
        c == '\u{85}' || c == '\u{A0}' || c == '\u{1680}' || c == '\u{2028}' || c == '\u{2029}' || c
            == '\u{202F}' || c == '\u{205F}' || c == '\u{3000}' ==> whitespace(c),
        '\u{2000}' <= c <= '\u{200A}' ==> whitespace(c),
        (c as u32) < 9 ==> !whitespace(c),
        14 <= (c as u32) < 32 ==> !whitespace(c),
        33 <= (c as u32) < 0x85 ==> !whitespace(c),
        0x86 <= (c as u32) < 0xA0 ==> !whitespace(c),
        0xA1 <= (c as u32) < 0x1680 ==> !whitespace(c),
        0x1681 <= (c as u32) < 0x2000 ==> !whitespace(c),
        0x200B <= (c as u32) < 0x2028 ==> !whitespace(c),
        0x202A <= (c as u32) < 0x202F ==> !whitespace(c),
        0x2030 <= (c as u32) < 0x205F ==> !whitespace(c),
        0x2060 <= (c as u32) < 0x3000 ==> !whitespace(c),
        0x3001 <= (c as u32) ==> !whitespace(c),
{
}

/// What is left of a text that was trimmed at its end.
proof fn lemma_trim_end(s: Seq<char>) -> (n: int)
    ensures
        0 <= n <= s.len(),
        trim_end(s) == s.take(n),
        forall|i: int| n <= i < s.len() ==> whitespace(#[trigger] s[i]),
        n > 0 ==> !whitespace(s[n - 1]),
    decreases s.len(),
{
    if s.len() > 0 && whitespace(s.last()) {
        let n = lemma_trim_end(s.drop_last());
        assert(s.drop_last().take(n) =~= s.take(n));
        assert forall|i: int| n <= i < s.len() implies whitespace(#[trigger] s[i]) by {
            if i < s.len() - 1 {
                assert(s.drop_last()[i] == s[i]);
            }
        }
        assert(n > 0 ==> s.drop_last()[n - 1] == s[n - 1]);
        n
    } else {
        assert(s.take(s.len() as int) =~= s);
        s.len() as int
    }
}

/// What is left of a text that was trimmed at its start.
proof fn lemma_trim_start(s: Seq<char>) -> (n: int)
    ensures
        0 <= n <= s.len(),
        trim_start(s) == s.skip(n),
        forall|i: int| 0 <= i < n ==> whitespace(#[trigger] s[i]),
        n < s.len() ==> !whitespace(s[n]),
    decreases s.len(),
{
    if s.len() > 0 && whitespace(s[0]) {
        let rest = s.skip(1);
        let n = lemma_trim_start(rest);
        assert(rest.skip(n) =~= s.skip(n + 1));
        assert forall|i: int| 0 <= i < n + 1 implies whitespace(#[trigger] s[i]) by {
            if i > 0 {
                assert(rest[i - 1] == s[i]);
            }
        }
        assert(n < rest.len() ==> rest[n] == s[n + 1]);
        n + 1
    } else {
        assert(s.skip(0) =~= s);
        0
    }
}

/// A trimmed text is the text between two places: what is outside is white, and the first and last
/// characters inside are not.
pub proof fn trimming_leaves_the_middle(s: Seq<char>) -> (ends: (int, int))
    ensures
        0 <= ends.0 <= ends.1 <= s.len(),
        trim(s) == s.subrange(ends.0, ends.1),
        forall|i: int| 0 <= i < ends.0 || ends.1 <= i < s.len() ==> whitespace(#[trigger] s[i]),
        ends.0 < ends.1 ==> !whitespace(s[ends.0]) && !whitespace(s[ends.1 - 1]),
{
    let n = lemma_trim_end(s);
    let head = s.take(n);
    let m = lemma_trim_start(head);
    assert(head.skip(m) =~= s.subrange(m, n));
    assert forall|i: int| 0 <= i < m || n <= i < s.len() implies whitespace(#[trigger] s[i]) by {
        if i < m {
            assert(head[i] == s[i]);
        }
    }
    assert(m < n ==> head[m] == s[m]);
    (m, n)
}

/// A text that neither starts nor ends with white space is left as it is.
pub proof fn trimmed_texts_stay(s: Seq<char>)
    requires
        s.len() > 0 ==> !whitespace(s[0]) && !whitespace(s.last()),
    ensures
        trim(s) == s,
{
    assert(trim_end(s) == s);
}

/// The words of a text depend on nothing behind them.
proof fn lemma_words_prefix(a: Seq<char>, s: Seq<char>, n: int)
    requires
        n <= a.len(),
        n <= s.len(),
        forall|i: int| 0 <= i < n ==> a[i] == s[i],
    ensures
        words_before(a, n) == words_before(s, n),
    decreases n,
{
    if n > 0 {
        lemma_words_prefix(a, s, n - 1);
    }
}

/// Behind a blank words are counted anew.
proof fn lemma_words_behind(a: Seq<char>, white: char, b: Seq<char>, k: int)
    requires
        whitespace(white),
        0 <= k <= b.len(),
    ensures
        ({
            let s = a.push(white) + b;
            let (done, open) = words_before(s, a.len() + 1 + k);
            let (own, last) = words_before(b, k);
            done == words(a) + own && open == last
        }),
    decreases k,
{
    let s = a.push(white) + b;
    let n = a.len() as int;
    if k == 0 {
        lemma_words_prefix(a, s, n);
        assert(s[n] == white);
        let (done, open) = words_before(s, n);
        assert(words_before(s, n + 1).0 =~= words(a) + Seq::<Seq<char>>::empty());
        assert(words_before(s, n + 1).1 =~= Seq::<char>::empty());
    } else {
        lemma_words_behind(a, white, b, k - 1);
        assert(s[n + k] == b[k - 1]);
        let (own, last) = words_before(b, k - 1);
        assert(words(a) + own.push(last) =~= (words(a) + own).push(last));
    }
}

/// White space parts words: the words of two texts with white space between them are those of the
/// first, and then those of the second.
pub proof fn blanks_part_words(a: Seq<char>, white: char, b: Seq<char>)
    requires
        whitespace(white),
    ensures
        words(a.push(white) + b) == words(a) + words(b),
{
    lemma_words_behind(a, white, b, b.len() as int);
    let (own, last) = words_before(b, b.len() as int);
    assert((a.push(white) + b).len() == a.len() + 1 + b.len());
    assert(words(a) + own.push(last) =~= (words(a) + own).push(last));
}

/// A text without white space is one word; an empty one has none.
pub proof fn unbroken_texts_are_words(s: Seq<char>)
    requires
        forall|i: int| 0 <= i < s.len() ==> !whitespace(#[trigger] s[i]),
    ensures
        words(s) == (if s.len() == 0 {
            Seq::<Seq<char>>::empty()
        } else {
            seq![s]
        }),
{
    lemma_unbroken(s, s.len() as int);
    assert(s.take(s.len() as int) =~= s);
}

proof fn lemma_unbroken(s: Seq<char>, n: int)
    requires
        0 <= n <= s.len(),
        forall|i: int| 0 <= i < s.len() ==> !whitespace(#[trigger] s[i]),
    ensures
        words_before(s, n) == (Seq::<Seq<char>>::empty(), s.take(n)),
    decreases n,
{
    if n > 0 {
        lemma_unbroken(s, n - 1);
        assert(s.take(n - 1).push(s[n - 1]) =~= s.take(n));
    } else {
        assert(s.take(0) =~= Seq::<char>::empty());
    }
}

/// Looking for a character finds the first one from a place on, or the end.
pub proof fn the_first_is_found(s: Seq<char>, c: char, from: int)
    requires
        0 <= from <= s.len(),
    ensures
        from <= find(s, c, from) <= s.len(),
        forall|i: int| from <= i < find(s, c, from) ==> s[i] != c,
        find(s, c, from) < s.len() ==> s[find(s, c, from)] == c,
    decreases s.len() - from,
{
    if from < s.len() && s[from] != c {
        the_first_is_found(s, c, from + 1);
    }
}

proof fn lemma_found_at(s: Seq<char>, c: char, from: int, at: int)
    requires
        0 <= from <= at <= s.len(),
        forall|i: int| from <= i < at ==> s[i] != c,
        at < s.len() ==> s[at] == c,
    ensures
        find(s, c, from) == at,
    decreases at - from,
{
    if from < at {
        lemma_found_at(s, c, from + 1, at);
    }
}

/// What lies behind a place does not depend on what lies before it.
proof fn lemma_parts_behind(a: Seq<char>, b: Seq<char>, sep: char, pos: int)
    requires
        0 <= pos <= b.len(),
    ensures
        parts_from(a + b, sep, a.len() + pos) == parts_from(b, sep, pos),
    decreases b.len() - pos,
{
    let s = a + b;
    let n = a.len() as int;
    let end = find(b, sep, pos);
    the_first_is_found(b, sep, pos);
    assert forall|i: int| n + pos <= i < n + end implies s[i] != sep by {
        assert(s[i] == b[i - n]);
    }
    assert(end < b.len() ==> s[n + end] == b[end]);
    lemma_found_at(s, sep, n + pos, n + end);
    assert(s.subrange(n + pos, n + end) =~= b.subrange(pos, end));
    if end < b.len() {
        lemma_parts_behind(a, b, sep, end + 1);
    }
}

proof fn lemma_parts_before(a: Seq<char>, b: Seq<char>, sep: char, pos: int)
    requires
        0 <= pos <= a.len(),
    ensures
        parts_from(a.push(sep) + b, sep, pos) == parts_from(a, sep, pos) + parts(b, sep),
    decreases a.len() - pos,
{
    let s = a.push(sep) + b;
    let end = find(a, sep, pos);
    the_first_is_found(a, sep, pos);
    assert forall|i: int| pos <= i < end implies s[i] != sep by {
        assert(s[i] == a[i]);
    }
    assert(s[a.len() as int] == sep);
    assert(end < a.len() ==> s[end] == a[end]);
    lemma_found_at(s, sep, pos, end);
    assert(s.subrange(pos, end) =~= a.subrange(pos, end));
    if end < a.len() {
        lemma_parts_before(a, b, sep, end + 1);
        assert(parts_from(s, sep, pos) =~= parts_from(a, sep, pos) + parts(b, sep));
    } else {
        lemma_parts_behind(a.push(sep), b, sep, 0);
        assert(parts_from(s, sep, pos) =~= parts_from(a, sep, pos) + parts(b, sep));
    }
}

/// A separator parts a text: the parts of two texts with a separator between them are those of the
/// first, and then those of the second, empty ones too.
pub proof fn separators_part_texts(a: Seq<char>, b: Seq<char>, sep: char)
    ensures
        parts(a.push(sep) + b, sep) == parts(a, sep) + parts(b, sep),
{
    lemma_parts_before(a, b, sep, 0);
}

/// A text without a separator is one part, even if it is empty.
pub proof fn unseparated_texts_are_parts(s: Seq<char>, sep: char)
    requires
        forall|i: int| 0 <= i < s.len() ==> s[i] != sep,
    ensures
        parts(s, sep) == seq![s],
{
    lemma_found_at(s, sep, 0, s.len() as int);
    assert(s.subrange(0, s.len() as int) =~= s);
}

/// Numbers are written in decimal: a digit more stands for ten times as much, and a digit.
pub proof fn numbers_are_decimal(n: nat, digit: nat)
    requires
        digit < 10,
    ensures
        decimal(digit) == seq![(0x30 + digit) as u8],
        n > 0 ==> decimal(10 * n + digit) == decimal(n).push((0x30 + digit) as u8),
        decimal_text(n).len() == decimal(n).len(),
        forall|i: int|
            0 <= i < decimal(n).len() ==> #[trigger] decimal_text(n)[i] as u32 == decimal(n)[i],
{
    assert((10 * n + digit) / 10 == n && (10 * n + digit) % 10 == digit);
    decimal_reads_back(n);
    assert forall|i: int| 0 <= i < decimal(n).len() implies #[trigger] decimal_text(n)[i] as u32
        == decimal(n)[i] by {
        assert(48 <= decimal(n)[i] <= 57);
    }
}

/// Digits as characters stand for what they stand for as bytes.
proof fn lemma_digits_value(n: nat)
    ensures
        digits_value(decimal_text(n)) == n,
        all_digits(decimal_text(n)),
        decimal_text(n).len() > 0,
    decreases n,
{
    decimal_reads_back(n);
    let text = decimal_text(n);
    assert forall|i: int| 0 <= i < text.len() implies '0' <= #[trigger] text[i] <= '9' by {
        assert(48 <= decimal(n)[i] <= 57);
    }
    if n < 10 {
        assert(text.drop_last() =~= Seq::<char>::empty());
        assert(digits_value(text.drop_last()) == 0);
    } else {
        lemma_digits_value(n / 10);
        assert(text.drop_last() =~= decimal_text(n / 10));
        assert(decimal(n) == decimal(n / 10).push((48 + n % 10) as u8));
    }
}

/// A number that was written can be read, with or without a plus sign before it.
pub proof fn numbers_read_back(n: usize)
    ensures
        whole_number(decimal_text(n as nat)) == Some(n),
        whole_number(seq!['+'] + decimal_text(n as nat)) == Some(n),
{
    lemma_digits_value(n as nat);
    let text = decimal_text(n as nat);
    assert('0' <= text[0] <= '9');
    assert((seq!['+'] + text).skip(1) =~= text);
}

/// What holds anything but digits, behind a plus sign perhaps, is no number; nor is nothing at all.
pub proof fn other_texts_are_no_numbers(s: Seq<char>, i: int)
    ensures
        s.len() == 0 ==> whole_number(s) is None,
        s == seq!['+'] ==> whole_number(s) is None,
        0 <= i < s.len() && !('0' <= s[i] <= '9') && !(i == 0 && s[i] == '+') ==> whole_number(s)
            is None,
{
    if s == seq!['+'] {
        assert(s.skip(1) =~= Seq::<char>::empty());
    }
    if 0 <= i < s.len() && !('0' <= s[i] <= '9') && !(i == 0 && s[i] == '+') {
        if s[0] == '+' {
            assert(s.skip(1)[i - 1] == s[i]);
        }
    }
}

/// Zeros in front change no number.
pub proof fn leading_zeros_count_nothing(s: Seq<char>)
    requires
        s.len() > 0,
        '0' <= s[0] <= '9',
    ensures
        whole_number(seq!['0'] + s) == whole_number(s),
{
    let t = seq!['0'] + s;
    lemma_leading_zero(s);
    if all_digits(s) {
        assert forall|i: int| 0 <= i < t.len() implies '0' <= #[trigger] t[i] <= '9' by {
            if i > 0 {
                assert(t[i] == s[i - 1]);
            }
        }
    } else {
        let i = choose|i: int| 0 <= i < s.len() && !('0' <= #[trigger] s[i] <= '9');
        assert(t[i + 1] == s[i]);
    }
}

proof fn lemma_leading_zero(s: Seq<char>)
    ensures
        digits_value(seq!['0'] + s) == digits_value(s),
    decreases s.len(),
{
    let t = seq!['0'] + s;
    if s.len() > 0 {
        assert(t.drop_last() =~= seq!['0'] + s.drop_last());
        lemma_leading_zero(s.drop_last());
    } else {
        assert(t.drop_last() =~= Seq::<char>::empty());
        assert(digits_value(t.drop_last()) == 0);
        assert(s =~= Seq::<char>::empty());
    }
}

/// The twenty-six ASCII capitals have small letters; nothing else has.
pub proof fn capitals_have_small_letters(c: char)
    ensures
        65 <= c as u32 <= 90 ==> ascii_lower(c) as u32 == c as u32 + 32,
        !(65 <= c as u32 <= 90) ==> ascii_lower(c) == c,
{
}

/// Case is all that may differ: texts that are the same but for it are equally long, and each of
/// their characters is the same or the other case of the same letter.
pub proof fn only_case_may_differ(a: Seq<char>, b: Seq<char>, i: int)
    requires
        same_ignoring_case(a, b),
        0 <= i < a.len(),
    ensures
        a.len() == b.len(),
        a[i] == b[i] || ascii_lower(a[i]) == b[i] || a[i] == ascii_lower(b[i]),
{
    assert(ascii_lower(a[i]) == ascii_lower(b[i]));
    lemma_letters(a[i], b[i]);
}

proof fn lemma_letters(a: char, b: char)
    requires
        ascii_lower(a) == ascii_lower(b),
    ensures
        a == b || ascii_lower(a) == b || a == ascii_lower(b),
{
    if 'A' <= a <= 'Z' && 'A' <= b <= 'Z' {
        assert(ascii_lower(a) as u32 == a as u32 + 32);
        assert(ascii_lower(b) as u32 == b as u32 + 32);
        assert(a as u32 == b as u32);
    }
}

} // verus!
