//! Numbers and characters as text.

use vstd::prelude::*;

verus! {

/// `String::push` appends one character.
pub assume_specification[ String::push ](s: &mut String, c: char)
    ensures
        final(s)@ == old(s)@.push(c),
;

/// The characters of a string.
pub fn chars_of(s: &str) -> (v: Vec<char>)
    ensures
        v@ == s@,
{
    let mut v: Vec<char> = Vec::new();
    for c in it: s.chars()
        invariant
            it.seq() == s@,
            v@ == it.seq().take(it.index() as int),
    {
        let ghost k = it.index() as int;
        v.push(c);
        assert(s@.take(k + 1) =~= s@.take(k).push(s@[k]));
    }
    assert(v@ =~= s@);
    v
}

/// The string of some characters.
pub fn string_of(chars: &[char]) -> (s: String)
    ensures
        s@ == chars@,
{
    let mut s = String::new();
    push_all(&mut s, chars);
    assert(s@ =~= chars@);
    s
}

/// Are two runs of characters the same?
pub fn same_chars(a: &[char], b: &[char]) -> (r: bool)
    ensures
        r == (a@ == b@),
{
    if a.len() != b.len() {
        return false;
    }
    let mut i: usize = 0;
    while i < a.len()
        invariant
            a@.len() == b@.len(),
            i <= a@.len(),
            forall|j: int| 0 <= j < i ==> a@[j] == b@[j],
        decreases a@.len() - i,
    {
        if a[i] != b[i] {
            return false;
        }
        i += 1;
    }
    assert(a@ =~= b@);
    true
}

/// Is this the given text?
pub fn reads(a: &[char], text: &str) -> (r: bool)
    ensures
        r == (a@ == text@),
{
    same_chars(a, chars_of(text).as_slice())
}

/// Does a character count as white space? Those do that have the `White_Space` property of the
/// Unicode character database.
pub open spec fn whitespace(c: char) -> bool {
    let n = c as u32;
    ||| 0x09 <= n <= 0x0D
    ||| n == 0x20
    ||| n == 0x85
    ||| n == 0xA0
    ||| n == 0x1680
    ||| 0x2000 <= n <= 0x200A
    ||| n == 0x2028
    ||| n == 0x2029
    ||| n == 0x202F
    ||| n == 0x205F
    ||| n == 0x3000
}

/// Does a character count as white space?
pub fn is_white(c: char) -> (r: bool)
    ensures
        r == whitespace(c),
{
    match c as u32 {
        0x09..=0x0D => true,
        0x20 | 0x85 | 0xA0 | 0x1680 => true,
        0x2000..=0x200A => true,
        0x2028 | 0x2029 | 0x202F | 0x205F | 0x3000 => true,
        _ => false,
    }
}

/// `s` without white space at its end.
pub open spec fn trim_end(s: Seq<char>) -> Seq<char>
    decreases s.len(),
{
    if s.len() > 0 && whitespace(s.last()) {
        trim_end(s.drop_last())
    } else {
        s
    }
}

/// `s` without white space at its start.
pub open spec fn trim_start(s: Seq<char>) -> Seq<char>
    decreases s.len(),
{
    if s.len() > 0 && whitespace(s[0]) {
        trim_start(s.skip(1))
    } else {
        s
    }
}

/// `s` without white space at either end.
pub open spec fn trim(s: Seq<char>) -> Seq<char> {
    trim_start(trim_end(s))
}

/// Cut white space off the end.
pub fn trimmed_end(s: &[char]) -> (r: &[char])
    ensures
        r@ == trim_end(s@),
{
    let mut n: usize = s.len();
    assert(s@.take(n as int) =~= s@);
    while n > 0 && is_white(s[n - 1])
        invariant
            n <= s@.len(),
            trim_end(s@.take(n as int)) == trim_end(s@),
        decreases n,
    {
        assert(s@.take(n as int).drop_last() =~= s@.take(n - 1));
        assert(s@.take(n as int).last() == s@[n - 1]);
        n -= 1;
    }
    assert(n > 0 ==> s@.take(n as int).last() == s@[n - 1]);
    let r = &s[0..n];
    assert(r@ =~= s@.take(n as int));
    r
}

/// Cut white space off the start.
pub fn trimmed_start(s: &[char]) -> (r: &[char])
    ensures
        r@ == trim_start(s@),
{
    let mut n: usize = 0;
    assert(s@.skip(0) =~= s@);
    while n < s.len() && is_white(s[n])
        invariant
            n <= s@.len(),
            trim_start(s@.skip(n as int)) == trim_start(s@),
        decreases s@.len() - n,
    {
        assert(s@.skip(n as int).skip(1) =~= s@.skip(n + 1));
        n += 1;
    }
    let r = &s[n..s.len()];
    assert(r@ =~= s@.skip(n as int));
    r
}

/// Cut white space off both ends.
pub fn trimmed(s: &[char]) -> (r: &[char])
    ensures
        r@ == trim(s@),
{
    trimmed_start(trimmed_end(s))
}

/// The words of `s` in its first `n` characters: those between white space, and the one that is
/// still open.
pub open spec fn words_before(s: Seq<char>, n: int) -> (Seq<Seq<char>>, Seq<char>)
    decreases n,
{
    if n <= 0 {
        (Seq::empty(), Seq::empty())
    } else {
        let (done, open) = words_before(s, n - 1);
        if !whitespace(s[n - 1]) {
            (done, open.push(s[n - 1]))
        } else if open.len() > 0 {
            (done.push(open), Seq::empty())
        } else {
            (done, open)
        }
    }
}

/// The words of `s`, between white space.
pub open spec fn words(s: Seq<char>) -> Seq<Seq<char>> {
    let (done, open) = words_before(s, s.len() as int);
    if open.len() > 0 {
        done.push(open)
    } else {
        done
    }
}

/// The contents of a list of strings.
pub open spec fn texts(s: Seq<String>) -> Seq<Seq<char>> {
    Seq::new(s.len(), |i: int| s[i]@)
}

/// Split at white space.
pub fn split_words(s: &[char]) -> (v: Vec<String>)
    ensures
        texts(v@) == words(s@),
{
    let mut v: Vec<String> = Vec::new();
    let mut open = String::new();
    let mut open_len: usize = 0;
    let mut i: usize = 0;
    assert(texts(v@) =~= Seq::<Seq<char>>::empty());
    assert(open@ =~= Seq::<char>::empty());
    while i < s.len()
        invariant
            i <= s@.len(),
            open_len <= i,
            open_len == open@.len(),
            texts(v@) == words_before(s@, i as int).0,
            open@ == words_before(s@, i as int).1,
        decreases s@.len() - i,
    {
        let ghost before = texts(v@);
        let c: char = s[i];
        if !is_white(c) {
            open.push(c);
            open_len += 1;
        } else if open_len > 0 {
            let ghost word = open@;
            v.push(open);
            open = String::new();
            open_len = 0;
            assert(texts(v@) =~= before.push(word));
            assert(open@ =~= Seq::<char>::empty());
        }
        i += 1;
    }
    if open_len > 0 {
        let ghost before = texts(v@);
        let ghost word = open@;
        v.push(open);
        assert(texts(v@) =~= before.push(word));
    }
    v
}

/// The decimal digits of `n` as characters.
pub open spec fn decimal_text(n: nat) -> Seq<char> {
    Seq::new(decimal(n).len(), |i: int| decimal(n)[i] as char)
}

/// Append `n` in decimal.
pub fn push_number(s: &mut String, n: usize)
    ensures
        final(s)@ == old(s)@ + decimal_text(n as nat),
{
    let mut digits: Vec<u8> = Vec::new();
    push_decimal(&mut digits, n);
    assert(digits@ =~= decimal(n as nat));
    let ghost before = s@;
    let ghost all = decimal_text(n as nat);
    let mut i: usize = 0;
    assert(s@ =~= before + all.take(0));
    while i < digits.len()
        invariant
            i <= digits@.len(),
            digits@ == decimal(n as nat),
            all == decimal_text(n as nat),
            s@ == before + all.take(i as int),
        decreases digits@.len() - i,
    {
        s.push(digits[i] as char);
        i += 1;
        assert(all.take(i as int) =~= all.take(i - 1).push(all[i - 1]));
        assert(s@ =~= before + all.take(i as int));
    }
    assert(all.take(i as int) =~= all);
}

/// The number that some text spells in decimal, with an optional plus sign, if it is one and fits.
pub open spec fn whole_number(s: Seq<char>) -> Option<usize> {
    unsigned_number(
        if s.len() > 0 && s[0] == '+' {
            s.skip(1)
        } else {
            s
        },
    )
}

/// The number that some digits spell, if they are digits and it fits.
pub open spec fn unsigned_number(digits: Seq<char>) -> Option<usize> {
    if digits.len() > 0 && all_digits(digits) && digits_value(digits) <= usize::MAX {
        Some(digits_value(digits) as usize)
    } else {
        None
    }
}

/// Are these all decimal digits?
pub open spec fn all_digits(s: Seq<char>) -> bool {
    forall|i: int| 0 <= i < s.len() ==> '0' <= #[trigger] s[i] <= '9'
}

/// The number that decimal digits spell.
pub open spec fn digits_value(s: Seq<char>) -> nat
    decreases s.len(),
{
    if s.len() == 0 {
        0
    } else {
        (digits_value(s.drop_last()) * 10 + (s.last() as int - 48)) as nat
    }
}

/// More digits never make a number smaller.
proof fn lemma_value_grows(s: Seq<char>, n: int)
    requires
        0 <= n <= s.len(),
        all_digits(s),
    ensures
        digits_value(s.take(n)) <= digits_value(s),
    decreases s.len() - n,
{
    if n == s.len() {
        assert(s.take(n) =~= s);
    } else {
        lemma_value_grows(s, n + 1);
        assert(s.take(n + 1).drop_last() =~= s.take(n));
        assert(s.take(n + 1).last() == s[n]);
    }
}

/// Read a whole number.
pub fn parse_whole(s: &[char]) -> (n: Option<usize>)
    ensures
        n == whole_number(s@),
{
    if s.len() > 0 && s[0] == '+' {
        let rest = &s[1..s.len()];
        assert(rest@ =~= s@.skip(1));
        parse_digits(rest)
    } else {
        parse_digits(s)
    }
}

/// Read digits.
fn parse_digits(digits: &[char]) -> (n: Option<usize>)
    ensures
        n == unsigned_number(digits@),
{
    if digits.len() == 0 {
        return None;
    }
    let mut value: u128 = 0;
    let mut i: usize = 0;
    assert(digits@.take(0) =~= Seq::<char>::empty());
    while i < digits.len()
        invariant
            i <= digits@.len(),
            forall|j: int| 0 <= j < i ==> '0' <= #[trigger] digits@[j] <= '9',
            value == digits_value(digits@.take(i as int)),
            value <= usize::MAX,
        decreases digits@.len() - i,
    {
        let c: char = digits[i];
        if c < '0' || c > '9' {
            return None;
        }
        value = value * 10 + (c as u128 - 48);
        i += 1;
        proof {
            assert(digits@.take(i as int).drop_last() =~= digits@.take(i - 1));
            assert(digits@.take(i as int).last() == c);
        }
        if value > usize::MAX as u128 {
            proof {
                if all_digits(digits@) {
                    lemma_value_grows(digits@, i as int);
                }
            }
            return None;
        }
    }
    assert(digits@.take(i as int) =~= digits@);
    Some(value as usize)
}

/// The first place at or after `from` that holds `c`, or the end.
pub open spec fn find(s: Seq<char>, c: char, from: int) -> int
    decreases s.len() - from,
{
    if from >= s.len() || s[from] == c {
        from
    } else {
        find(s, c, from + 1)
    }
}

/// Find a character.
pub fn find_char(s: &[char], c: char, from: usize) -> (i: usize)
    requires
        from <= s@.len(),
    ensures
        i == find(s@, c, from as int),
        from <= i <= s@.len(),
        i < s@.len() ==> s@[i as int] == c,
{
    let mut i: usize = from;
    while i < s.len() && s[i] != c
        invariant
            from <= i <= s@.len(),
            find(s@, c, i as int) == find(s@, c, from as int),
        decreases s@.len() - i,
    {
        i += 1;
    }
    i
}

/// The parts of a text from `pos` on, between separators.
pub open spec fn parts_from(s: Seq<char>, sep: char, pos: int) -> Seq<Seq<char>>
    decreases s.len() - pos,
{
    let end = find(s, sep, pos);
    if pos <= end < s.len() {
        seq![s.subrange(pos, end)] + parts_from(s, sep, end + 1)
    } else {
        seq![s.subrange(pos, s.len() as int)]
    }
}

/// The parts of a text between separators.
pub open spec fn parts(s: Seq<char>, sep: char) -> Seq<Seq<char>> {
    parts_from(s, sep, 0)
}

/// The contents of a list of runs of characters.
pub open spec fn part_views(v: Seq<Vec<char>>) -> Seq<Seq<char>> {
    Seq::new(v.len(), |i: int| v[i]@)
}

/// A copy of some characters.
pub fn copied(s: &[char]) -> (v: Vec<char>)
    ensures
        v@ == s@,
{
    let mut v: Vec<char> = Vec::new();
    v.extend_from_slice(s);
    assert(v@ =~= s@);
    v
}

/// Split a text at separators.
pub fn split_parts(s: &[char], sep: char) -> (v: Vec<Vec<char>>)
    ensures
        part_views(v@) == parts(s@, sep),
{
    let mut v: Vec<Vec<char>> = Vec::new();
    let mut pos: usize = 0;
    assert(part_views(v@) + parts_from(s@, sep, 0) =~= parts_from(s@, sep, 0));
    loop
        invariant_except_break
            pos <= s@.len(),
            part_views(v@) + parts_from(s@, sep, pos as int) == parts_from(s@, sep, 0),
        ensures
            part_views(v@) == parts_from(s@, sep, 0),
        decreases s@.len() - pos,
    {
        let end: usize = find_char(s, sep, pos);
        let ghost before = part_views(v@);
        let line = copied(&s[pos..end]);
        v.push(line);
        assert(part_views(v@) =~= before.push(line@));
        if end == s.len() {
            assert(before + parts_from(s@, sep, pos as int) =~= before.push(line@));
            break;
        }
        assert(before + parts_from(s@, sep, pos as int) =~= before.push(line@) + parts_from(
            s@,
            sep,
            end + 1,
        ));
        pos = end + 1;
    }
    v
}

/// Append several characters.
pub fn push_all(s: &mut String, chars: &[char])
    ensures
        final(s)@ == old(s)@ + chars@,
{
    let ghost before = s@;
    let mut i: usize = 0;
    while i < chars.len()
        invariant
            i <= chars@.len(),
            s@ == before + chars@.take(i as int),
        decreases chars@.len() - i,
    {
        s.push(chars[i]);
        i += 1;
        assert(chars@.take(i as int) =~= chars@.take(i - 1).push(chars@[i - 1]));
        assert(s@ =~= before + chars@.take(i as int));
    }
    assert(chars@.take(i as int) =~= chars@);
}

/// The decimal digits of `n`, most significant first.
pub open spec fn decimal(n: nat) -> Seq<u8>
    decreases n,
{
    if n < 10 {
        seq![(48 + n) as u8]
    } else {
        decimal(n / 10).push((48 + n % 10) as u8)
    }
}

/// The number that a run of decimal digits stands for.
pub open spec fn decimal_value(digits: Seq<u8>) -> nat
    decreases digits.len(),
{
    if digits.len() == 0 {
        0
    } else {
        (decimal_value(digits.drop_last()) * 10 + (digits.last() - 48)) as nat
    }
}

/// Append `n` in decimal.
pub fn push_decimal(out: &mut Vec<u8>, n: usize)
    ensures
        final(out)@ == old(out)@ + decimal(n as nat),
    decreases n,
{
    let ghost before = out@;
    if n >= 10 {
        push_decimal(out, n / 10);
        assert(decimal(n as nat) == decimal((n / 10) as nat).push((48 + n % 10) as u8));
    }
    out.push(48 + (n % 10) as u8);
    assert(out@ =~= before + decimal(n as nat));
}

/// Reading a number's decimal digits gives the number back; they are all digits, and there is at
/// least one.
pub proof fn decimal_reads_back(n: nat)
    ensures
        decimal_value(decimal(n)) == n,
        decimal(n).len() > 0,
        forall|i: int| 0 <= i < decimal(n).len() ==> 48 <= #[trigger] decimal(n)[i] <= 57,
    decreases n,
{
    if n < 10 {
        assert(decimal(n).drop_last() =~= Seq::<u8>::empty());
        assert(decimal_value(decimal(n).drop_last()) == 0);
    } else {
        decimal_reads_back(n / 10);
        assert(decimal(n).drop_last() =~= decimal(n / 10));
    }
}

/// An ASCII capital as the small letter; any other character as it is.
pub open spec fn ascii_lower(c: char) -> char {
    if 'A' <= c <= 'Z' {
        (c as int + 32) as char
    } else {
        c
    }
}

/// Do two texts differ at most in the case of ASCII letters?
pub open spec fn same_ignoring_case(a: Seq<char>, b: Seq<char>) -> bool {
    a.len() == b.len() && forall|i: int|
        0 <= i < a.len() ==> ascii_lower(#[trigger] a[i]) == ascii_lower(b[i])
}

/// The small form of an ASCII letter, as a number.
fn lower_code(c: char) -> (n: u32)
    ensures
        n == ascii_lower(c) as u32,
{
    let n: u32 = c as u32;
    if 65 <= n && n <= 90 {
        n + 32
    } else {
        n
    }
}

/// Do two texts differ at most in the case of ASCII letters?
pub fn eq_ignoring_case(a: &[char], b: &[char]) -> (r: bool)
    ensures
        r == same_ignoring_case(a@, b@),
{
    if a.len() != b.len() {
        return false;
    }
    let mut i: usize = 0;
    while i < a.len()
        invariant
            a@.len() == b@.len(),
            i <= a@.len(),
            forall|j: int| 0 <= j < i ==> ascii_lower(#[trigger] a@[j]) == ascii_lower(b@[j]),
        decreases a@.len() - i,
    {
        if lower_code(a[i]) != lower_code(b[i]) {
            assert(ascii_lower(a@[i as int]) != ascii_lower(b@[i as int]));
            return false;
        }
        assert(ascii_lower(a@[i as int]) as u32 == ascii_lower(b@[i as int]) as u32);
        i += 1;
    }
    true
}

} // verus!
