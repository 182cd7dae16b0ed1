//! Character sequences: decimal numbers, white space, searching and
//! splitting.

use vstd::prelude::*;

verus! {

/// The character of one decimal digit.
pub open spec fn digit_char(d: int) -> char {
    if d == 0 {
        '0'
    } else if d == 1 {
        '1'
    } else if d == 2 {
        '2'
    } else if d == 3 {
        '3'
    } else if d == 4 {
        '4'
    } else if d == 5 {
        '5'
    } else if d == 6 {
        '6'
    } else if d == 7 {
        '7'
    } else if d == 8 {
        '8'
    } else {
        '9'
    }
}

/// A natural number in decimal, without leading zeros.
pub open spec fn decimal(n: nat) -> Seq<char>
    decreases n,
{
    if n < 10 {
        seq![digit_char(n as int)]
    } else {
        decimal(n / 10) + seq![digit_char((n % 10) as int)]
    }
}

/// An integer in decimal, with a minus sign where it is negative.
pub open spec fn signed_decimal(n: int) -> Seq<char> {
    if n < 0 {
        seq!['-'] + decimal((-n) as nat)
    } else {
        decimal(n as nat)
    }
}

fn digit_text(d: u64) -> (t: &'static str)
    requires
        d < 10,
    ensures
        t@ == seq![digit_char(d as int)],
{
    proof {
        reveal_strlit("0");
        reveal_strlit("1");
        reveal_strlit("2");
        reveal_strlit("3");
        reveal_strlit("4");
        reveal_strlit("5");
        reveal_strlit("6");
        reveal_strlit("7");
        reveal_strlit("8");
        reveal_strlit("9");
    }
    let t = if d == 0 {
        "0"
    } else if d == 1 {
        "1"
    } else if d == 2 {
        "2"
    } else if d == 3 {
        "3"
    } else if d == 4 {
        "4"
    } else if d == 5 {
        "5"
    } else if d == 6 {
        "6"
    } else if d == 7 {
        "7"
    } else if d == 8 {
        "8"
    } else {
        "9"
    };
    assert(t@ =~= seq![digit_char(d as int)]);
    t
}

/// Appends `n` in decimal to `out`.
pub fn append_decimal(out: &mut String, n: u64)
    ensures
        final(out)@ == old(out)@ + decimal(n as nat),
    decreases n,
{
    if n >= 10 {
        append_decimal(out, n / 10);
    }
    out.append(digit_text(n % 10));
    assert(final(out)@ =~= old(out)@ + decimal(n as nat));
}

/// Appends `n` in decimal to `out`, with a minus sign where it is negative.
pub fn append_signed_decimal(out: &mut String, n: i64)
    ensures
        final(out)@ == old(out)@ + signed_decimal(n as int),
{
    if n < 0 {
        proof {
            reveal_strlit("-");
        }
        out.append("-");
        let magnitude: u64 = if n == i64::MIN {
            9223372036854775808u64
        } else {
            (-n) as u64
        };
        append_decimal(out, magnitude);
        assert(final(out)@ =~= old(out)@ + signed_decimal(n as int));
    } else {
        append_decimal(out, n as u64);
    }
}

/// The value of a decimal digit; 0 for any other character.
pub open spec fn digit_value(c: char) -> nat {
    if c == '1' {
        1
    } else if c == '2' {
        2
    } else if c == '3' {
        3
    } else if c == '4' {
        4
    } else if c == '5' {
        5
    } else if c == '6' {
        6
    } else if c == '7' {
        7
    } else if c == '8' {
        8
    } else if c == '9' {
        9
    } else {
        0
    }
}

/// Whether a character is a decimal digit.
pub open spec fn is_digit(c: char) -> bool {
    '0' <= c && c <= '9'
}

/// Whether a text holds decimal digits only.
pub open spec fn all_digits(s: Seq<char>) -> bool {
    forall|i: int| 0 <= i < s.len() ==> is_digit(#[trigger] s[i])
}

/// The number that a row of digits writes; 0 for the empty row.
pub open spec fn number(s: Seq<char>) -> nat
    decreases s.len(),
{
    if s.len() == 0 {
        0
    } else {
        number(s.drop_last()) * 10 + digit_value(s.last())
    }
}

/// The index that a text writes, as `str::parse::<usize>` reads it: one or
/// more decimal digits, with a `+` before them or not, whose number fits.
pub open spec fn spec_parse_index(s: Seq<char>) -> Option<usize> {
    let digits = if s.len() > 0 && s[0] == '+' {
        s.skip(1)
    } else {
        s
    };
    if digits.len() > 0 && all_digits(digits) && number(digits) <= usize::MAX {
        Some(number(digits) as usize)
    } else {
        None
    }
}

/// The number of a row of digits is at least that of each of its beginnings.
pub proof fn lemma_number_grows(s: Seq<char>, k: int)
    requires
        0 <= k <= s.len(),
    ensures
        number(s.take(k)) <= number(s),
    decreases s.len() - k,
{
    if k == s.len() {
        assert(s.take(k) =~= s);
    } else {
        lemma_number_grows(s.drop_last(), k);
        assert(s.drop_last().take(k) =~= s.take(k));
    }
}

/// What `decimal` writes is a row of digits that writes the same number.
pub proof fn lemma_decimal_digits(n: nat)
    ensures
        decimal(n).len() >= 1,
        all_digits(decimal(n)),
        number(decimal(n)) == n,
    decreases n,
{
    let last = seq![digit_char((n % 10) as int)];
    if n < 10 {
        assert(decimal(n).drop_last() =~= Seq::<char>::empty());
        assert(number(decimal(n).drop_last()) == 0);
    } else {
        lemma_decimal_digits(n / 10);
        assert(decimal(n).drop_last() =~= decimal(n / 10));
        assert(decimal(n).last() == last[0]);
        assert forall|i: int| 0 <= i < decimal(n).len() implies is_digit(
            #[trigger] decimal(n)[i],
        ) by {
            if i < decimal(n / 10).len() {
                assert(decimal(n)[i] == decimal(n / 10)[i]);
            }
        }
    }
}

/// A number that `decimal` writes is read back by `spec_parse_index`, so
/// the number of a line of the listing can be typed as it is printed.
pub proof fn lemma_decimal_parses(n: nat)
    requires
        n <= usize::MAX,
    ensures
        spec_parse_index(decimal(n)) == Some(n as usize),
{
    lemma_decimal_digits(n);
    assert(is_digit(decimal(n)[0]));
}

fn digit_of(c: char) -> (d: usize)
    requires
        is_digit(c),
    ensures
        d == digit_value(c),
        d <= 9,
{
    if c == '1' {
        1
    } else if c == '2' {
        2
    } else if c == '3' {
        3
    } else if c == '4' {
        4
    } else if c == '5' {
        5
    } else if c == '6' {
        6
    } else if c == '7' {
        7
    } else if c == '8' {
        8
    } else if c == '9' {
        9
    } else {
        0
    }
}

/// Reads the part of `chars` from `start` to `end` as an index.
pub fn parse_index(chars: &Vec<char>, start: usize, end: usize) -> (r: Option<usize>)
    requires
        start <= end <= chars.len(),
    ensures
        r == spec_parse_index(chars@.subrange(start as int, end as int)),
{
    let ghost whole = chars@.subrange(start as int, end as int);
    let first = if start < end && chars[start] == '+' {
        start + 1
    } else {
        start
    };
    let ghost digits = chars@.subrange(first as int, end as int);
    assert(digits =~= if whole.len() > 0 && whole[0] == '+' {
        whole.skip(1)
    } else {
        whole
    });
    if first == end {
        return None;
    }
    let mut value: usize = 0;
    let mut i = first;
    assert(digits.take(0) =~= Seq::<char>::empty());
    while i < end
        invariant
            start <= first <= i <= end <= chars.len(),
            whole == chars@.subrange(start as int, end as int),
            digits == chars@.subrange(first as int, end as int),
            digits == if whole.len() > 0 && whole[0] == '+' {
                whole.skip(1)
            } else {
                whole
            },
            all_digits(digits.take(i - first)),
            value == number(digits.take(i - first)),
        decreases end - i,
    {
        let c = chars[i];
        if !('0' <= c && c <= '9') {
            assert(!is_digit(digits[i - first]));
            return None;
        }
        let d = digit_of(c);
        proof {
            assert(digits.take(i - first + 1).drop_last() =~= digits.take(i - first));
            assert(digits.take(i - first + 1).last() == c);
            assert(number(digits.take(i - first + 1)) == value * 10 + d);
        }
        if value > (usize::MAX - d) / 10 {
            proof {
                lemma_number_grows(digits, i - first + 1);
            }
            return None;
        }
        value = value * 10 + d;
        i += 1;
    }
    assert(digits.take(end - first) =~= digits);
    Some(value)
}

/// Whether a character is white space, as `char::is_whitespace` has it: the
/// characters with the Unicode property `White_Space`.
pub open spec fn spec_is_space(c: char) -> bool {
    ('\u{9}' <= c && c <= '\u{d}') || c == ' ' || c == '\u{85}' || c == '\u{a0}' || c
        == '\u{1680}' || ('\u{2000}' <= c && c <= '\u{200a}') || c == '\u{2028}' || c
        == '\u{2029}' || c == '\u{202f}' || c == '\u{205f}' || c == '\u{3000}'
}

/// Whether a character is white space.
#[verifier::when_used_as_spec(spec_is_space)]
pub fn is_space(c: char) -> (space: bool)
    ensures
        space == spec_is_space(c),
{
    ('\u{9}' <= c && c <= '\u{d}') || c == ' ' || c == '\u{85}' || c == '\u{a0}' || c
        == '\u{1680}' || ('\u{2000}' <= c && c <= '\u{200a}') || c == '\u{2028}' || c
        == '\u{2029}' || c == '\u{202f}' || c == '\u{205f}' || c == '\u{3000}'
}

/// How many characters at the beginning of `s` are white space, where
/// `spaces` holds, or are not, where it does not.
pub open spec fn leading(s: Seq<char>, spaces: bool) -> nat
    decreases s.len(),
{
    if s.len() > 0 && spec_is_space(s[0]) == spaces {
        1 + leading(s.drop_first(), spaces)
    } else {
        0
    }
}

/// How many characters at the end of `s` are white space.
pub open spec fn trailing_spaces(s: Seq<char>) -> nat
    decreases s.len(),
{
    if s.len() > 0 && spec_is_space(s.last()) {
        1 + trailing_spaces(s.drop_last())
    } else {
        0
    }
}

/// A text without the white space at its two ends, as `str::trim` gives it.
pub open spec fn trim(s: Seq<char>) -> Seq<char> {
    let rest = s.skip(leading(s, true) as int);
    rest.take(rest.len() - trailing_spaces(rest))
}

/// The second of the words that white space parts in a text, as
/// `split_whitespace().nth(1)` gives it; empty where there is none.
pub open spec fn second_word(s: Seq<char>) -> Seq<char> {
    let a = s.skip(leading(s, true) as int);
    let b = a.skip(leading(a, false) as int);
    let c = b.skip(leading(b, true) as int);
    c.take(leading(c, false) as int)
}

/// A position before which all characters are of the one sort, and at which
/// the text ends or a character of the other sort stands, is `leading`.
pub proof fn lemma_leading_is(s: Seq<char>, spaces: bool, k: int)
    requires
        0 <= k <= s.len(),
        forall|j: int| 0 <= j < k ==> spec_is_space(s[j]) == spaces,
        k < s.len() ==> spec_is_space(s[k]) != spaces,
    ensures
        leading(s, spaces) == k,
    decreases k,
{
    if k > 0 {
        let rest = s.drop_first();
        assert forall|j: int| 0 <= j < k - 1 implies spec_is_space(rest[j]) == spaces by {
            assert(rest[j] == s[j + 1]);
        }
        lemma_leading_is(rest, spaces, k - 1);
    }
}

/// A number of characters at the end that are all white space, before which
/// the text begins or another character stands, is `trailing_spaces`.
pub proof fn lemma_trailing_is(s: Seq<char>, k: int)
    requires
        0 <= k <= s.len(),
        forall|j: int| s.len() - k <= j < s.len() ==> spec_is_space(s[j]),
        k < s.len() ==> !spec_is_space(s[s.len() - k - 1]),
    ensures
        trailing_spaces(s) == k,
    decreases k,
{
    if k > 0 {
        let init = s.drop_last();
        assert forall|j: int| init.len() - (k - 1) <= j < init.len() implies spec_is_space(
            init[j],
        ) by {
            assert(init[j] == s[j]);
        }
        lemma_trailing_is(init, k - 1);
    }
}

/// Counts the characters from `start` on and before `end` that are white
/// space, where `spaces` holds, or are not, up to the first of the other
/// sort.
pub fn count_leading(chars: &Vec<char>, start: usize, end: usize, spaces: bool) -> (k: usize)
    requires
        start <= end <= chars.len(),
    ensures
        k == leading(chars@.subrange(start as int, end as int), spaces),
        start + k <= end,
{
    let mut i = start;
    while i < end && is_space(chars[i]) == spaces
        invariant
            start <= i <= end <= chars.len(),
            forall|j: int| start <= j < i ==> spec_is_space(chars@[j]) == spaces,
        decreases end - i,
    {
        i += 1;
    }
    proof {
        lemma_leading_is(chars@.subrange(start as int, end as int), spaces, i - start);
    }
    i - start
}

/// Counts the white space at the end of the part of `chars` from `start` to
/// `end`.
pub fn count_trailing_spaces(chars: &Vec<char>, start: usize, end: usize) -> (k: usize)
    requires
        start <= end <= chars.len(),
    ensures
        k == trailing_spaces(chars@.subrange(start as int, end as int)),
        start + k <= end,
{
    let mut i = end;
    while i > start && is_space(chars[i - 1])
        invariant
            start <= i <= end <= chars.len(),
            forall|j: int| i <= j < end ==> spec_is_space(chars@[j]),
        decreases i - start,
    {
        i -= 1;
    }
    proof {
        lemma_trailing_is(chars@.subrange(start as int, end as int), end - i);
    }
    end - i
}

/// The characters of a string, one by one.
pub fn to_chars(s: &str) -> (chars: Vec<char>)
    ensures
        chars@ == s@,
{
    let mut chars: Vec<char> = Vec::new();
    for c in it: s.chars()
        invariant
            it.seq() == s@,
            chars@ == it.seq().take(it.index()),
    {
        chars.push(c);
    }
    chars
}

/// Where `c` first stands in `s`; the length of `s` where it does not occur.
pub open spec fn first_index(s: Seq<char>, c: char) -> int
    decreases s.len(),
{
    if s.len() == 0 {
        0
    } else if s[0] == c {
        0
    } else {
        1 + first_index(s.drop_first(), c)
    }
}

/// `first_index` is in range, no `c` stands before it, and `c` stands at it
/// where it is inside `s`.
pub proof fn lemma_first_index(s: Seq<char>, c: char)
    ensures
        0 <= first_index(s, c) <= s.len(),
        forall|j: int| 0 <= j < first_index(s, c) ==> s[j] != c,
        first_index(s, c) < s.len() ==> s[first_index(s, c)] == c,
    decreases s.len(),
{
    if s.len() > 0 && s[0] != c {
        let rest = s.drop_first();
        lemma_first_index(rest, c);
        assert forall|j: int| 0 <= j < first_index(s, c) implies s[j] != c by {
            if j > 0 {
                assert(s[j] == rest[j - 1]);
            }
        }
    }
}

/// A position with the three properties of `first_index` is `first_index`.
pub proof fn lemma_first_index_is(s: Seq<char>, c: char, k: int)
    requires
        0 <= k <= s.len(),
        forall|j: int| 0 <= j < k ==> s[j] != c,
        k < s.len() ==> s[k] == c,
    ensures
        first_index(s, c) == k,
{
    lemma_first_index(s, c);
    let f = first_index(s, c);
    if f < k {
        assert(s[f] != c);
    } else if k < f {
        assert(s[k] != c);
    }
}

/// The pieces of `s` between the occurrences of `sep`, as `str::split`
/// gives them: one more piece than there are separators, empty pieces
/// included.
pub open spec fn split(s: Seq<char>, sep: char) -> Seq<Seq<char>>
    decreases s.len(),
{
    let k = first_index(s, sep);
    if 0 <= k < s.len() {
        seq![s.take(k)] + split(s.skip(k + 1), sep)
    } else {
        seq![s]
    }
}

/// How often `c` occurs in `s`.
pub open spec fn count_of(s: Seq<char>, c: char) -> nat
    decreases s.len(),
{
    if s.len() == 0 {
        0
    } else {
        count_of(s.drop_last(), c) + if s.last() == c {
            1nat
        } else {
            0nat
        }
    }
}

/// Whether `c` occurs in `s`.
pub open spec fn has_char(s: Seq<char>, c: char) -> bool {
    exists|i: int| 0 <= i < s.len() && s[i] == c
}

/// A text without the separator is its own single piece.
pub proof fn lemma_split_plain(s: Seq<char>, sep: char)
    requires
        !has_char(s, sep),
    ensures
        split(s, sep) == seq![s],
{
    lemma_first_index(s, sep);
    let k = first_index(s, sep);
    if k < s.len() {
        assert(s[k] == sep);
    }
}

/// Splitting two texts that a separator joins gives the pieces of the first
/// and then the pieces of the second.
pub proof fn lemma_split_join(a: Seq<char>, b: Seq<char>, sep: char)
    ensures
        split(a + seq![sep] + b, sep) == split(a, sep) + split(b, sep),
    decreases a.len(),
{
    let whole = a + seq![sep] + b;
    lemma_first_index(a, sep);
    let k = first_index(a, sep);
    lemma_first_index_is(whole, sep, k);
    if k < a.len() {
        assert(whole.take(k) =~= a.take(k));
        assert(whole.skip(k + 1) =~= a.skip(k + 1) + seq![sep] + b);
        lemma_split_join(a.skip(k + 1), b, sep);
        assert(split(whole, sep) =~= split(a, sep) + split(b, sep));
    } else {
        assert(whole.take(k) =~= a);
        assert(whole.skip(k + 1) =~= b);
        assert(split(whole, sep) =~= split(a, sep) + split(b, sep));
    }
}

/// Counting over two texts in a row adds up.
pub proof fn lemma_count_concat(a: Seq<char>, b: Seq<char>, c: char)
    ensures
        count_of(a + b, c) == count_of(a, c) + count_of(b, c),
    decreases b.len(),
{
    if b.len() == 0 {
        assert(a + b =~= a);
    } else {
        assert((a + b).drop_last() =~= a + b.drop_last());
        assert((a + b).last() == b.last());
        lemma_count_concat(a, b.drop_last(), c);
    }
}

/// A character that does not occur is counted zero times, and the other way
/// round.
pub proof fn lemma_count_none(s: Seq<char>, c: char)
    ensures
        count_of(s, c) == 0 <==> !has_char(s, c),
    decreases s.len(),
{
    if s.len() > 0 {
        let init = s.drop_last();
        lemma_count_none(init, c);
        if has_char(init, c) {
            let i = choose|i: int| 0 <= i < init.len() && init[i] == c;
            assert(s[i] == c);
        }
        if has_char(s, c) && s.last() != c {
            let i = choose|i: int| 0 <= i < s.len() && s[i] == c;
            assert(init[i] == c);
        }
        if s.last() == c {
            assert(s[s.len() - 1] == c);
        }
    }
}

/// Every text splits into at least one piece.
pub proof fn lemma_split_len(s: Seq<char>, sep: char)
    ensures
        split(s, sep).len() >= 1,
{
}

/// The first `sep` in `chars` from `start` on and before `end`; `end` where
/// there is none.
pub fn find_char(chars: &Vec<char>, start: usize, end: usize, sep: char) -> (k: usize)
    requires
        start <= end <= chars.len(),
    ensures
        k == start + first_index(chars@.subrange(start as int, end as int), sep),
        start <= k <= end,
{
    let mut k = start;
    while k < end && chars[k] != sep
        invariant
            start <= k <= end <= chars.len(),
            forall|j: int| start <= j < k ==> chars@[j] != sep,
        decreases end - k,
    {
        k += 1;
    }
    proof {
        lemma_first_index_is(chars@.subrange(start as int, end as int), sep, k - start);
    }
    k
}

/// Whether the ranges `bounds` of `s` are the pieces `pieces`, in order.
pub open spec fn ranges_are(s: Seq<char>, bounds: Seq<(usize, usize)>, pieces: Seq<Seq<char>>) -> bool {
    &&& bounds.len() == pieces.len()
    &&& forall|i: int|
        0 <= i < bounds.len() ==> {
            &&& (#[trigger] bounds[i]).0 <= bounds[i].1 <= s.len()
            &&& s.subrange(bounds[i].0 as int, bounds[i].1 as int) == pieces[i]
        }
}

/// Splits the part of `chars` from `start` to `end` at each `sep`, and gives
/// each piece by where it begins and ends in `chars`.
pub fn split_ranges(chars: &Vec<char>, start: usize, end: usize, sep: char) -> (bounds: Vec<
    (usize, usize),
>)
    requires
        start <= end <= chars.len(),
    ensures
        ranges_are(chars@, bounds@, split(chars@.subrange(start as int, end as int), sep)),
        forall|i: int| 0 <= i < bounds.len() ==> start <= (#[trigger] bounds[i]).0 && bounds[i].1 <= end,
        bounds.len() >= 1 && bounds[bounds.len() - 1].1 == end,
{
    let mut bounds: Vec<(usize, usize)> = Vec::new();
    let mut pos = start;
    let ghost whole = chars@.subrange(start as int, end as int);
    let ghost mut done: Seq<Seq<char>> = Seq::empty();
    loop
        invariant_except_break
            ranges_are(chars@, bounds@, done),
            split(whole, sep) == done + split(chars@.subrange(pos as int, end as int), sep),
        invariant
            start <= pos <= end <= chars.len(),
            whole == chars@.subrange(start as int, end as int),
            forall|i: int| 0 <= i < bounds.len() ==> start <= (#[trigger] bounds[i]).0 && bounds[i].1 <= end,
        ensures
            ranges_are(chars@, bounds@, split(whole, sep)),
            forall|i: int| 0 <= i < bounds.len() ==> start <= (#[trigger] bounds[i]).0 && bounds[i].1 <= end,
            bounds.len() >= 1 && bounds[bounds.len() - 1].1 == end,
        decreases end - pos,
    {
        let k = find_char(chars, pos, end, sep);
        let ghost rest = chars@.subrange(pos as int, end as int);
        bounds.push((pos, k));
        if k < end {
            proof {
                assert(rest.take(k - pos) =~= chars@.subrange(pos as int, k as int));
                assert(rest.skip(k - pos + 1) =~= chars@.subrange(k + 1, end as int));
                done = done.push(rest.take(k - pos));
                assert(split(whole, sep) =~= done + split(
                    chars@.subrange(k + 1, end as int),
                    sep,
                ));
            }
            pos = k + 1;
        } else {
            proof {
                done = done.push(rest);
                assert(split(whole, sep) =~= done);
            }
            break;
        }
    }
    bounds
}

/// Whether the part of `chars` from `start` to `end` reads `other`.
pub fn range_equals(chars: &Vec<char>, start: usize, end: usize, other: &Vec<char>) -> (same: bool)
    requires
        start <= end <= chars.len(),
    ensures
        same == (chars@.subrange(start as int, end as int) == other@),
{
    if end - start != other.len() {
        return false;
    }
    let mut i: usize = 0;
    while i < other.len()
        invariant
            start <= end <= chars.len(),
            end - start == other.len(),
            i <= other.len(),
            forall|j: int| 0 <= j < i ==> chars@[start + j] == other@[j],
        decreases other.len() - i,
    {
        if chars[start + i] != other[i] {
            assert(chars@.subrange(start as int, end as int)[i as int] != other@[i as int]);
            return false;
        }
        i += 1;
    }
    assert(chars@.subrange(start as int, end as int) =~= other@);
    true
}

} // verus!
