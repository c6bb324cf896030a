//! Small verified building blocks for text: characters of a string, decimal
//! digits, and the one standard-library call that appends a character.

use vstd::prelude::*;

verus! {

/// Appends one character to `text`.
///
/// Stands for `String::push`: afterwards the string holds what it held
/// before, followed by `c`.
#[verifier::external_body]
pub(crate) fn push_char(text: &mut String, c: char)
    ensures
        final(text)@ == old(text)@.push(c),
{
    text.push(c);
}

/// The characters of `s`, in order.
pub fn chars_of(s: &str) -> (chars: Vec<char>)
    ensures
        chars@ == s@,
{
    let n = s.unicode_len();
    let mut chars: Vec<char> = Vec::new();
    let mut i: usize = 0;
    while i < n
        invariant
            n == s@.len(),
            i <= n,
            chars@ == s@.take(i as int),
        decreases n - i,
    {
        chars.push(s.get_char(i));
        i = i + 1;
    }
    chars
}

/// The string made of `chars[from..to]`.
pub fn string_of(chars: &Vec<char>, from: usize, to: usize) -> (text: String)
    requires
        from <= to <= chars.len(),
    ensures
        text@ == chars@.subrange(from as int, to as int),
{
    let mut text = String::new();
    let mut i: usize = from;
    while i < to
        invariant
            from <= i <= to <= chars.len(),
            text@ == chars@.subrange(from as int, i as int),
        decreases to - i,
    {
        push_char(&mut text, chars[i]);
        i = i + 1;
    }
    text
}

/// Whether `c` is one of the ten decimal digits.
pub open spec fn is_digit(c: char) -> bool {
    '0' <= c <= '9'
}

/// The value of the decimal digit `c`.
pub open spec fn digit_value(c: char) -> int
    recommends
        is_digit(c),
{
    c as int - '0' as int
}

/// The decimal digit whose value is `d`.
pub open spec fn digit_char(d: int) -> char
    recommends
        0 <= d <= 9,
{
    if d == 0 {
        '0'
    } else if d == 1 {
        '1'
    } else if d == 2 {
        '2'
    } else if d == 3 {
        '3'
    } else if d == 4 {
        '4'
    } else if d == 5 {
        '5'
    } else if d == 6 {
        '6'
    } else if d == 7 {
        '7'
    } else if d == 8 {
        '8'
    } else {
        '9'
    }
}

/// `digit_char` and `digit_value` undo each other on the ten digits.
pub proof fn lemma_digit_round_trip()
    ensures
        forall|d: int| 0 <= d <= 9 ==> is_digit(#[trigger] digit_char(d)) && digit_value(digit_char(d)) == d,
        forall|c: char| is_digit(c) ==> 0 <= #[trigger] digit_value(c) <= 9 && digit_char(digit_value(c)) == c,
{
}

/// Tests whether `c` is a decimal digit.
pub fn char_is_digit(c: char) -> (yes: bool)
    ensures
        yes == is_digit(c),
{
    '0' <= c && c <= '9'
}

/// The value of the digit `c`.
pub fn digit_to_value(c: char) -> (value: u32)
    requires
        is_digit(c),
    ensures
        value == digit_value(c),
        value <= 9,
{
    c as u32 - '0' as u32
}

/// The digit that stands for `d`.
pub fn digit_from_value(d: u32) -> (c: char)
    requires
        d <= 9,
    ensures
        c == digit_char(d as int),
        is_digit(c),
{
    if d == 0 {
        '0'
    } else if d == 1 {
        '1'
    } else if d == 2 {
        '2'
    } else if d == 3 {
        '3'
    } else if d == 4 {
        '4'
    } else if d == 5 {
        '5'
    } else if d == 6 {
        '6'
    } else if d == 7 {
        '7'
    } else if d == 8 {
        '8'
    } else {
        '9'
    }
}

/// The decimal numeral of `n`, without leading zeros.
pub open spec fn decimal_text(n: nat) -> Seq<char>
    decreases n,
{
    if n < 10 {
        seq![digit_char(n as int)]
    } else {
        decimal_text(n / 10).push(digit_char((n % 10) as int))
    }
}

/// Appends the decimal numeral of `n`.
pub fn push_decimal(text: &mut String, n: u64)
    ensures
        final(text)@ == old(text)@ + decimal_text(n as nat),
    decreases n,
{
    if n >= 10 {
        push_decimal(text, n / 10);
    }
    push_char(text, digit_from_value((n % 10) as u32));
    assert(text@ =~= old(text)@ + decimal_text(n as nat));
}

/// The first index at or after `from` at which `s` holds `c`; `s.len()` if
/// there is none.
pub open spec fn find_char(s: Seq<char>, c: char, from: int) -> int
    decreases s.len() - from,
{
    if from >= s.len() {
        s.len() as int
    } else if s[from] == c {
        from
    } else {
        find_char(s, c, from + 1)
    }
}

/// `find_char` lands on `c`, or on the end, and skips no `c`.
pub proof fn lemma_find_char(s: Seq<char>, c: char, from: int)
    requires
        0 <= from,
    ensures
        from <= s.len() ==> from <= find_char(s, c, from) <= s.len(),
        from > s.len() ==> find_char(s, c, from) == s.len(),
        find_char(s, c, from) < s.len() ==> s[find_char(s, c, from)] == c,
        forall|i: int| from <= i < find_char(s, c, from) ==> s[i] != c,
    decreases s.len() - from,
{
    if from < s.len() && s[from] != c {
        lemma_find_char(s, c, from + 1);
    }
}

/// Searches `chars` for `c` from index `from` on.
pub fn find_char_from(chars: &Vec<char>, c: char, from: usize) -> (at: usize)
    ensures
        at == find_char(chars@, c, from as int),
        at <= chars.len(),
        from <= chars.len() ==> from <= at,
{
    let n = chars.len();
    if from >= n {
        return n;
    }
    let mut i: usize = from;
    while i < n && chars[i] != c
        invariant
            n == chars.len(),
            from <= i <= n,
            find_char(chars@, c, from as int) == find_char(chars@, c, i as int),
        decreases n - i,
    {
        i = i + 1;
    }
    i
}

/// Unicode white space (the code points with the property `White_Space`).
pub open spec fn is_white_space(c: char) -> bool {
    let code = c as int;
    ||| 0x09 <= code <= 0x0D
    ||| code == 0x20
    ||| code == 0x85
    ||| code == 0xA0
    ||| code == 0x1680
    ||| 0x2000 <= code <= 0x200A
    ||| code == 0x2028
    ||| code == 0x2029
    ||| code == 0x202F
    ||| code == 0x205F
    ||| code == 0x3000
}

/// Tests whether `c` is white space.
pub fn char_is_white_space(c: char) -> (yes: bool)
    ensures
        yes == is_white_space(c),
{
    let code: u32 = c as u32;
    (0x09 <= code && code <= 0x0D) || code == 0x20 || code == 0x85 || code == 0xA0 || code
        == 0x1680 || (0x2000 <= code && code <= 0x200A) || code == 0x2028 || code == 0x2029
        || code == 0x202F || code == 0x205F || code == 0x3000
}

/// The first index in `from..to` whose character is not white space; `to` if
/// all of them are.
pub open spec fn skip_white_space(s: Seq<char>, from: int, to: int) -> int
    decreases to - from,
{
    if from >= to {
        to
    } else if !is_white_space(s[from]) {
        from
    } else {
        skip_white_space(s, from + 1, to)
    }
}

/// The end of `from..to` once trailing white space is dropped: one past the
/// last index whose character is not white space; `from` if all of them are.
pub open spec fn drop_white_space(s: Seq<char>, from: int, to: int) -> int
    decreases to - from,
{
    if to <= from {
        from
    } else if !is_white_space(s[to - 1]) {
        to
    } else {
        drop_white_space(s, from, to - 1)
    }
}

/// `s[from..to]` without its leading and trailing white space.
pub open spec fn trimmed_range(s: Seq<char>, from: int, to: int) -> Seq<char> {
    let start = skip_white_space(s, from, to);
    s.subrange(start, drop_white_space(s, start, to))
}

/// The string `chars[from..to]` without leading and trailing white space.
pub fn trim_range(chars: &Vec<char>, from: usize, to: usize) -> (text: String)
    requires
        from <= to <= chars.len(),
    ensures
        text@ == trimmed_range(chars@, from as int, to as int),
{
    let mut start: usize = from;
    while start < to && char_is_white_space(chars[start])
        invariant
            from <= start <= to <= chars.len(),
            skip_white_space(chars@, from as int, to as int) == skip_white_space(
                chars@,
                start as int,
                to as int,
            ),
        decreases to - start,
    {
        start = start + 1;
    }
    let mut end: usize = to;
    while end > start && char_is_white_space(chars[end - 1])
        invariant
            start <= end <= to <= chars.len(),
            drop_white_space(chars@, start as int, to as int) == drop_white_space(
                chars@,
                start as int,
                end as int,
            ),
        decreases end - start,
    {
        end = end - 1;
    }
    string_of(chars, start, end)
}

} // verus!
