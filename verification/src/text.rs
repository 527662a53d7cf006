//! Character and number helpers shared by the text formats of the library.

use vstd::prelude::*;

verus! {

/// `String::push` of the standard library: appends one character to the end
/// of the string and changes nothing else.
pub assume_specification[ String::push ](s: &mut String, c: char)
    ensures
        final(s)@ == old(s)@.push(c),
;

/// Whether `c` is one of the ten decimal digits.
pub open spec fn is_digit(c: char) -> bool {
    '0' <= c <= '9'
}

/// Value of the decimal digit `c`.
pub open spec fn digit_value(c: char) -> int {
    c as int - '0' as int
}

/// The character for the decimal digit `d`.
pub open spec fn digit_char(d: int) -> char {
    (d + '0' as int) as char
}

/// Whether `c` separates the fields of a text: the characters with the
/// Unicode property White_Space.
pub open spec fn is_space(c: char) -> bool {
    let n = c as int;
    ||| 0x09 <= n <= 0x0D
    ||| n == 0x20
    ||| n == 0x85
    ||| n == 0xA0
    ||| n == 0x1680
    ||| 0x2000 <= n <= 0x200A
    ||| n == 0x2028
    ||| n == 0x2029
    ||| n == 0x202F
    ||| n == 0x205F
    ||| n == 0x3000
}

/// The decimal digits of `n`, most significant first, without leading zeros;
/// `"0"` for zero.
pub open spec fn decimal(n: nat) -> Seq<char>
    decreases n,
{
    if n < 10 {
        seq![digit_char(n as int)]
    } else {
        decimal(n / 10).push(digit_char((n % 10) as int))
    }
}

/// The number that the digits `s` denote, read as a decimal numeral.
pub open spec fn decimal_value(s: Seq<char>) -> nat
    decreases s.len(),
{
    if s.len() == 0 {
        0
    } else {
        (decimal_value(s.drop_last()) * 10 + digit_value(s.last())) as nat
    }
}

/// Whether every character of `s` is a decimal digit.
pub open spec fn all_digits(s: Seq<char>) -> bool {
    forall|i: int| 0 <= i < s.len() ==> is_digit(#[trigger] s[i])
}

/// What a text denotes as an unsigned 32-bit number: an optional `+`, then at
/// least one decimal digit and nothing else, with a value that fits. `None`
/// for every other text.
pub open spec fn parse_u32(s: Seq<char>) -> Option<u32> {
    let digits = if s.len() > 0 && s[0] == '+' {
        s.subrange(1, s.len() as int)
    } else {
        s
    };
    if digits.len() > 0 && all_digits(digits) && decimal_value(digits) <= u32::MAX {
        Some(decimal_value(digits) as u32)
    } else {
        None
    }
}

pub fn char_is_digit(c: char) -> (b: bool)
    ensures
        b == is_digit(c),
{
    '0' <= c && c <= '9'
}

pub fn char_is_space(c: char) -> (b: bool)
    ensures
        b == is_space(c),
{
    let n = c as u32;
    (0x09 <= n && n <= 0x0D) || n == 0x20 || n == 0x85 || n == 0xA0 || n == 0x1680 || (0x2000 <= n
        && n <= 0x200A) || n == 0x2028 || n == 0x2029 || n == 0x202F || n == 0x205F || n == 0x3000
}

/// Value of a decimal digit.
pub fn digit_to_value(c: char) -> (d: u8)
    requires
        is_digit(c),
    ensures
        d == digit_value(c),
        d < 10,
{
    ((c as u32) - 48) as u8
}

/// The character of a decimal digit.
pub fn digit_from_value(d: u8) -> (c: char)
    requires
        d < 10,
    ensures
        c == digit_char(d as int),
        is_digit(c),
{
    (48u8 + d) as char
}

/// The characters of `s`, in order.
pub fn chars_of(s: &str) -> (chars: Vec<char>)
    ensures
        chars@ == s@,
{
    let mut chars: Vec<char> = Vec::new();
    for c in it: s.chars()
        invariant
            it.seq() == s@,
            chars@ == s@.take(it.index()),
    {
        assert(s@.take(it.index()).push(c) =~= s@.take(it.index() + 1));
        chars.push(c);
    }
    assert(s@.take(s@.len() as int) =~= s@);
    chars
}

/// The string made of `chars[from..to]`.
pub fn string_of(chars: &Vec<char>, from: usize, to: usize) -> (s: String)
    requires
        from <= to <= chars.len(),
    ensures
        s@ == chars@.subrange(from as int, to as int),
{
    let mut s = String::new();
    let mut i: usize = from;
    while i < to
        invariant
            from <= i <= to <= chars.len(),
            s@ == chars@.subrange(from as int, i as int),
        decreases to - i,
    {
        s.push(chars[i]);
        assert(chars@.subrange(from as int, i as int).push(chars@[i as int]) =~= chars@.subrange(
            from as int,
            i + 1,
        ));
        i += 1;
    }
    s
}

/// Appends the decimal numeral of `n` to `out`.
pub fn push_decimal(out: &mut Vec<char>, n: u32)
    ensures
        final(out)@ == old(out)@ + decimal(n as nat),
    decreases n,
{
    if n >= 10 {
        push_decimal(out, n / 10);
        out.push(digit_from_value((n % 10) as u8));
        assert(final(out)@ =~= old(out)@ + decimal(n as nat));
    } else {
        out.push(digit_from_value(n as u8));
        assert(final(out)@ =~= old(out)@ + decimal(n as nat));
    }
}

/// Reads `chars[from..to]` as an unsigned 32-bit number.
pub fn read_u32(chars: &Vec<char>, from: usize, to: usize) -> (res: Option<u32>)
    requires
        from <= to <= chars.len(),
    ensures
        res == parse_u32(chars@.subrange(from as int, to as int)),
{
    let ghost text = chars@.subrange(from as int, to as int);
    let mut i: usize = from;
    if i < to && chars[i] == '+' {
        i += 1;
    }
    let start = i;
    let ghost digits = chars@.subrange(start as int, to as int);
    assert(digits =~= if text.len() > 0 && text[0] == '+' {
        text.subrange(1, text.len() as int)
    } else {
        text
    });
    if start == to {
        return None;
    }
    let mut value: u32 = 0;
    while i < to
        invariant
            start <= i <= to <= chars.len(),
            start < to,
            digits == chars@.subrange(start as int, to as int),
            parse_u32(chars@.subrange(from as int, to as int)) == (if all_digits(digits)
                && decimal_value(digits) <= u32::MAX {
                Some(decimal_value(digits) as u32)
            } else {
                None
            }),
            all_digits(digits.take(i - start)),
            value == decimal_value(digits.take(i - start)),
        decreases to - i,
    {
        let c = chars[i];
        let ghost seen = digits.take(i - start);
        let ghost next = digits.take(i - start + 1);
        assert(next.drop_last() =~= seen);
        assert(next.last() == c);
        assert(digits[i - start] == c);
        if !char_is_digit(c) {
            return None;
        }
        let d = digit_to_value(c) as u32;
        assert(all_digits(next)) by {
            assert forall|k: int| 0 <= k < next.len() implies is_digit(#[trigger] next[k]) by {
                if k < seen.len() {
                    assert(next[k] == seen[k]);
                }
            }
        }
        assert(decimal_value(next) == value * 10 + d);
        proof {
            lemma_decimal_value_grows(next, digits);
        }
        if value > (u32::MAX - d) / 10 {
            return None;
        }
        value = value * 10 + d;
        i += 1;
    }
    assert(digits.take(to - start) =~= digits);
    Some(value)
}

/// A numeral is worth at least as much as each of its prefixes, where all its
/// characters are digits up to the end of that prefix.
pub proof fn lemma_decimal_value_grows(prefix: Seq<char>, s: Seq<char>)
    requires
        prefix.len() <= s.len(),
        prefix == s.take(prefix.len() as int),
        all_digits(prefix),
    ensures
        all_digits(s) ==> decimal_value(prefix) <= decimal_value(s),
    decreases s.len(),
{
    if all_digits(s) && prefix.len() < s.len() {
        assert(s.drop_last().take(prefix.len() as int) =~= prefix);
        assert(all_digits(s.drop_last()));
        lemma_decimal_value_grows(prefix, s.drop_last());
        assert(is_digit(s.last()));
    } else if prefix.len() == s.len() {
        assert(prefix =~= s);
    }
}

} // verus!
