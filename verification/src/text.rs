//! Text helpers shared by the commands.
//!
//! Strings are viewed as sequences of characters. The helpers here turn a
//! string into a vector of characters once, so that the commands can scan it
//! by index.

use vstd::prelude::*;
use vstd::string::StringExecFns;

verus! {

/// Whether `c` is a digit in the given base, which is at most ten.
pub open spec fn is_digit(c: char, base: int) -> bool {
    ('0' as u32) <= (c as u32) && (c as u32) < ('0' as u32) + base
}

/// Whether `digits` holds digits of the given base and nothing else.
pub open spec fn all_digits(digits: Seq<char>, base: int) -> bool {
    forall|i: int| 0 <= i < digits.len() ==> is_digit(#[trigger] digits[i], base)
}

/// The number that a sequence of digits writes in the given base.
pub open spec fn digits_value(digits: Seq<char>, base: int) -> int
    decreases digits.len(),
{
    if digits.len() == 0 {
        0
    } else {
        base * digits_value(digits.drop_last(), base) + (digits.last() as u32 - '0' as u32)
    }
}

/// The number that `digits` writes, if it holds one or more digits of the
/// base, nothing else, and the number fits in 32 bits.
pub open spec fn digits_number(digits: Seq<char>, base: int) -> Option<u32> {
    if digits.len() > 0 && all_digits(digits, base) && digits_value(digits, base) <= u32::MAX {
        Some(digits_value(digits, base) as u32)
    } else {
        None
    }
}

/// The number that `text` writes: digits as in `digits_number`, which a
/// single `+` may precede.
pub open spec fn unsigned_number(text: Seq<char>, base: int) -> Option<u32> {
    if text.len() > 0 && text[0] == '+' {
        digits_number(text.skip(1), base)
    } else {
        digits_number(text, base)
    }
}

/// The character that writes a digit below ten.
pub open spec fn digit_char(d: int) -> char {
    if d == 0 {
        '0'
    } else if d == 1 {
        '1'
    } else if d == 2 {
        '2'
    } else if d == 3 {
        '3'
    } else if d == 4 {
        '4'
    } else if d == 5 {
        '5'
    } else if d == 6 {
        '6'
    } else if d == 7 {
        '7'
    } else if d == 8 {
        '8'
    } else {
        '9'
    }
}

/// A number written in decimal, without sign or leading zeros.
pub open spec fn decimal(n: nat) -> Seq<char>
    decreases n,
{
    if n < 10 {
        seq![digit_char(n as int)]
    } else {
        decimal(n / 10).push(digit_char((n % 10) as int))
    }
}

/// Index of the first `c` in `s` at or after `from`; `s.len()` when there is
/// none.
pub open spec fn first_index_from(s: Seq<char>, c: char, from: int) -> int
    decreases s.len() - from,
{
    if from < 0 || from >= s.len() {
        s.len() as int
    } else if s[from] == c {
        from
    } else {
        first_index_from(s, c, from + 1)
    }
}

/// Index of the first `c` in `s`; `s.len()` when `s` does not hold `c`.
pub open spec fn first_index(s: Seq<char>, c: char) -> int {
    first_index_from(s, c, 0)
}

/// What `first_index_from` finds is the first `c` at or after `from`: no
/// position before it holds `c`, and it is the length exactly when no
/// position does.
pub proof fn lemma_first_index_from(s: Seq<char>, c: char, from: int)
    requires
        0 <= from <= s.len(),
    ensures
        from <= first_index_from(s, c, from) <= s.len(),
        forall|j: int| from <= j < first_index_from(s, c, from) ==> s[j] != c,
        first_index_from(s, c, from) < s.len() ==> s[first_index_from(s, c, from)] == c,
    decreases s.len() - from,
{
    if from < s.len() && s[from] != c {
        lemma_first_index_from(s, c, from + 1);
    }
}

/// `first_index` points into `s` exactly when `s` holds `c`.
pub proof fn lemma_first_index(s: Seq<char>, c: char)
    ensures
        0 <= first_index(s, c) <= s.len(),
        forall|j: int| 0 <= j < first_index(s, c) ==> s[j] != c,
        first_index(s, c) < s.len() ==> s[first_index(s, c)] == c,
        first_index(s, c) < s.len() <==> s.contains(c),
{
    lemma_first_index_from(s, c, 0);
}

/// The texts of a sequence of strings.
pub open spec fn texts(strings: Seq<String>) -> Seq<Seq<char>> {
    strings.map_values(|s: String| s@)
}

/// Whether `s` starts with a dot, as the name of a hidden entry does.
pub open spec fn dot_first(s: Seq<char>) -> bool {
    s.len() > 0 && s[0] == '.'
}

/// Whether a dot follows a slash somewhere in `s`: whether some component
/// of the path `s`, other than the first, starts with a dot.
pub open spec fn has_slash_dot(s: Seq<char>) -> bool {
    exists|i: int| 0 <= i && i + 1 < s.len() && #[trigger] s[i] == '/' && s[i + 1] == '.'
}

/// The characters of `s`, in order.
pub fn chars_of(s: &str) -> (out: Vec<char>)
    ensures
        out@ == s@,
{
    let mut out: Vec<char> = Vec::new();
    for c in it: s.chars()
        invariant
            out@ == it.seq().take(it.index() as int),
            it.seq() == s@,
    {
        out.push(c);
    }
    out
}

/// Finds the first `c` in `chars` at or after `from`; the length when there
/// is none.
pub fn find_char_from(chars: &Vec<char>, c: char, from: usize) -> (at: usize)
    requires
        from <= chars.len(),
    ensures
        at == first_index_from(chars@, c, from as int),
        from <= at <= chars.len(),
{
    let mut at: usize = from;
    while at < chars.len()
        invariant
            from <= at <= chars.len(),
            first_index_from(chars@, c, at as int) == first_index_from(chars@, c, from as int),
        decreases chars.len() - at,
    {
        if chars[at] == c {
            return at;
        }
        at += 1;
    }
    at
}

/// Finds the first `c` in `chars`; the length when there is none.
pub fn find_char(chars: &Vec<char>, c: char) -> (at: usize)
    ensures
        at == first_index(chars@, c),
        at <= chars.len(),
        at < chars.len() <==> chars@.contains(c),
{
    proof {
        lemma_first_index(chars@, c);
    }
    find_char_from(chars, c, 0)
}

/// Whether `c` occurs in `chars` at an index from `lo` up to, not
/// including, `hi`.
pub fn range_has(chars: &Vec<char>, lo: usize, hi: usize, c: char) -> (found: bool)
    requires
        lo <= hi <= chars.len(),
    ensures
        found == chars@.subrange(lo as int, hi as int).contains(c),
{
    let ghost part = chars@.subrange(lo as int, hi as int);
    let mut i: usize = lo;
    while i < hi
        invariant
            lo <= i <= hi <= chars.len(),
            part == chars@.subrange(lo as int, hi as int),
            forall|j: int| 0 <= j < i - lo ==> part[j] != c,
        decreases hi - i,
    {
        if chars[i] == c {
            assert(part[i - lo] == c);
            return true;
        }
        i += 1;
    }
    false
}

/// Whether `s` starts with a dot.
pub fn starts_with_dot(s: &str) -> (yes: bool)
    ensures
        yes == dot_first(s@),
{
    s.unicode_len() > 0 && s.get_char(0) == '.'
}

/// Whether `s` holds a slash with a dot right after it.
pub fn contains_slash_dot(s: &str) -> (yes: bool)
    ensures
        yes == has_slash_dot(s@),
{
    let chars = chars_of(s);
    let mut i: usize = 1;
    while i < chars.len()
        invariant
            1 <= i,
            chars@ == s@,
            forall|j: int| 0 <= j && j + 1 < i ==> !(#[trigger] chars@[j] == '/' && chars@[j + 1]
                == '.'),
        decreases chars.len() - i,
    {
        if chars[i - 1] == '/' && chars[i] == '.' {
            return true;
        }
        i += 1;
    }
    false
}

/// The digits read so far never write more than all the digits do.
proof fn lemma_digits_value_bounds(digits: Seq<char>, base: int, k: int)
    requires
        0 <= k <= digits.len(),
        1 <= base <= 10,
        all_digits(digits, base),
    ensures
        0 <= digits_value(digits.take(k), base) <= digits_value(digits, base),
    decreases digits.len() - k,
{
    if k == digits.len() {
        assert(digits.take(k) =~= digits);
        lemma_digits_value_nonnegative(digits, base);
    } else {
        lemma_digits_value_bounds(digits, base, k + 1);
        lemma_digits_value_nonnegative(digits.take(k), base);
        assert(digits.take(k + 1).drop_last() =~= digits.take(k));
        assert(is_digit(digits[k], base));
        let v = digits_value(digits.take(k), base);
        assert(base * v >= v) by (nonlinear_arith)
            requires
                base >= 1,
                v >= 0,
        ;
    }
}

/// Digits write a number that is not negative.
proof fn lemma_digits_value_nonnegative(digits: Seq<char>, base: int)
    requires
        1 <= base <= 10,
        all_digits(digits, base),
    ensures
        0 <= digits_value(digits, base),
    decreases digits.len(),
{
    if digits.len() > 0 {
        lemma_digits_value_nonnegative(digits.drop_last(), base);
        assert(is_digit(digits.last(), base));
        let v = digits_value(digits.drop_last(), base);
        assert(base * v >= 0) by (nonlinear_arith)
            requires
                base >= 1,
                v >= 0,
        ;
    }
}

/// Reads `chars[lo..hi]` as an unsigned number in a base from two to ten.
fn parse_unsigned(chars: &Vec<char>, lo: usize, hi: usize, base: u32) -> (number: Option<u32>)
    requires
        lo <= hi <= chars.len(),
        2 <= base <= 10,
    ensures
        number == unsigned_number(chars@.subrange(lo as int, hi as int), base as int),
{
    let ghost text = chars@.subrange(lo as int, hi as int);
    let start: usize = if lo < hi && chars[lo] == '+' {
        lo + 1
    } else {
        lo
    };
    let ghost digits = chars@.subrange(start as int, hi as int);
    assert(text.skip(0) =~= text);
    assert(digits =~= text.skip(start - lo));
    if start == hi {
        return None;
    }
    let mut value: u64 = 0;
    let mut i: usize = start;
    while i < hi
        invariant
            lo <= start <= i <= hi <= chars.len(),
            start < hi,
            2 <= base <= 10,
            text == chars@.subrange(lo as int, hi as int),
            unsigned_number(text, base as int) == digits_number(digits, base as int),
            digits == chars@.subrange(start as int, hi as int),
            all_digits(digits.take(i - start), base as int),
            value == digits_value(digits.take(i - start), base as int),
            value <= u32::MAX,
        decreases hi - i,
    {
        let c: u32 = chars[i] as u32;
        if c < '0' as u32 || c >= '0' as u32 + base {
            assert(!is_digit(digits[i - start], base as int));
            return None;
        }
        let ghost longer = digits.take(i - start + 1);
        assert(longer.drop_last() =~= digits.take(i - start));
        assert(longer.last() == chars@[i as int]);
        assert(all_digits(longer, base as int)) by {
            assert forall|j: int| 0 <= j < longer.len() implies is_digit(
                #[trigger] longer[j],
                base as int,
            ) by {
                if j < i - start {
                    assert(digits.take(i - start)[j] == longer[j]);
                }
            }
        }
        assert(value * base <= 10 * 0xffff_ffff && value * base == base * value) by (nonlinear_arith)
            requires
                0 <= value <= 0xffff_ffff,
                0 <= base <= 10,
        ;
        value = value * base as u64 + (c - '0' as u32) as u64;
        assert(value == digits_value(longer, base as int));
        if value > u32::MAX as u64 {
            proof {
                if all_digits(digits, base as int) {
                    lemma_digits_value_bounds(digits, base as int, i - start + 1);
                }
            }
            return None;
        }
        i += 1;
    }
    assert(digits.take(i - start) =~= digits);
    Some(value as u32)
}

/// Reads `chars[lo..hi]` as an unsigned decimal number.
pub fn parse_decimal(chars: &Vec<char>, lo: usize, hi: usize) -> (number: Option<u32>)
    requires
        lo <= hi <= chars.len(),
    ensures
        number == unsigned_number(chars@.subrange(lo as int, hi as int), 10),
{
    parse_unsigned(chars, lo, hi, 10)
}

/// Reads `chars[lo..hi]` as an unsigned octal number.
pub fn parse_octal(chars: &Vec<char>, lo: usize, hi: usize) -> (number: Option<u32>)
    requires
        lo <= hi <= chars.len(),
    ensures
        number == unsigned_number(chars@.subrange(lo as int, hi as int), 8),
{
    parse_unsigned(chars, lo, hi, 8)
}

/// Appends one decimal digit to `out`.
fn push_digit(out: &mut String, d: u64)
    requires
        d < 10,
    ensures
        final(out)@ == old(out)@.push(digit_char(d as int)),
{
    proof {
        reveal_strlit("0");
        reveal_strlit("1");
        reveal_strlit("2");
        reveal_strlit("3");
        reveal_strlit("4");
        reveal_strlit("5");
        reveal_strlit("6");
        reveal_strlit("7");
        reveal_strlit("8");
        reveal_strlit("9");
    }
    let digit = if d == 0 {
        "0"
    } else if d == 1 {
        "1"
    } else if d == 2 {
        "2"
    } else if d == 3 {
        "3"
    } else if d == 4 {
        "4"
    } else if d == 5 {
        "5"
    } else if d == 6 {
        "6"
    } else if d == 7 {
        "7"
    } else if d == 8 {
        "8"
    } else {
        "9"
    };
    assert(digit@ =~= seq![digit_char(d as int)]);
    out.append(digit);
    assert(out@ =~= old(out)@.push(digit_char(d as int)));
}

/// Appends `n`, written in decimal, to `out`.
pub fn push_decimal(out: &mut String, n: u64)
    ensures
        final(out)@ == old(out)@ + decimal(n as nat),
    decreases n,
{
    if n >= 10 {
        push_decimal(out, n / 10);
    }
    push_digit(out, n % 10);
    assert(out@ =~= old(out)@ + decimal(n as nat));
}

/// `n` written in decimal.
pub fn decimal_string(n: u64) -> (text: String)
    ensures
        text@ == decimal(n as nat),
{
    let mut text = String::new();
    push_decimal(&mut text, n);
    assert(text@ =~= decimal(n as nat));
    text
}

} // verus!
