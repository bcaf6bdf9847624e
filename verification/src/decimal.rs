//! Natural numbers as decimal text, both ways.

use vstd::prelude::*;

verus! {

/// The character for the digit `d`.
pub open spec fn digit_char(d: nat) -> char {
    ((48 + d) as u8) as char
}

/// Whether `c` is one of `0` to `9`.
pub open spec fn is_digit(c: char) -> bool {
    '0' <= c <= '9'
}

/// The value of the digit `c`.
pub open spec fn digit_value(c: char) -> nat {
    (c as int - 48) as nat
}

/// The decimal digits of `n`, without leading zeros.
pub open spec fn decimal(n: nat) -> Seq<char>
    decreases n,
{
    if n < 10 {
        seq![digit_char(n)]
    } else {
        decimal(n / 10).push(digit_char(n % 10))
    }
}

/// `count` zeros.
pub open spec fn zeros(count: nat) -> Seq<char> {
    Seq::new(count, |i: int| '0')
}

/// The decimal digits of `n`, with zeros in front where they are fewer
/// than `width`.
pub open spec fn zero_padded(n: nat, width: nat) -> Seq<char> {
    if decimal(n).len() < width {
        zeros((width - decimal(n).len()) as nat) + decimal(n)
    } else {
        decimal(n)
    }
}

/// The number that a sequence of digits denotes.
pub open spec fn digits_value(digits: Seq<char>) -> nat
    decreases digits.len(),
{
    if digits.len() == 0 {
        0
    } else {
        digits_value(digits.drop_last()) * 10 + digit_value(digits.last())
    }
}

/// Whether `digits` is one digit or more and nothing else.
pub open spec fn all_digits(digits: Seq<char>) -> bool {
    digits.len() > 0 && forall|i: int| 0 <= i < digits.len() ==> is_digit(#[trigger] digits[i])
}

/// The text without a plus sign in front, if it has one.
pub open spec fn unsigned_part(text: Seq<char>) -> Seq<char> {
    if text.len() > 0 && text[0] == '+' {
        text.drop_first()
    } else {
        text
    }
}

/// The natural number that `text` denotes: digits, with at most a plus
/// sign before them. Anything else denotes none.
pub open spec fn natural(text: Seq<char>) -> Option<nat> {
    if all_digits(unsigned_part(text)) {
        Some(digits_value(unsigned_part(text)))
    } else {
        None
    }
}

/// The natural number that `text` denotes, where it fits a `usize`.
pub open spec fn natural_usize(text: Seq<char>) -> Option<usize> {
    match natural(text) {
        Some(n) => if n <= usize::MAX {
            Some(n as usize)
        } else {
            None
        },
        None => None,
    }
}

/// The digits of a number denote that number.
pub proof fn lemma_decimal_round_trip(n: nat)
    ensures
        all_digits(decimal(n)),
        digits_value(decimal(n)) == n,
        natural(decimal(n)) == Some(n),
    decreases n,
{
    if n < 10 {
        assert(decimal(n).drop_last() =~= Seq::<char>::empty());
        assert(digits_value(decimal(n).drop_last()) == 0);
    } else {
        lemma_decimal_round_trip(n / 10);
        assert(decimal(n).drop_last() =~= decimal(n / 10));
    }
    assert(decimal(n)[0] != '+');
}

/// A longer run of digits denotes no less than its beginning.
proof fn lemma_prefix_value(digits: Seq<char>, k: int)
    requires
        0 <= k <= digits.len(),
    ensures
        digits_value(digits.take(k)) <= digits_value(digits),
    decreases digits.len() - k,
{
    if k == digits.len() {
        assert(digits.take(k) =~= digits);
    } else {
        lemma_prefix_value(digits.drop_last(), k);
        assert(digits.drop_last().take(k) =~= digits.take(k));
        assert(digits_value(digits.drop_last()) * 10 >= digits_value(digits.drop_last()))
            by (nonlinear_arith);
    }
}

/// `String::push` of std appends one character to the end of the string.
pub assume_specification[ String::push ](text: &mut String, ch: char)
    ensures
        final(text)@ == old(text)@.push(ch),
;

/// The characters of `text`, one by one.
pub fn chars_of(text: &str) -> (chars: Vec<char>)
    ensures
        chars@ == text@,
{
    broadcast use vstd::string::group_string_axioms;

    let mut chars: Vec<char> = Vec::new();
    for c in it: text.chars()
        invariant
            it.seq() == text@,
            chars@ == it.seq().take(it.index()),
    {
        chars.push(c);
    }
    chars
}

/// Appends the characters of `chars` from index `from` on to `text`.
pub fn push_chars(text: &mut String, chars: &Vec<char>, from: usize)
    requires
        from <= chars@.len(),
    ensures
        final(text)@ == old(text)@ + chars@.subrange(from as int, chars@.len() as int),
{
    let mut i: usize = from;
    while i < chars.len()
        invariant
            from <= i <= chars@.len(),
            text@ == old(text)@ + chars@.subrange(from as int, i as int),
        decreases chars.len() - i,
    {
        text.push(chars[i]);
        proof {
            assert(chars@.subrange(from as int, i + 1) =~= chars@.subrange(
                from as int,
                i as int,
            ).push(chars@[i as int]));
        }
        i += 1;
    }
}

/// Appends the decimal digits of `n` to `text`.
pub fn push_decimal(text: &mut String, n: usize)
    ensures
        final(text)@ == old(text)@ + decimal(n as nat),
    decreases n,
{
    if n >= 10 {
        push_decimal(text, n / 10);
    }
    let code: u8 = 48 + ((n % 10) as u8);
    text.push(code as char);
    proof {
        if n >= 10 {
            assert(final(text)@ =~= old(text)@ + decimal(n as nat));
        } else {
            assert(final(text)@ =~= old(text)@ + decimal(n as nat));
        }
    }
}

/// The number of decimal digits of `n`.
pub fn decimal_len(n: usize) -> (len: usize)
    ensures
        len == decimal(n as nat).len(),
        1 <= len <= 20,
{
    let mut len: usize = 1;
    let mut rest: usize = n;
    proof {
        assert(pow10(0) == 1);
        assert(rest as nat * pow10(0) == n) by (nonlinear_arith)
            requires
                pow10(0) == 1,
                rest == n,
        ;
    }
    while rest >= 10
        invariant
            1 <= len <= 20,
            decimal(n as nat).len() == decimal(rest as nat).len() + len - 1,
            rest as nat * pow10((len - 1) as nat) <= n,
        decreases rest,
    {
        proof {
            assert(rest / 10 * 10 <= rest);
            assert((rest / 10) as nat * pow10(len as nat) <= rest as nat * pow10((len - 1) as nat))
                by (nonlinear_arith)
                requires
                    (rest / 10) * 10 <= rest,
                    pow10(len as nat) == 10 * pow10((len - 1) as nat),
            ;
            lemma_pow10_bound(len as nat, (rest / 10) as nat, n as nat);
        }
        rest = rest / 10;
        len += 1;
    }
    len
}

/// Ten to the power `e`.
pub open spec fn pow10(e: nat) -> nat
    decreases e,
{
    if e == 0 {
        1
    } else {
        10 * pow10((e - 1) as nat)
    }
}

/// A number that fits 64 bits, and holds a positive multiple of ten to
/// the power `e`, has `e` below 20.
proof fn lemma_pow10_bound(e: nat, factor: nat, n: nat)
    requires
        factor >= 1,
        factor * pow10(e) <= n,
        n <= 0xffff_ffff_ffff_ffff,
    ensures
        e < 20,
{
    if e >= 20 {
        lemma_pow10_grows(20, e);
        assert(pow10(20) == 100_000_000_000_000_000_000) by {
            reveal_with_fuel(pow10, 21);
        }
        assert(factor * pow10(e) >= pow10(e)) by (nonlinear_arith)
            requires
                factor >= 1,
        ;
    }
}

/// Powers of ten grow with the exponent.
proof fn lemma_pow10_grows(small: nat, large: nat)
    requires
        small <= large,
    ensures
        pow10(small) <= pow10(large),
    decreases large,
{
    if small < large {
        lemma_pow10_grows(small, (large - 1) as nat);
    }
}

/// Appends the decimal digits of `n` to `text`, after as many zeros as
/// they fall short of `width`.
pub fn push_zero_padded(text: &mut String, n: usize, width: usize)
    ensures
        final(text)@ == old(text)@ + zero_padded(n as nat, width as nat),
{
    let len = decimal_len(n);
    let ghost start = text@;
    if len < width {
        let missing = width - len;
        let mut i: usize = 0;
        while i < missing
            invariant
                i <= missing,
                text@ == start + zeros(i as nat),
            decreases missing - i,
        {
            text.push('0');
            proof {
                assert(zeros((i + 1) as nat) =~= zeros(i as nat).push('0'));
            }
            i += 1;
        }
    } else {
        proof {
            assert(start + zeros(0) =~= start);
        }
    }
    let ghost padded = text@;
    push_decimal(text, n);
    proof {
        assert(text@ =~= start + zero_padded(n as nat, width as nat));
    }
}

/// Reads `text` as a natural number. There is none where `text` is not
/// made of digits, with at most a plus sign before them, or where the
/// number does not fit.
pub fn parse_natural(text: &str) -> (value: Option<usize>)
    ensures
        value == natural_usize(text@),
{
    let chars = chars_of(text);
    let start: usize = if chars.len() > 0 && chars[0] == '+' {
        1
    } else {
        0
    };
    let ghost digits = unsigned_part(text@);
    proof {
        assert(digits =~= chars@.subrange(start as int, chars@.len() as int));
    }
    if start == chars.len() {
        return None;
    }
    let mut value: usize = 0;
    let mut i: usize = start;
    proof {
        assert(digits.take(0) =~= Seq::<char>::empty());
    }
    while i < chars.len()
        invariant
            start <= i <= chars@.len(),
            start < chars@.len(),
            digits == chars@.subrange(start as int, chars@.len() as int),
            digits == unsigned_part(text@),
            forall|k: int| 0 <= k < i - start ==> is_digit(#[trigger] digits[k]),
            value == digits_value(digits.take(i - start)),
        decreases chars.len() - i,
    {
        let c = chars[i];
        if !('0' <= c && c <= '9') {
            proof {
                assert(digits[i - start] == c);
                assert(!is_digit(digits[i - start]));
            }
            return None;
        }
        let digit: usize = ((c as u8) - 48) as usize;
        proof {
            let longer = digits.take(i - start + 1);
            assert(longer.drop_last() =~= digits.take(i - start));
            assert(longer.last() == c);
            assert(digits_value(longer) == value * 10 + digit);
            lemma_prefix_value(digits, i - start + 1);
        }
        let scaled = match value.checked_mul(10) {
            Some(scaled) => scaled,
            None => {
                return None;
            },
        };
        value = match scaled.checked_add(digit) {
            Some(sum) => sum,
            None => {
                return None;
            },
        };
        i += 1;
    }
    proof {
        assert(digits.take(i - start) =~= digits);
    }
    Some(value)
}

} // verus!
