//! Building text: decimal numbers and zero padding.

use vstd::prelude::*;

verus! {

/// The character of a decimal digit.
pub open spec fn digit_char(d: nat) -> char {
    if d == 0 { '0' }
    else if d == 1 { '1' }
    else if d == 2 { '2' }
    else if d == 3 { '3' }
    else if d == 4 { '4' }
    else if d == 5 { '5' }
    else if d == 6 { '6' }
    else if d == 7 { '7' }
    else if d == 8 { '8' }
    else { '9' }
}

/// The decimal representation of `n`, without leading zeros ("0" for zero).
pub open spec fn decimal(n: nat) -> Seq<char>
    decreases n,
{
    if n < 10 {
        seq![digit_char(n)]
    } else {
        decimal(n / 10).push(digit_char(n % 10))
    }
}

/// `count` zero characters.
pub open spec fn zeros(count: nat) -> Seq<char> {
    Seq::new(count, |i: int| '0')
}

/// The decimal representation of `n`, padded with leading zeros to at least `width` characters.
pub open spec fn zero_padded(n: nat, width: nat) -> Seq<char> {
    let digits = decimal(n);
    if digits.len() < width {
        zeros((width - digits.len()) as nat) + digits
    } else {
        digits
    }
}

/// Appends one character to a string.
///
/// Calls `String::push`, which appends the character at the end of the string
/// and changes nothing else.
#[verifier::external_body]
pub fn string_push(s: &mut String, c: char)
    ensures
        final(s)@ == old(s)@.push(c),
{
    s.push(c);
}

/// The character of the decimal digit `d`.
fn digit_to_char(d: u64) -> (c: char)
    requires
        d < 10,
    ensures
        c == digit_char(d as nat),
{
    match d {
        0 => '0',
        1 => '1',
        2 => '2',
        3 => '3',
        4 => '4',
        5 => '5',
        6 => '6',
        7 => '7',
        8 => '8',
        _ => '9',
    }
}

/// Appends the decimal representation of `n` to `s`.
pub fn push_decimal(s: &mut String, n: u64)
    ensures
        final(s)@ == old(s)@ + decimal(n as nat),
    decreases n,
{
    if n >= 10 {
        push_decimal(s, n / 10);
    }
    let c = digit_to_char(n % 10);
    string_push(s, c);
    proof {
        if n >= 10 {
            assert(old(s)@ + decimal(n as nat) =~= old(s)@ + decimal((n / 10) as nat) + seq![c]);
        } else {
            assert(decimal(n as nat) =~= seq![c]);
        }
    }
}

/// The number of digits of the decimal representation of `n`.
pub fn decimal_len(n: u64) -> (r: usize)
    ensures
        r == decimal(n as nat).len(),
        1 <= r <= 20,
    decreases n,
{
    if n < 10 {
        1
    } else {
        let r = decimal_len(n / 10);
        proof {
            assert(n / 10 < n);
            if r == 20 {
                lemma_decimal_len_bound(n as nat);
            }
        }
        r + 1
    }
}

/// A number below `10^k` has at most `k` digits; in particular a `u64` has at most 20.
proof fn lemma_decimal_len_bound(n: nat)
    requires
        n <= u64::MAX,
    ensures
        decimal(n).len() <= 20,
{
    assert(pow10(20) == 100000000000000000000) by {
        reveal_with_fuel(pow10, 21);
    }
    lemma_decimal_len_below(n, 20, 100000000000000000000);
}

proof fn lemma_decimal_len_below(n: nat, k: nat, p: nat)
    requires
        n < p,
        k >= 1,
        p == pow10(k),
    ensures
        decimal(n).len() <= k,
    decreases k,
{
    if n >= 10 {
        assert(k >= 2) by {
            if k == 1 {
                assert(p == 10) by {
                    reveal_with_fuel(pow10, 2);
                }
            }
        }
        assert(pow10(k) == 10 * pow10((k - 1) as nat));
        assert(n / 10 < pow10((k - 1) as nat));
        lemma_decimal_len_below(n / 10, (k - 1) as nat, pow10((k - 1) as nat));
    }
}

/// Ten to the power of `k`.
pub open spec fn pow10(k: nat) -> nat
    decreases k,
{
    if k == 0 {
        1
    } else {
        10 * pow10((k - 1) as nat)
    }
}

/// Appends the decimal representation of `n`, padded with leading zeros to
/// at least `width` characters.
pub fn push_zero_padded(s: &mut String, n: u64, width: usize)
    ensures
        final(s)@ == old(s)@ + zero_padded(n as nat, width as nat),
{
    let len = decimal_len(n);
    let mut i: usize = len;
    while i < width
        invariant
            len <= i,
            len < width ==> i <= width,
            len >= width ==> i == len,
            s@ == old(s)@ + zeros((i - len) as nat),
        decreases width - i,
    {
        string_push(s, '0');
        proof {
            assert(zeros((i - len) as nat).push('0') =~= zeros((i + 1 - len) as nat));
        }
        i = i + 1;
    }
    proof {
        if len >= width {
            assert(i == len);
            assert(old(s)@ + zeros(0) =~= old(s)@);
        }
    }
    push_decimal(s, n);
    proof {
        if len < width {
            assert(i == width);
        }
        assert(s@ =~= old(s)@ + zero_padded(n as nat, width as nat));
    }
}

/// Whether `c` is a decimal digit.
pub open spec fn is_digit(c: char) -> bool {
    '0' <= c <= '9'
}

/// The value of the decimal digit `c`.
pub open spec fn digit_value(c: char) -> nat {
    (c as u32 - '0' as u32) as nat
}

/// The value of the decimal digits `s`, the most significant first.
pub open spec fn digits_value(s: Seq<char>) -> nat
    decreases s.len(),
{
    if s.len() == 0 {
        0
    } else {
        digits_value(s.drop_last()) * 10 + digit_value(s.last())
    }
}

/// The digits of an unsigned number: the text without one leading `+`.
pub open spec fn unsigned_digits(s: Seq<char>) -> Seq<char> {
    if s.len() > 0 && s[0] == '+' {
        s.drop_first()
    } else {
        s
    }
}

/// The unsigned number that `s` spells, as `from_str` of the unsigned
/// integers reads it, if it is at most `max`: an optional `+` followed by at
/// least one decimal digit.
pub open spec fn spec_parse_unsigned(s: Seq<char>, max: nat) -> Option<nat> {
    let d = unsigned_digits(s);
    if d.len() > 0 && (forall|i: int| 0 <= i < d.len() ==> is_digit(#[trigger] d[i]))
        && digits_value(d) <= max {
        Some(digits_value(d))
    } else {
        None
    }
}

proof fn lemma_digits_value_grows(s: Seq<char>, j: int, k: int)
    requires
        0 <= j <= k <= s.len(),
    ensures
        digits_value(s.take(j)) <= digits_value(s.take(k)),
    decreases k - j,
{
    if j < k {
        lemma_digits_value_grows(s, j, k - 1);
        assert(s.take(k).drop_last() =~= s.take(k - 1));
    }
}

/// Reads the unsigned number that `s` spells, see [spec_parse_unsigned].
pub fn parse_unsigned(s: &str, max: u64) -> (r: Option<u64>)
    ensures
        match spec_parse_unsigned(s@, max as nat) {
            Some(v) => r == Some(v as u64),
            None => r is None,
        },
{
    let len = s.unicode_len();
    let mut i: usize = 0;
    if len > 0 && s.get_char(0) == '+' {
        i = 1;
    }
    let ghost d = unsigned_digits(s@);
    let ghost first = i as int;
    assert(d =~= s@.skip(first));
    if i >= len {
        return None;
    }
    let mut value: u64 = 0;
    let mut too_large = false;
    while i < len
        invariant
            len == s@.len(),
            d == unsigned_digits(s@),
            d == s@.skip(first),
            0 <= first <= i <= len,
            first < len,
            forall|k: int| 0 <= k < i - first ==> is_digit(#[trigger] d[k]),
            !too_large ==> value == digits_value(d.take(i - first)) && value <= max,
            too_large ==> digits_value(d.take(i - first)) > max,
        decreases len - i,
    {
        let c = s.get_char(i);
        if !('0' <= c && c <= '9') {
            assert(!is_digit(d[i - first]));
            return None;
        }
        let digit = ((c as u32) - ('0' as u32)) as u64;
        proof {
            assert(d.take(i - first + 1).drop_last() =~= d.take(i - first));
            assert(d.take(i - first + 1).last() == c);
        }
        if !too_large {
            if digit > max || value > (max - digit) / 10 {
                too_large = true;
                assert(value * 10 + digit > max) by (nonlinear_arith)
                    requires
                        digit > max || value > (max - digit) / 10,
                ;
            } else {
                assert(value * 10 + digit <= max) by (nonlinear_arith)
                    requires
                        value <= (max - digit) / 10,
                        digit <= max,
                ;
                value = value * 10 + digit;
            }
        } else {
            assert(digits_value(d.take(i - first + 1)) >= digits_value(d.take(i - first))) by {
                lemma_digits_value_grows(d, i - first, i - first + 1);
            }
        }
        i += 1;
    }
    assert(d.take(len - first) =~= d);
    if too_large {
        None
    } else {
        Some(value)
    }
}

} // verus!
