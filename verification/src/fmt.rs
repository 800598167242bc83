//! Numbers as text: decimal and hexadecimal digits.

use vstd::prelude::*;

verus! {

/// `String::push` of the standard library: the character is added at the
/// end of the string.
#[verifier::external_body]
pub(crate) fn string_push(s: &mut String, c: char)
    ensures
        final(s)@ == old(s)@.push(c),
{
    s.push(c);
}

/// The character of a hexadecimal digit, in lower case.
pub open spec fn hex_digit(d: int) -> char {
    if d == 0 {
        '0'
    } else if d == 1 {
        '1'
    } else if d == 2 {
        '2'
    } else if d == 3 {
        '3'
    } else if d == 4 {
        '4'
    } else if d == 5 {
        '5'
    } else if d == 6 {
        '6'
    } else if d == 7 {
        '7'
    } else if d == 8 {
        '8'
    } else if d == 9 {
        '9'
    } else if d == 10 {
        'a'
    } else if d == 11 {
        'b'
    } else if d == 12 {
        'c'
    } else if d == 13 {
        'd'
    } else if d == 14 {
        'e'
    } else {
        'f'
    }
}

/// The character of a hexadecimal digit, in lower case.
pub fn hex_char(d: u8) -> (r: char)
    requires
        d < 16,
    ensures
        r == hex_digit(d as int),
{
    match d {
        0 => '0',
        1 => '1',
        2 => '2',
        3 => '3',
        4 => '4',
        5 => '5',
        6 => '6',
        7 => '7',
        8 => '8',
        9 => '9',
        10 => 'a',
        11 => 'b',
        12 => 'c',
        13 => 'd',
        14 => 'e',
        _ => 'f',
    }
}

/// A number in decimal, without sign nor leading zeros.
pub open spec fn decimal(n: nat) -> Seq<char>
    decreases n,
{
    if n < 10 {
        seq![hex_digit(n as int)]
    } else {
        decimal(n / 10).push(hex_digit((n % 10) as int))
    }
}

/// A number in hexadecimal, in lower case, without prefix nor leading
/// zeros.
pub open spec fn hexadecimal(n: nat) -> Seq<char>
    decreases n,
{
    if n < 16 {
        seq![hex_digit(n as int)]
    } else {
        hexadecimal(n / 16).push(hex_digit((n % 16) as int))
    }
}

/// A number in hexadecimal, in lower case, filled with zeros on the left up
/// to `width` digits.
pub open spec fn hexadecimal_padded(n: nat, width: nat) -> Seq<char>
    decreases width,
{
    if hexadecimal(n).len() >= width {
        hexadecimal(n)
    } else {
        Seq::new((width - hexadecimal(n).len()) as nat, |i: int| '0') + hexadecimal(n)
    }
}

/// A signed number in decimal: a minus sign in front of a negative number.
pub open spec fn signed_decimal(n: int) -> Seq<char> {
    if n < 0 {
        seq!['-'] + decimal((-n) as nat)
    } else {
        decimal(n as nat)
    }
}

/// The digits of `n` in base 16 if `base` is 16 and in base 10 otherwise,
/// least significant first.
spec fn digits_rev(n: nat, base: nat) -> Seq<char>
    decreases n,
{
    if base == 16 {
        if n < 16 {
            seq![hex_digit(n as int)]
        } else {
            seq![hex_digit((n % 16) as int)] + digits_rev(n / 16, 16)
        }
    } else {
        if n < 10 {
            seq![hex_digit(n as int)]
        } else {
            seq![hex_digit((n % 10) as int)] + digits_rev(n / 10, base)
        }
    }
}

proof fn lemma_digits_rev_decimal(n: nat)
    ensures
        digits_rev(n, 10).reverse() =~= decimal(n),
    decreases n,
{
    if n >= 10 {
        lemma_digits_rev_decimal(n / 10);
        let head = seq![hex_digit((n % 10) as int)];
        let tail = digits_rev(n / 10, 10);
        assert((head + tail).reverse() =~= tail.reverse().push(hex_digit((n % 10) as int)));
    } else {
        assert(seq![hex_digit(n as int)].reverse() =~= seq![hex_digit(n as int)]);
    }
}

proof fn lemma_digits_rev_hexadecimal(n: nat)
    ensures
        digits_rev(n, 16).reverse() =~= hexadecimal(n),
    decreases n,
{
    if n >= 16 {
        lemma_digits_rev_hexadecimal(n / 16);
        let head = seq![hex_digit((n % 16) as int)];
        let tail = digits_rev(n / 16, 16);
        assert((head + tail).reverse() =~= tail.reverse().push(hex_digit((n % 16) as int)));
    } else {
        assert(seq![hex_digit(n as int)].reverse() =~= seq![hex_digit(n as int)]);
    }
}

/// The digits of `n` in base 10 or 16, least significant first.
fn digits_of(n: u64, base: u64) -> (r: Vec<char>)
    requires
        base == 10 || base == 16,
    ensures
        r@ == digits_rev(n as nat, base as nat),
        r@.len() > 0,
{
    let mut out: Vec<char> = Vec::new();
    let mut left: u64 = n;
    while left >= base
        invariant
            base == 10 || base == 16,
            out@ + digits_rev(left as nat, base as nat) == digits_rev(n as nat, base as nat),
        decreases left,
    {
        let d: u8 = (left % base) as u8;
        let ghost before = out@;
        out.push(hex_char(d));
        assert(out@ + digits_rev((left / base) as nat, base as nat) =~= before + digits_rev(
            left as nat,
            base as nat,
        ));
        left = left / base;
    }
    let ghost before = out@;
    out.push(hex_char(left as u8));
    assert(out@ =~= before + digits_rev(left as nat, base as nat));
    out
}

/// Adds the characters of `digits` to `out`, last first.
fn push_reversed(out: &mut String, digits: &Vec<char>)
    ensures
        final(out)@ == old(out)@ + digits@.reverse(),
{
    let mut i: usize = digits.len();
    assert(out@ =~= old(out)@ + digits@.reverse().take(0));
    while i > 0
        invariant
            i <= digits@.len(),
            out@ == old(out)@ + digits@.reverse().take(digits@.len() - i),
        decreases i,
    {
        i -= 1;
        string_push(out, digits[i]);
        assert(digits@.reverse()[digits@.len() - 1 - i] == digits@[i as int]);
        assert(digits@.reverse().take(digits@.len() - i) =~= digits@.reverse().take(
            digits@.len() - i - 1,
        ).push(digits@[i as int]));
    }
    assert(digits@.reverse().take(digits@.len() as int) =~= digits@.reverse());
}

/// Adds `n` to `out`, in decimal.
pub fn push_decimal(out: &mut String, n: u64)
    ensures
        final(out)@ == old(out)@ + decimal(n as nat),
{
    let digits = digits_of(n, 10);
    proof {
        lemma_digits_rev_decimal(n as nat);
    }
    push_reversed(out, &digits);
}

/// Adds `n` to `out`, in decimal, with a minus sign if it is negative.
pub fn push_signed_decimal(out: &mut String, n: i64)
    ensures
        final(out)@ == old(out)@ + signed_decimal(n as int),
{
    if n < 0 {
        string_push(out, '-');
        let magnitude: u64 = if n == i64::MIN {
            9223372036854775808u64
        } else {
            (-n) as u64
        };
        let ghost mid = out@;
        push_decimal(out, magnitude);
        assert(out@ =~= old(out)@ + (seq!['-'] + decimal((-n) as nat)));
    } else {
        push_decimal(out, n as u64);
    }
}

/// Adds `n` to `out`, in hexadecimal.
pub fn push_hexadecimal(out: &mut String, n: u64)
    ensures
        final(out)@ == old(out)@ + hexadecimal(n as nat),
{
    let digits = digits_of(n, 16);
    proof {
        lemma_digits_rev_hexadecimal(n as nat);
    }
    push_reversed(out, &digits);
}

/// Adds `n` to `out`, in hexadecimal, filled with zeros on the left up to
/// `width` digits.
pub fn push_hexadecimal_padded(out: &mut String, n: u64, width: usize)
    ensures
        final(out)@ == old(out)@ + hexadecimal_padded(n as nat, width as nat),
{
    let digits = digits_of(n, 16);
    proof {
        lemma_digits_rev_hexadecimal(n as nat);
        assert(digits@.reverse().len() == digits@.len());
    }
    let mut filled: usize = digits.len();
    let ghost start = out@;
    assert(out@ =~= start + Seq::new(0nat, |i: int| '0'));
    while filled < width
        invariant
            digits@.len() <= filled,
            filled <= width || filled == digits@.len(),
            out@ == start + Seq::new((filled - digits@.len()) as nat, |i: int| '0'),
        decreases width - filled,
    {
        let ghost before = out@;
        string_push(out, '0');
        filled += 1;
        assert(out@ =~= start + Seq::new((filled - digits@.len()) as nat, |i: int| '0'));
    }
    let ghost mid = out@;
    push_reversed(out, &digits);
    proof {
        if digits@.len() >= width {
            assert(mid =~= start);
        } else {
            assert(filled == width);
        }
        assert(out@ =~= old(out)@ + hexadecimal_padded(n as nat, width as nat));
    }
}

/// The text of `n` in decimal.
pub fn decimal_string(n: u64) -> (r: String)
    ensures
        r@ == decimal(n as nat),
{
    let mut out = String::new();
    push_decimal(&mut out, n);
    assert(out@ =~= decimal(n as nat));
    out
}

} // verus!
