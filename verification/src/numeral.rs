//! How a number is written: the shortest decimal numeral that reads back as
//! the same double.
//!
//! The exact value of a finite double is `significand × 2^exponent`, which
//! is an integer over a power of ten. Its digits are cut to 1, 2, … 17
//! significant digits, rounding half to even, and the first cut that
//! `number_from_decimal` reads back as the very same double is written,
//! without an exponent. Seventeen digits tell any two doubles apart, so the
//! search ends there at the latest.

use vstd::prelude::*;
use vstd::string::StringExecFns;
use crate::number::{
    from_decimal, is_nan, is_negative, magnitude, number_from_decimal, INFINITY, SIGN,
};
use crate::text::{decimal, digit_char, push_char};

verus! {

/// `base` to the power `exp`.
pub open spec fn power(base: nat, exp: nat) -> nat
    decreases exp,
{
    if exp == 0 {
        1
    } else {
        base * power(base, (exp - 1) as nat)
    }
}

/// Two to the power 52: the weight of the hidden bit of a significand.
pub const HIDDEN: u64 = 0x10_0000_0000_0000u64;

/// The integer `m` of a finite double `m × 2^e`.
pub open spec fn significand(bits: u64) -> nat {
    let m = magnitude(bits);
    if m / (HIDDEN as int) == 0 {
        (m % (HIDDEN as int)) as nat
    } else {
        (m % (HIDDEN as int) + HIDDEN) as nat
    }
}

/// The integer `e` of a finite double `m × 2^e`.
pub open spec fn exponent(bits: u64) -> int {
    let m = magnitude(bits);
    if m / (HIDDEN as int) == 0 {
        -1074
    } else {
        m / (HIDDEN as int) - 1075
    }
}

/// The number of digits behind the decimal point of the exact value.
pub open spec fn scale(bits: u64) -> nat {
    if exponent(bits) >= 0 {
        0
    } else {
        (-exponent(bits)) as nat
    }
}

/// The exact value times ten to the power `scale`: an integer.
pub open spec fn numerator(bits: u64) -> nat {
    if exponent(bits) >= 0 {
        significand(bits) * power(2, exponent(bits) as nat)
    } else {
        significand(bits) * power(5, (-exponent(bits)) as nat)
    }
}

/// The value of a decimal digit.
pub open spec fn digit_value(c: char) -> nat {
    if c == '1' {
        1
    } else if c == '2' {
        2
    } else if c == '3' {
        3
    } else if c == '4' {
        4
    } else if c == '5' {
        5
    } else if c == '6' {
        6
    } else if c == '7' {
        7
    } else if c == '8' {
        8
    } else if c == '9' {
        9
    } else {
        0
    }
}

/// The integer that a string of decimal digits writes.
pub open spec fn numeral_value(digits: Seq<char>) -> nat
    decreases digits.len(),
{
    if digits.len() == 0 {
        0
    } else {
        10 * numeral_value(digits.drop_last()) + digit_value(digits.last())
    }
}

/// Whether any digit from `from` on is not a zero.
pub open spec fn any_nonzero(digits: Seq<char>, from: int) -> bool {
    exists|i: int| from <= i < digits.len() && digits[i] != '0'
}

/// Whether cutting `digits` behind its first `keep` digits rounds up: the
/// rest is more than half a unit, or exactly half and the digit kept last
/// is odd.
pub open spec fn rounds_up(digits: Seq<char>, keep: int) -> bool {
    0 < keep < digits.len() && (digit_value(digits[keep]) > 5 || (digit_value(digits[keep]) == 5
        && (any_nonzero(digits, keep + 1) || digit_value(digits[keep - 1]) % 2 == 1)))
}

/// `count` zeros.
pub open spec fn zeros(count: nat) -> Seq<char> {
    Seq::new(count, |i: int| '0')
}

/// The numeral of `q × 10^exp10`, without an exponent and without zeros at
/// the end of a fraction.
pub open spec fn positional(q: nat, exp10: int) -> Seq<char>
    decreases
            (if exp10 < 0 {
                -exp10
            } else {
                0
            }),
{
    if exp10 >= 0 {
        decimal(q) + zeros(exp10 as nat)
    } else if q % 10 == 0 {
        positional(q / 10, exp10 + 1)
    } else {
        let digits = decimal(q);
        let behind = (-exp10) as nat;
        if digits.len() > behind {
            digits.subrange(0, digits.len() - behind) + seq!['.'] + digits.subrange(
                digits.len() - behind,
                digits.len() as int,
            )
        } else {
            seq!['0', '.'] + zeros((behind - digits.len()) as nat) + digits
        }
    }
}

/// A string of digits, which stands for an integer over ten to the power
/// `scale`, cut to `keep` significant digits, as a numeral.
pub open spec fn cut_of(digits: Seq<char>, scale: nat, keep: nat) -> Seq<char> {
    if digits.len() <= keep {
        positional(numeral_value(digits), -(scale as int))
    } else {
        let head = numeral_value(digits.subrange(0, keep as int));
        positional(
            if rounds_up(digits, keep as int) {
                head + 1
            } else {
                head
            },
            digits.len() - keep - scale,
        )
    }
}

/// The exact value cut to `keep` significant digits, as a numeral.
pub open spec fn cut(bits: u64, keep: nat) -> Seq<char> {
    cut_of(decimal(numerator(bits)), scale(bits), keep)
}

/// The first cut, from `keep` digits on, that reads back as `bits`; the cut
/// to 17 digits where none before it does.
pub open spec fn shortest_from(bits: u64, keep: nat) -> Seq<char>
    decreases 17 - keep,
{
    if keep >= 17 || number_from_decimal(cut(bits, keep)) == Some(bits) {
        cut(bits, keep)
    } else {
        shortest_from(bits, keep + 1)
    }
}

/// How a number is written: `NaN`, `inf` and `-inf`, `0` and `-0`, and
/// for every other double a sign and its shortest numeral.
pub open spec fn number_text(bits: u64) -> Seq<char> {
    if is_nan(bits) {
        "NaN"@
    } else if magnitude(bits) == INFINITY {
        if is_negative(bits) {
            "-inf"@
        } else {
            "inf"@
        }
    } else if magnitude(bits) == 0 {
        if is_negative(bits) {
            "-0"@
        } else {
            "0"@
        }
    } else if is_negative(bits) {
        seq!['-'] + shortest_from(magnitude(bits) as u64, 1)
    } else {
        shortest_from(bits, 1)
    }
}

/// The integer that a string of digits writes, the last digit first.
spec fn le_value(digits: Seq<u8>) -> nat
    decreases digits.len(),
{
    if digits.len() == 0 {
        0
    } else {
        digits[0] as nat + 10 * le_value(digits.drop_first())
    }
}

/// Digits, the last first, of a positive integer without leading zeros.
spec fn canonical(digits: Seq<u8>) -> bool {
    &&& digits.len() >= 1
    &&& digits.last() != 0
    &&& forall|i: int| 0 <= i < digits.len() ==> digits[i] <= 9
}

/// The digits of `n`, the last first.
spec fn le_digits(n: nat) -> Seq<u8>
    decreases n,
{
    if n < 10 {
        seq![n as u8]
    } else {
        seq![(n % 10) as u8] + le_digits(n / 10)
    }
}

/// The digits of `k × n + carry`, the last first, from those of `n`.
spec fn scaled(digits: Seq<u8>, k: nat, carry: nat) -> Seq<u8>
    decreases digits.len(),
{
    if digits.len() == 0 {
        if carry > 0 {
            seq![carry as u8]
        } else {
            Seq::empty()
        }
    } else {
        let t = digits[0] as nat * k + carry;
        seq![(t % 10) as u8] + scaled(digits.drop_first(), k, t / 10)
    }
}

/// The digit characters of a string of digits, in the opposite order.
spec fn reversed_chars(digits: Seq<u8>) -> Seq<char>
    decreases digits.len(),
{
    if digits.len() == 0 {
        Seq::empty()
    } else {
        reversed_chars(digits.drop_first()).push(digit_char(digits[0] as int))
    }
}

proof fn lemma_le_digits(n: nat)
    requires
        n > 0,
    ensures
        canonical(le_digits(n)),
        le_value(le_digits(n)) == n,
    decreases n,
{
    if n >= 10 {
        lemma_le_digits(n / 10);
        let rest = le_digits(n / 10);
        let all = le_digits(n);
        assert(all.drop_first() =~= rest);
    } else {
        let all = le_digits(n);
        assert(le_value(all) == all[0] as nat + 10 * le_value(all.drop_first()));
    }
}

proof fn lemma_scaled(digits: Seq<u8>, k: nat, carry: nat)
    requires
        forall|i: int| 0 <= i < digits.len() ==> digits[i] <= 9,
        2 <= k <= 5,
        carry < k,
    ensures
        le_value(scaled(digits, k, carry)) == k * le_value(digits) + carry,
        forall|i: int|
            0 <= i < scaled(digits, k, carry).len() ==> (#[trigger] scaled(digits, k, carry)[i]) <= 9,
        scaled(digits, k, carry).len() <= digits.len() + 1,
        canonical(digits) ==> canonical(scaled(digits, k, carry)),
    decreases digits.len(),
{
    let out = scaled(digits, k, carry);
    if digits.len() == 0 {
        if carry > 0 {
            assert(le_value(out) == out[0] as nat + 10 * le_value(out.drop_first()));
        }
        assert(k * 0 == 0) by (nonlinear_arith);
    } else {
        let t = digits[0] as nat * k + carry;
        let rest = digits.drop_first();
        assert(t <= 9 * k + carry) by (nonlinear_arith)
            requires
                t == digits[0] as nat * k + carry,
                digits[0] <= 9,
        ;
        lemma_scaled(rest, k, t / 10);
        let tail = scaled(rest, k, t / 10);
        assert(out.drop_first() =~= tail);
        assert(k * le_value(digits) + carry == t + 10 * (k * le_value(rest))) by (nonlinear_arith)
            requires
                le_value(digits) == digits[0] as nat + 10 * le_value(rest),
                t == digits[0] as nat * k + carry,
        ;
        if canonical(digits) {
            if rest.len() == 0 {
                assert(t >= k) by (nonlinear_arith)
                    requires
                        t == digits[0] as nat * k + carry,
                        digits[0] >= 1,
                ;
            }
        }
    }
}

proof fn lemma_positive(digits: Seq<u8>)
    requires
        canonical(digits),
    ensures
        le_value(digits) >= 1,
    decreases digits.len(),
{
    let rest = digits.drop_first();
    if digits.len() > 1 {
        lemma_positive(rest);
    }
}

proof fn lemma_reversed(digits: Seq<u8>)
    requires
        canonical(digits),
    ensures
        reversed_chars(digits) == decimal(le_value(digits)),
    decreases digits.len(),
{
    let rest = digits.drop_first();
    if digits.len() > 1 {
        lemma_positive(rest);
        lemma_reversed(rest);
    } else {
        assert(le_value(rest) == 0);
        assert(reversed_chars(rest) =~= Seq::<char>::empty());
    }
}

/// The digits of a positive integer, the last first.
fn digits_of(n: u64) -> (digits: Vec<u8>)
    requires
        n > 0,
    ensures
        canonical(digits@),
        le_value(digits@) == n,
        digits.len() <= 20,
{
    let mut digits: Vec<u8> = Vec::new();
    let mut rest: u64 = n;
    proof {
        assert(rest * power(10, 0) == rest) by (nonlinear_arith)
            requires
                power(10, 0) == 1,
        ;
    }
    while rest >= 10
        invariant
            rest > 0,
            digits@ + le_digits(rest as nat) == le_digits(n as nat),
            rest * power(10, digits.len() as nat) <= n,
            digits.len() <= 19,
        decreases rest,
    {
        proof {
            assert((rest / 10) * power(10, (digits.len() + 1) as nat) <= n) by (nonlinear_arith)
                requires
                    rest * power(10, digits.len() as nat) <= n,
                    power(10, (digits.len() + 1) as nat) == 10 * power(10, digits.len() as nat),
                    (rest / 10) * 10 <= rest,
            ;
            if digits.len() + 1 >= 20 {
                reveal_with_fuel(power, 21);
                assert((rest / 10) * power(10, (digits.len() + 1) as nat) >= 100000000000000000000nat)
                    by (nonlinear_arith)
                    requires
                        rest / 10 >= 1,
                        power(10, (digits.len() + 1) as nat) >= 100000000000000000000nat,
                ;
            }
        }
        digits.push((rest % 10) as u8);
        rest = rest / 10;
    }
    proof {
        assert(digits@.push(rest as u8) =~= digits@ + le_digits(rest as nat));
        lemma_le_digits(n as nat);
    }
    digits.push(rest as u8);
    digits
}

/// Multiplies an integer, given by its digits, by `k`.
fn times(digits: &Vec<u8>, k: u8) -> (out: Vec<u8>)
    requires
        canonical(digits@),
        2 <= k <= 5,
    ensures
        canonical(out@),
        le_value(out@) == k * le_value(digits@),
        out.len() <= digits.len() + 1,
{
    let mut out: Vec<u8> = Vec::new();
    let mut carry: u8 = 0;
    let mut i: usize = 0;
    proof {
        assert(digits@.subrange(0, digits.len() as int) =~= digits@);
    }
    while i < digits.len()
        invariant
            i <= digits.len(),
            2 <= k <= 5,
            carry < k,
            forall|j: int| 0 <= j < digits.len() ==> digits@[j] <= 9,
            out.len() == i,
            out@ + scaled(digits@.subrange(i as int, digits.len() as int), k as nat, carry as nat)
                == scaled(digits@, k as nat, 0),
        decreases digits.len() - i,
    {
        assert(digits@[i as int] * k + carry <= 10 * k - 1 <= 49) by (nonlinear_arith)
            requires
                digits@[i as int] <= 9,
                k <= 5,
                carry < k,
        ;
        let t: u8 = digits[i] * k + carry;
        proof {
            let here = digits@.subrange(i as int, digits.len() as int);
            let next = digits@.subrange(i + 1, digits.len() as int);
            assert(here.drop_first() =~= next);
        }
        out.push(t % 10);
        carry = t / 10;
        i += 1;
    }
    proof {
        let none = digits@.subrange(digits.len() as int, digits.len() as int);
        lemma_scaled(digits@, k as nat, 0);
        if carry > 0 {
            assert(out@.push(carry) =~= out@ + scaled(none, k as nat, carry as nat));
        }
    }
    if carry > 0 {
        out.push(carry);
    }
    out
}

fn digit_of(d: u8) -> (c: char)
    requires
        d <= 9,
    ensures
        c == digit_char(d as int),
{
    if d == 0 {
        '0'
    } else if d == 1 {
        '1'
    } else if d == 2 {
        '2'
    } else if d == 3 {
        '3'
    } else if d == 4 {
        '4'
    } else if d == 5 {
        '5'
    } else if d == 6 {
        '6'
    } else if d == 7 {
        '7'
    } else if d == 8 {
        '8'
    } else {
        '9'
    }
}

fn value_of_digit(c: char) -> (d: u64)
    ensures
        d == digit_value(c),
        d <= 9,
{
    if c == '1' {
        1
    } else if c == '2' {
        2
    } else if c == '3' {
        3
    } else if c == '4' {
        4
    } else if c == '5' {
        5
    } else if c == '6' {
        6
    } else if c == '7' {
        7
    } else if c == '8' {
        8
    } else if c == '9' {
        9
    } else {
        0
    }
}

/// The digits of the exact value of a finite double other than zero, the
/// first digit first, and the number of them that stand behind the point.
fn exact_digits(bits: u64) -> (r: (Vec<char>, u64))
    requires
        0 < bits < INFINITY,
    ensures
        r.0@ == decimal(numerator(bits)),
        r.1 == scale(bits),
        r.0.len() <= 1100,
        r.1 <= 1074,
{
    let field = bits / HIDDEN;
    let fraction = bits % HIDDEN;
    let m: u64 = if field == 0 {
        fraction
    } else {
        fraction + HIDDEN
    };
    let (k, count): (u8, u64) = if field >= 1075 {
        (2, field - 1075)
    } else if field == 0 {
        (5, 1074)
    } else {
        (5, 1075 - field)
    };
    let mut digits = digits_of(m);
    let mut i: u64 = 0;
    while i < count
        invariant
            i <= count <= 1074,
            2 <= k <= 5,
            canonical(digits@),
            le_value(digits@) == m * power(k as nat, i as nat),
            digits.len() <= 20 + i,
        decreases count - i,
    {
        let ghost before = le_value(digits@);
        digits = times(&digits, k);
        proof {
            assert(k * before == m * power(k as nat, (i + 1) as nat)) by (nonlinear_arith)
                requires
                    before == m * power(k as nat, i as nat),
                    power(k as nat, (i + 1) as nat) == k * power(k as nat, i as nat),
            ;
        }
        i += 1;
    }
    let mut chars: Vec<char> = Vec::new();
    let mut at: usize = digits.len();
    while at > 0
        invariant
            at <= digits.len(),
            canonical(digits@),
            chars@ == reversed_chars(digits@.subrange(at as int, digits.len() as int)),
            chars.len() == digits.len() - at,
        decreases at,
    {
        at -= 1;
        proof {
            let here = digits@.subrange(at as int, digits.len() as int);
            assert(here.drop_first() =~= digits@.subrange(at + 1, digits.len() as int));
        }
        chars.push(digit_of(digits[at]));
    }
    proof {
        assert(digits@.subrange(0, digits.len() as int) =~= digits@);
        lemma_reversed(digits@);
    }
    (
        chars,
        if k == 2 {
            0
        } else {
            count
        },
    )
}

/// The integer that the first `count` digits write.
fn head_value(digits: &Vec<char>, count: usize) -> (q: u64)
    requires
        count <= digits.len(),
        count <= 17,
    ensures
        q == numeral_value(digits@.subrange(0, count as int)),
        q < 100_000_000_000_000_000,
{
    let mut q: u64 = 0;
    let mut i: usize = 0;
    while i < count
        invariant
            i <= count <= digits.len(),
            count <= 17,
            q == numeral_value(digits@.subrange(0, i as int)),
            q < power(10, i as nat),
        decreases count - i,
    {
        proof {
            let next = digits@.subrange(0, i + 1);
            assert(next.drop_last() =~= digits@.subrange(0, i as int));
            reveal_with_fuel(power, 18);
        }
        q = q * 10 + value_of_digit(digits[i]);
        i += 1;
    }
    proof {
        reveal_with_fuel(power, 18);
    }
    q
}

/// Whether cutting behind the first `keep` digits rounds up.
fn rounding(digits: &Vec<char>, keep: usize) -> (up: bool)
    requires
        0 < keep < digits.len(),
    ensures
        up == rounds_up(digits@, keep as int),
{
    let next = value_of_digit(digits[keep]);
    if next > 5 {
        true
    } else if next < 5 {
        false
    } else {
        let mut i: usize = keep + 1;
        while i < digits.len()
            invariant
                0 < keep < i <= digits.len(),
                digit_value(digits@[keep as int]) == 5,
                forall|j: int| keep < j < i ==> digits[j] == '0',
            decreases digits.len() - i,
        {
            if digits[i] != '0' {
                return true;
            }
            i += 1;
        }
        value_of_digit(digits[keep - 1]) % 2 == 1
    }
}

/// Appends `count` zeros.
fn push_zeros(out: &mut String, count: u64)
    ensures
        final(out)@ == old(out)@ + zeros(count as nat),
{
    let mut i: u64 = 0;
    while i < count
        invariant
            i <= count,
            out@ == old(out)@ + zeros(i as nat),
        decreases count - i,
    {
        push_char(out, '0');
        i += 1;
    }
}

/// The numeral of `q × 10^exp10`.
fn positional_text(q: u64, exp10: i64) -> (text: String)
    requires
        -2000 <= exp10 <= 2000,
    ensures
        text@ == positional(q as nat, exp10 as int),
{
    let ghost whole = positional(q as nat, exp10 as int);
    let mut q = q;
    let mut exp10 = exp10;
    while exp10 < 0 && q % 10 == 0
        invariant
            -2000 <= exp10 <= 2000,
            positional(q as nat, exp10 as int) == whole,
        decreases -exp10,
    {
        q = q / 10;
        exp10 = exp10 + 1;
    }
    let digits = crate::text::decimal_string(q);
    if exp10 >= 0 {
        let mut text = digits;
        push_zeros(&mut text, exp10 as u64);
        text
    } else {
        let behind = (-exp10) as usize;
        let count = digits.as_str().unicode_len();
        if count > behind {
            let mut text = String::from_str(digits.as_str().substring_char(0, count - behind));
            push_char(&mut text, '.');
            text.append(digits.as_str().substring_char(count - behind, count));
            text
        } else {
            let mut text = String::new();
            push_char(&mut text, '0');
            push_char(&mut text, '.');
            push_zeros(&mut text, (behind - count) as u64);
            text.append(digits.as_str());
            text
        }
    }
}

/// The digits cut to `keep` significant digits, as a numeral.
fn cut_text(digits: &Vec<char>, scale: u64, keep: usize) -> (text: String)
    requires
        1 <= keep <= 17,
        digits.len() <= 1100,
        scale <= 1074,
    ensures
        text@ == cut_of(digits@, scale as nat, keep as nat),
{
    if digits.len() <= keep {
        assert(digits@.subrange(0, digits.len() as int) =~= digits@);
        positional_text(head_value(digits, digits.len()), -(scale as i64))
    } else {
        let head = head_value(digits, keep);
        let q = if rounding(digits, keep) {
            head + 1
        } else {
            head
        };
        positional_text(q, (digits.len() - keep) as i64 - scale as i64)
    }
}

/// The shortest numeral of a finite double other than zero.
fn shortest(bits: u64) -> (text: String)
    requires
        0 < bits < INFINITY,
    ensures
        text@ == shortest_from(bits, 1),
{
    let (digits, behind) = exact_digits(bits);
    let mut keep: usize = 1;
    loop
        invariant
            1 <= keep <= 17,
            digits@ == decimal(numerator(bits)),
            behind == scale(bits),
            digits.len() <= 1100,
            behind <= 1074,
            shortest_from(bits, keep as nat) == shortest_from(bits, 1),
        decreases 17 - keep,
    {
        let text = cut_text(&digits, behind, keep);
        if keep >= 17 {
            return text;
        }
        match from_decimal(text.as_str()) {
            Some(read) => {
                if read == bits {
                    return text;
                }
            },
            None => {},
        }
        keep += 1;
    }
}

/// Writes a number.
pub fn format_number(bits: u64) -> (text: String)
    ensures
        text@ == number_text(bits),
{
    let negative = bits >= SIGN;
    let m: u64 = if negative {
        bits - SIGN
    } else {
        bits
    };
    if m > INFINITY {
        String::from_str("NaN")
    } else if m == INFINITY {
        if negative {
            String::from_str("-inf")
        } else {
            String::from_str("inf")
        }
    } else if m == 0 {
        if negative {
            String::from_str("-0")
        } else {
            String::from_str("0")
        }
    } else if negative {
        let mut text = String::new();
        push_char(&mut text, '-');
        text.append(shortest(m).as_str());
        text
    } else {
        shortest(m)
    }
}

} // verus!
