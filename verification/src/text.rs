//! Decimal text of integers, written into a `String`.

use vstd::prelude::*;

verus! {

/// The character that stands for the decimal digit `d`.
pub open spec fn digit_char(d: int) -> char
    recommends
        0 <= d < 10,
{
    ((48 + d) as u8) as char
}

/// The decimal text of `n`: no sign, no leading zero except for zero itself.
pub open spec fn decimal_text(n: nat) -> Seq<char>
    decreases n,
{
    if n < 10 {
        seq![digit_char(n as int)]
    } else {
        decimal_text(n / 10).push(digit_char((n % 10) as int))
    }
}

/// The decimal text of a signed integer: a minus sign before the magnitude
/// of a negative number.
pub open spec fn signed_decimal_text(n: int) -> Seq<char> {
    if n < 0 {
        seq!['-'] + decimal_text((-n) as nat)
    } else {
        decimal_text(n as nat)
    }
}

/// True for the ten decimal digits.
pub open spec fn is_digit(c: char) -> bool {
    '0' <= c <= '9'
}

/// The decimal text of a number is made of digits, at least one.
pub proof fn lemma_decimal_text_digits(n: nat)
    ensures
        decimal_text(n).len() >= 1,
        forall|i: int| 0 <= i < decimal_text(n).len() ==> is_digit(#[trigger] decimal_text(n)[i]),
    decreases n,
{
    if n >= 10 {
        lemma_decimal_text_digits(n / 10);
    }
}

/// The number that a decimal digit stands for.
pub open spec fn digit_value(c: char) -> nat
    recommends
        is_digit(c),
{
    (c as int - 48) as nat
}

/// The number that a text of decimal digits stands for.
pub open spec fn decimal_value(s: Seq<char>) -> nat
    decreases s.len(),
{
    if s.len() == 0 {
        0
    } else {
        decimal_value(s.drop_last()) * 10 + digit_value(s.last())
    }
}

/// Reading the decimal text of a number gives the number back, and the text
/// of a number other than zero does not start with a zero.
pub proof fn lemma_decimal_text_reads_back(n: nat)
    ensures
        decimal_value(decimal_text(n)) == n,
        n > 0 ==> decimal_text(n).first() != '0',
    decreases n,
{
    if n < 10 {
        assert(decimal_text(n).drop_last() =~= Seq::<char>::empty());
        assert(decimal_value(decimal_text(n).drop_last()) == 0);
    } else {
        lemma_decimal_text_reads_back(n / 10);
        lemma_decimal_text_digits(n / 10);
        assert(decimal_text(n).drop_last() =~= decimal_text(n / 10));
    }
}

/// `String::push` appends one character to the text.
pub assume_specification[ String::push ](s: &mut String, c: char)
    ensures
        final(s)@ == old(s)@.push(c),
;

/// The character of a single decimal digit.
fn digit_to_char(d: u8) -> (c: char)
    requires
        d < 10,
    ensures
        c == digit_char(d as int),
        is_digit(c),
{
    (48u8 + d) as char
}

/// Appends the decimal text of `n` to `w`.
pub fn push_decimal(w: &mut String, n: u128)
    ensures
        final(w)@ == old(w)@ + decimal_text(n as nat),
{
    let mut digits: Vec<char> = Vec::new();
    let mut rest: u128 = n;
    while rest >= 10
        invariant
            decimal_text(n as nat) == decimal_text(rest as nat) + digits@.reverse(),
        decreases rest,
    {
        let d: u8 = (rest % 10) as u8;
        let ghost before = digits@;
        digits.push(digit_to_char(d));
        proof {
            assert(digits@.reverse() =~= seq![digit_char(d as int)] + before.reverse());
            assert(decimal_text(rest as nat) == decimal_text((rest / 10) as nat).push(
                digit_char(d as int),
            ));
            assert(decimal_text((rest / 10) as nat).push(digit_char(d as int)) + before.reverse()
                =~= decimal_text((rest / 10) as nat) + digits@.reverse());
        }
        rest = rest / 10;
    }
    let ghost before = digits@;
    digits.push(digit_to_char(rest as u8));
    proof {
        assert(digits@.reverse() =~= seq![digit_char(rest as int)] + before.reverse());
        assert(decimal_text(n as nat) =~= digits@.reverse());
    }
    let mut left: usize = digits.len();
    while left > 0
        invariant
            left <= digits.len(),
            decimal_text(n as nat) == digits@.reverse(),
            w@ == old(w)@ + digits@.reverse().take(digits.len() - left),
        decreases left,
    {
        left = left - 1;
        w.push(digits[left]);
        proof {
            let text = digits@.reverse();
            let done = digits.len() - left;
            assert(text.take(done) =~= text.take(done - 1).push(digits@[left as int]));
        }
    }
    proof {
        assert(digits@.reverse().take(digits.len() as int) =~= digits@.reverse());
    }
}

/// Appends the decimal text of a signed integer to `w`.
pub fn push_signed_decimal(w: &mut String, n: i64)
    ensures
        final(w)@ == old(w)@ + signed_decimal_text(n as int),
{
    if n < 0 {
        w.push('-');
        let magnitude: u128 = (-(n as i128)) as u128;
        push_decimal(w, magnitude);
        proof {
            assert(w@ =~= old(w)@ + signed_decimal_text(n as int));
        }
    } else {
        push_decimal(w, n as u128);
    }
}

} // verus!
