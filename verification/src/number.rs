//! Integers written out in decimal.

use vstd::prelude::*;

use crate::text;

verus! {

/// The character of a decimal digit.
pub open spec fn digit_char(digit: int) -> char
    recommends
        0 <= digit < 10,
{
    (48 + digit) as char
}

/// The decimal digits of `n`, without leading zeros.
pub open spec fn digits(n: nat) -> Seq<char>
    decreases n,
{
    if n < 10 {
        seq![digit_char(n as int)]
    } else {
        digits(n / 10).push(digit_char((n % 10) as int))
    }
}

/// `n` in decimal, with a minus sign where it is negative.
pub open spec fn decimal_of(n: int) -> Seq<char> {
    if n < 0 {
        seq!['-'] + digits((-n) as nat)
    } else {
        digits(n as nat)
    }
}

fn push_digits(text: &mut String, n: u64)
    ensures
        final(text)@ == old(text)@ + digits(n as nat),
    decreases n,
{
    if n >= 10 {
        push_digits(text, n / 10);
    }
    let digit = (48 + (n % 10) as u8) as char;
    text.push(digit);
    assert(text@ =~= old(text)@ + digits(n as nat));
}

/// `n` in decimal.
pub fn decimal(n: i64) -> (text: String)
    ensures
        text@ == decimal_of(n as int),
{
    let mut text = String::new();
    if n < 0 {
        text.push('-');
        let magnitude: u64 = (-(n + 1)) as u64 + 1;
        push_digits(&mut text, magnitude);
    } else {
        push_digits(&mut text, n as u64);
    }
    assert(text@ =~= decimal_of(n as int));
    text
}

/// The number that a row of decimal digits stands for.
pub open spec fn value_of(digits: Seq<char>) -> int
    decreases digits.len(),
{
    if digits.len() == 0 {
        0
    } else {
        value_of(digits.drop_last()) * 10 + (digits.last() as int - 48)
    }
}

/// A row of nothing but decimal digits.
pub open spec fn all_digits(text: Seq<char>) -> bool {
    forall|i: int| 0 <= i < text.len() ==> '0' <= #[trigger] text[i] <= '9'
}

proof fn lemma_digits_have_their_value(n: nat)
    ensures
        value_of(digits(n)) == n,
    decreases n,
{
    if n >= 10 {
        lemma_digits_have_their_value(n / 10);
        assert(digits(n).drop_last() =~= digits(n / 10));
    } else {
        assert(digits(n).drop_last() =~= Seq::<char>::empty());
        assert(value_of(Seq::<char>::empty()) == 0);
    }
}

proof fn lemma_value_grows(text: Seq<char>, upto: int)
    requires
        all_digits(text),
        0 <= upto <= text.len(),
    ensures
        0 <= value_of(text.take(upto)) <= value_of(text),
    decreases text.len(),
{
    if upto == text.len() {
        assert(text.take(upto) =~= text);
        if upto > 0 {
            lemma_value_grows(text.drop_last(), upto - 1);
            assert('0' <= text[upto - 1]);
        }
    } else {
        assert(text.drop_last().take(upto) =~= text.take(upto));
        lemma_value_grows(text.drop_last(), upto);
        assert('0' <= text[text.len() - 1]);
    }
}

/// The value of the digits from `from` on, where it is that of some number up to
/// the largest magnitude of an `i64`.
fn magnitude(chars: &Vec<char>, from: usize) -> (value: Option<u64>)
    requires
        from <= chars.len(),
    ensures
        match value {
            Some(value) => value == value_of(chars@.skip(from as int)),
            None => forall|n: nat|
                n <= 0x8000_0000_0000_0000 ==> #[trigger] digits(n) != chars@.skip(from as int),
        },
{
    let ghost rest = chars@.skip(from as int);
    let mut value: u64 = 0;
    assert(value_of(rest.take(0)) == 0);
    for i in from..chars.len()
        invariant
            from <= i <= chars.len(),
            rest == chars@.skip(from as int),
            value == value_of(rest.take(i - from)),
    {
        let c = chars[i];
        let ghost upto = i - from;
        assert(rest[upto] == c);
        if c < '0' || c > '9' {
            proof {
                assert forall|n: nat| n <= 0x8000_0000_0000_0000 implies #[trigger] digits(n)
                    != rest by {
                    lemma_digits_are_digits(n);
                }
            }
            return None;
        }
        assert(rest.take(upto + 1).drop_last() =~= rest.take(upto));
        assert(value_of(rest.take(upto + 1)) == value * 10 + (c as int - 48));
        if value > 0x0ccc_cccc_cccc_cccc {
            proof {
                assert forall|n: nat| n <= 0x8000_0000_0000_0000 implies #[trigger] digits(n)
                    != rest by {
                    lemma_digits_are_digits(n);
                    lemma_digits_have_their_value(n);
                    if digits(n) == rest {
                        assert(all_digits(rest));
                        lemma_value_grows(rest, upto + 1);
                    }
                }
            }
            return None;
        }
        value = value * 10 + (c as u8 - 48) as u64;
    }
    assert(rest.take(rest.len() as int) =~= rest);
    Some(value)
}

proof fn lemma_reading(n: int, text: Seq<char>)
    requires
        decimal_of(n) == text,
    ensures
        text.len() > 0,
        (text[0] == '-') == (n < 0),
        n < 0 ==> text.skip(1) == digits((-n) as nat) && value_of(text.skip(1)) == -n,
        n >= 0 ==> text.skip(0) == digits(n as nat) && value_of(text.skip(0)) == n,
{
    let m: nat = if n < 0 {
        (-n) as nat
    } else {
        n as nat
    };
    lemma_digits_are_digits(m);
    lemma_digits_have_their_value(m);
    if n < 0 {
        assert(text.skip(1) =~= digits(m));
    } else {
        assert('0' <= digits(m)[0]);
        assert(text.skip(0) =~= digits(m));
    }
}

/// The number that a text is the decimal form of, if it is that of one.
pub fn read_decimal(text: &str) -> (n: Option<i64>)
    ensures
        match n {
            Some(n) => text@ == decimal_of(n as int),
            None => forall|m: i64| #[trigger] decimal_of(m as int) != text@,
        },
{
    let chars = text::chars_of(text);
    let negative = chars.len() > 0 && chars[0] == '-';
    let from: usize = if negative {
        1
    } else {
        0
    };
    let value = magnitude(&chars, from);
    let candidate: Option<i64> = match value {
        Some(value) => {
            if negative && value <= 0x8000_0000_0000_0000 {
                if value == 0x8000_0000_0000_0000 {
                    Some(i64::MIN)
                } else {
                    Some(-(value as i64))
                }
            } else if !negative && value < 0x8000_0000_0000_0000 {
                Some(value as i64)
            } else {
                None
            }
        },
        None => None,
    };
    proof {
        assert forall|m: i64| #[trigger] decimal_of(m as int) == text@ implies candidate == Some(
            m,
        ) by {
            lemma_reading(m as int, text@);
        }
    }
    match candidate {
        Some(n) => {
            let written = decimal(n);
            if text::same_text(written.as_str(), text) {
                Some(n)
            } else {
                None
            }
        },
        None => None,
    }
}

// ---------------------------------------------------------------------------
// Laws
// ---------------------------------------------------------------------------

/// A character of a decimal number: a digit or the minus sign.
pub open spec fn is_decimal_char(c: char) -> bool {
    '0' <= c <= '9' || c == '-'
}

proof fn lemma_digits_are_digits(n: nat)
    ensures
        digits(n).len() >= 1,
        forall|i: int| 0 <= i < digits(n).len() ==> '0' <= #[trigger] digits(n)[i] <= '9',
    decreases n,
{
    if n >= 10 {
        lemma_digits_are_digits(n / 10);
    }
}

proof fn lemma_digits_tell_numbers_apart(a: nat, b: nat)
    requires
        digits(a) == digits(b),
    ensures
        a == b,
    decreases a,
{
    lemma_digits_are_digits(a / 10);
    lemma_digits_are_digits(b / 10);
    assert(digits(a).last() == digit_char((a % 10) as int));
    assert(digits(b).last() == digit_char((b % 10) as int));
    if a >= 10 {
        assert(digits(a).drop_last() =~= digits(a / 10));
        assert(digits(a).len() >= 2);
        assert(b >= 10);
        assert(digits(b).drop_last() =~= digits(b / 10));
        lemma_digits_tell_numbers_apart(a / 10, b / 10);
    } else {
        assert(digits(b).len() == 1);
        assert(b < 10);
    }
}

/// A number in decimal is not empty and holds nothing but digits and a minus sign.
pub proof fn law_decimal_is_plain(n: int)
    ensures
        decimal_of(n).len() >= 1,
        forall|i: int|
            0 <= i < decimal_of(n).len() ==> is_decimal_char(#[trigger] decimal_of(n)[i]),
{
    lemma_digits_are_digits(if n < 0 {
        (-n) as nat
    } else {
        n as nat
    });
}

/// Different numbers are written differently.
pub proof fn law_decimal_tells_numbers_apart(a: int, b: int)
    requires
        decimal_of(a) == decimal_of(b),
    ensures
        a == b,
{
    let m: nat = if a < 0 { (-a) as nat } else { a as nat };
    let n: nat = if b < 0 { (-b) as nat } else { b as nat };
    lemma_digits_are_digits(m);
    lemma_digits_are_digits(n);
    assert(decimal_of(a)[0] == decimal_of(b)[0]);
    assert('0' <= digits(m)[0] && '0' <= digits(n)[0]);
    if a < 0 {
        assert(decimal_of(a).skip(1) =~= digits(m));
        assert(decimal_of(b).skip(1) =~= digits(n));
    }
    lemma_digits_tell_numbers_apart(m, n);
}

/// Decimal is positional: one digit more behind a number is ten times the number and that
/// digit. A number below ten is its digit, and a negative one has a minus sign in front.
pub proof fn law_decimal_is_positional(n: int, digit: int)
    requires
        0 <= digit < 10,
    ensures
        decimal_of(digit).len() == 1,
        decimal_of(digit)[0] as int == '0' as int + digit,
        n > 0 ==> decimal_of(10 * n + digit) == decimal_of(n).push(decimal_of(digit)[0]),
        n > 0 ==> decimal_of(-n) == seq!['-'] + decimal_of(n),
{
    if n > 0 {
        let m = (10 * n + digit) as nat;
        assert(m / 10 == n && m % 10 == digit) by (nonlinear_arith)
            requires
                m == 10 * n + digit,
                0 <= digit < 10,
                n > 0,
        ;
        assert(decimal_of(10 * n + digit) =~= decimal_of(n).push(decimal_of(digit)[0]));
    }
}

} // verus!
