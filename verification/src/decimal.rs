//! Decimal numerals: how a year or a week number is written as a directory
//! name.

use vstd::prelude::*;
use vstd::string::*;

verus! {

/// The character that writes the digit `d`, for `d` from 0 to 9.
pub open spec fn digit_char(d: int) -> char {
    if d == 0 {
        '0'
    } else if d == 1 {
        '1'
    } else if d == 2 {
        '2'
    } else if d == 3 {
        '3'
    } else if d == 4 {
        '4'
    } else if d == 5 {
        '5'
    } else if d == 6 {
        '6'
    } else if d == 7 {
        '7'
    } else if d == 8 {
        '8'
    } else {
        '9'
    }
}

/// `c` is one of the ten digits.
pub open spec fn is_digit(c: char) -> bool {
    exists|d: int| 0 <= d <= 9 && c == #[trigger] digit_char(d)
}

/// The numeral of `n`: its digits from the most significant on, without
/// padding.
pub open spec fn decimal_nat(n: nat) -> Seq<char>
    decreases n,
{
    if n < 10 {
        seq![digit_char(n as int)]
    } else {
        decimal_nat(n / 10).push(digit_char((n % 10) as int))
    }
}

/// The numeral of `i`: a minus sign before the numeral of `-i` where `i` is
/// negative.
pub open spec fn decimal_int(i: int) -> Seq<char> {
    if i < 0 {
        seq!['-'] + decimal_nat((-i) as nat)
    } else {
        decimal_nat(i as nat)
    }
}

/// A numeral of a natural number is not empty and is made of digits.
pub proof fn lemma_decimal_nat_digits(n: nat)
    ensures
        decimal_nat(n).len() >= 1,
        n >= 10 ==> decimal_nat(n).len() >= 2,
        forall|k: int| 0 <= k < decimal_nat(n).len() ==> is_digit(#[trigger] decimal_nat(n)[k]),
    decreases n,
{
    if n < 10 {
        assert(decimal_nat(n)[0] == digit_char(n as int));
    } else {
        lemma_decimal_nat_digits(n / 10);
        let head = decimal_nat(n / 10);
        assert forall|k: int| 0 <= k < decimal_nat(n).len() implies is_digit(
            #[trigger] decimal_nat(n)[k],
        ) by {
            if k < head.len() {
                assert(decimal_nat(n)[k] == head[k]);
            } else {
                assert(decimal_nat(n)[k] == digit_char((n % 10) as int));
            }
        }
    }
}

/// Two natural numbers with the same numeral are the same number.
pub proof fn lemma_decimal_nat_injective(a: nat, b: nat)
    requires
        decimal_nat(a) == decimal_nat(b),
    ensures
        a == b,
    decreases a,
{
    lemma_decimal_nat_digits(a);
    lemma_decimal_nat_digits(b);
    if a < 10 || b < 10 {
        assert(decimal_nat(a).len() == 1);
        assert(a < 10 && b < 10);
        assert(decimal_nat(a)[0] == digit_char(a as int));
        assert(decimal_nat(b)[0] == digit_char(b as int));
    } else {
        let head_a = decimal_nat(a / 10);
        let head_b = decimal_nat(b / 10);
        let last_a = digit_char((a % 10) as int);
        let last_b = digit_char((b % 10) as int);
        assert(head_a.push(last_a).drop_last() == head_a);
        assert(head_b.push(last_b).drop_last() == head_b);
        assert(head_a.push(last_a).last() == last_a);
        assert(head_b.push(last_b).last() == last_b);
        lemma_decimal_nat_injective(a / 10, b / 10);
    }
}

/// Two integers with the same numeral are the same integer.
pub proof fn lemma_decimal_int_injective(a: int, b: int)
    requires
        decimal_int(a) == decimal_int(b),
    ensures
        a == b,
{
    let abs_a = (if a < 0 { -a } else { a }) as nat;
    let abs_b = (if b < 0 { -b } else { b }) as nat;
    lemma_decimal_nat_digits(abs_a);
    lemma_decimal_nat_digits(abs_b);
    let minus = seq!['-'];
    if a < 0 && b < 0 {
        assert((minus + decimal_nat(abs_a)).skip(1) == decimal_nat(abs_a));
        assert((minus + decimal_nat(abs_b)).skip(1) == decimal_nat(abs_b));
        lemma_decimal_nat_injective(abs_a, abs_b);
    } else if a < 0 {
        assert((minus + decimal_nat(abs_a))[0] == '-');
        assert(is_digit(decimal_nat(abs_b)[0]));
    } else if b < 0 {
        assert((minus + decimal_nat(abs_b))[0] == '-');
        assert(is_digit(decimal_nat(abs_a)[0]));
    } else {
        lemma_decimal_nat_injective(abs_a, abs_b);
    }
}

/// The text of one digit.
fn digit_text(d: u64) -> (text: &'static str)
    requires
        d < 10,
    ensures
        text@ == seq![digit_char(d as int)],
{
    proof {
        reveal_strlit("0");
        reveal_strlit("1");
        reveal_strlit("2");
        reveal_strlit("3");
        reveal_strlit("4");
        reveal_strlit("5");
        reveal_strlit("6");
        reveal_strlit("7");
        reveal_strlit("8");
        reveal_strlit("9");
    }
    let text = if d == 0 {
        "0"
    } else if d == 1 {
        "1"
    } else if d == 2 {
        "2"
    } else if d == 3 {
        "3"
    } else if d == 4 {
        "4"
    } else if d == 5 {
        "5"
    } else if d == 6 {
        "6"
    } else if d == 7 {
        "7"
    } else if d == 8 {
        "8"
    } else {
        "9"
    };
    assert(text@ =~= seq![digit_char(d as int)]);
    text
}

/// Writes the numeral of `n` behind what `out` holds.
fn append_decimal(out: &mut String, n: u64)
    ensures
        final(out)@ == old(out)@ + decimal_nat(n as nat),
    decreases n,
{
    if n >= 10 {
        append_decimal(out, n / 10);
    }
    out.append(digit_text(n % 10));
    proof {
        if n >= 10 {
            assert(final(out)@ =~= old(out)@ + decimal_nat(n as nat));
        } else {
            assert(final(out)@ =~= old(out)@ + decimal_nat(n as nat));
        }
    }
}

/// The numeral of `n`.
pub fn unsigned_decimal(n: u32) -> (text: String)
    ensures
        text@ == decimal_nat(n as nat),
{
    let mut text = String::new();
    append_decimal(&mut text, n as u64);
    assert(text@ =~= decimal_nat(n as nat));
    text
}

/// The numeral of `i`, with a minus sign where `i` is negative.
pub fn signed_decimal(i: i32) -> (text: String)
    ensures
        text@ == decimal_int(i as int),
{
    let wide: i64 = i as i64;
    if wide < 0 {
        let mut text = String::from_str("-");
        proof {
            reveal_strlit("-");
        }
        append_decimal(&mut text, (-wide) as u64);
        assert(text@ =~= decimal_int(i as int));
        text
    } else {
        let mut text = String::new();
        append_decimal(&mut text, wide as u64);
        assert(text@ =~= decimal_int(i as int));
        text
    }
}

} // verus!
