//! Decimal numerals and path text, as sequences of characters.

use vstd::prelude::*;
use vstd::string::*;

verus! {

/// The character that stands for one decimal digit.
pub open spec fn digit_char(d: int) -> char {
    if d == 0 {
        '0'
    } else if d == 1 {
        '1'
    } else if d == 2 {
        '2'
    } else if d == 3 {
        '3'
    } else if d == 4 {
        '4'
    } else if d == 5 {
        '5'
    } else if d == 6 {
        '6'
    } else if d == 7 {
        '7'
    } else if d == 8 {
        '8'
    } else {
        '9'
    }
}

/// True of the ten digit characters.
pub open spec fn is_digit(c: char) -> bool {
    exists|d: int| 0 <= d < 10 && c == digit_char(d)
}

/// The digits of a natural number, most significant first, without leading
/// zeros; zero is the single digit `0`.
pub open spec fn digits(n: nat) -> Seq<char>
    decreases n,
{
    if n < 10 {
        seq![digit_char(n as int)]
    } else {
        digits(n / 10).push(digit_char((n % 10) as int))
    }
}

/// The decimal numeral of an integer: a minus sign for negative values, then
/// the digits of the magnitude.
pub open spec fn decimal(v: int) -> Seq<char> {
    if v < 0 {
        seq!['-'] + digits((-v) as nat)
    } else {
        digits(v as nat)
    }
}

/// `String::push` appends one character at the end of the string.
pub assume_specification[ String::push ](s: &mut String, ch: char)
    ensures
        final(s)@ == old(s)@.push(ch),
;

fn digit(d: u8) -> (c: char)
    requires
        d < 10,
    ensures
        c == digit_char(d as int),
{
    if d == 0 {
        '0'
    } else if d == 1 {
        '1'
    } else if d == 2 {
        '2'
    } else if d == 3 {
        '3'
    } else if d == 4 {
        '4'
    } else if d == 5 {
        '5'
    } else if d == 6 {
        '6'
    } else if d == 7 {
        '7'
    } else if d == 8 {
        '8'
    } else {
        '9'
    }
}

fn push_digits(out: &mut String, n: u64)
    ensures
        final(out)@ == old(out)@ + digits(n as nat),
    decreases n,
{
    if n >= 10 {
        push_digits(out, n / 10);
    }
    let d: u8 = (n % 10) as u8;
    out.push(digit(d));
    assert(out@ =~= old(out)@ + digits(n as nat));
}

/// Appends the decimal numeral of `value` to `out`.
pub fn push_decimal(out: &mut String, value: i64)
    ensures
        final(out)@ == old(out)@ + decimal(value as int),
{
    if value < 0 {
        out.push('-');
        let magnitude: u64 = ((-(value + 1)) as u64) + 1;
        push_digits(out, magnitude);
        assert(out@ =~= old(out)@ + decimal(value as int));
    } else {
        push_digits(out, value as u64);
    }
}

/// The decimal numeral of `value` as a string.
pub fn to_decimal(value: i64) -> (s: String)
    ensures
        s@ == decimal(value as int),
{
    let mut s = String::new();
    push_decimal(&mut s, value);
    assert(s@ =~= decimal(value as int));
    s
}

/// Every numeral of a natural number is a non-empty run of digits.
pub proof fn lemma_digits_are_digits(n: nat)
    ensures
        digits(n).len() >= 1,
        forall|i: int| 0 <= i < digits(n).len() ==> is_digit(#[trigger] digits(n)[i]),
    decreases n,
{
    if n < 10 {
        assert(is_digit(digit_char(n as int)));
    } else {
        lemma_digits_are_digits(n / 10);
        assert(is_digit(digit_char((n % 10) as int)));
    }
}

/// Distinct digits have distinct characters.
pub proof fn lemma_digit_char_injective(a: int, b: int)
    requires
        0 <= a < 10,
        0 <= b < 10,
        digit_char(a) == digit_char(b),
    ensures
        a == b,
{
}

/// Two natural numbers with the same numeral are equal.
pub proof fn lemma_digits_injective(a: nat, b: nat)
    requires
        digits(a) == digits(b),
    ensures
        a == b,
    decreases a,
{
    lemma_digits_are_digits(a / 10);
    lemma_digits_are_digits(b / 10);
    if a < 10 {
        if b >= 10 {
            assert(digits(b).len() >= 2);
        } else {
            assert(digits(a)[0] == digit_char(a as int));
            assert(digits(b)[0] == digit_char(b as int));
            lemma_digit_char_injective(a as int, b as int);
        }
    } else {
        if b < 10 {
            assert(digits(a).len() >= 2);
        } else {
            let da = digits(a / 10);
            let db = digits(b / 10);
            assert(digits(a).drop_last() =~= da);
            assert(digits(b).drop_last() =~= db);
            assert(digits(a).last() == digit_char((a % 10) as int));
            assert(digits(b).last() == digit_char((b % 10) as int));
            lemma_digit_char_injective((a % 10) as int, (b % 10) as int);
            lemma_digits_injective(a / 10, b / 10);
        }
    }
}

/// The minus sign is not a digit, and neither is the underscore.
pub proof fn lemma_digit_is_plain(c: char)
    requires
        is_digit(c),
    ensures
        c != '-',
        c != '_',
        c != '/',
        c != '.',
{
}

/// Two integers with the same decimal numeral are equal.
pub proof fn lemma_decimal_injective(a: int, b: int)
    requires
        decimal(a) == decimal(b),
    ensures
        a == b,
{
    if a < 0 {
        lemma_digits_are_digits((-a) as nat);
        assert(decimal(a)[0] == '-');
        if b < 0 {
            assert(decimal(a).subrange(1, decimal(a).len() as int) =~= digits((-a) as nat));
            assert(decimal(b).subrange(1, decimal(b).len() as int) =~= digits((-b) as nat));
            lemma_digits_injective((-a) as nat, (-b) as nat);
        } else {
            lemma_digits_are_digits(b as nat);
            lemma_digit_is_plain(decimal(b)[0]);
        }
    } else {
        lemma_digits_are_digits(a as nat);
        if b < 0 {
            assert(decimal(b)[0] == '-');
            lemma_digit_is_plain(decimal(a)[0]);
        } else {
            lemma_digits_injective(a as nat, b as nat);
        }
    }
}

/// A decimal numeral is not empty and holds neither an underscore, a slash
/// nor a dot.
pub proof fn lemma_decimal_is_plain(v: int)
    ensures
        decimal(v).len() >= 1,
        forall|i: int|
            0 <= i < decimal(v).len() ==> {
                let c = #[trigger] decimal(v)[i];
                c != '_' && c != '/' && c != '.'
            },
{
    if v < 0 {
        lemma_digits_are_digits((-v) as nat);
        assert forall|i: int| 0 <= i < decimal(v).len() implies {
            let c = #[trigger] decimal(v)[i];
            c != '_' && c != '/' && c != '.'
        } by {
            if i > 0 {
                assert(decimal(v)[i] == digits((-v) as nat)[i - 1]);
                lemma_digit_is_plain(digits((-v) as nat)[i - 1]);
            }
        }
    } else {
        lemma_digits_are_digits(v as nat);
        assert forall|i: int| 0 <= i < decimal(v).len() implies {
            let c = #[trigger] decimal(v)[i];
            c != '_' && c != '/' && c != '.'
        } by {
            lemma_digit_is_plain(digits(v as nat)[i]);
        }
    }
}

} // verus!
