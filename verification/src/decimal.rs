//! Decimal text of the integers that go into SQL statements.

use vstd::prelude::*;
use crate::info_hash::{hex_digit_str, lemma_hex_digit_round_trip, lower_hex_char};

verus! {

/// Decimal digits of a natural number, most significant first, with no
/// leading zeros (zero itself is "0").
pub open spec fn digits_text(n: nat) -> Seq<char>
    decreases n,
{
    if n < 10 {
        seq![lower_hex_char(n as int)]
    } else {
        digits_text(n / 10).push(lower_hex_char((n % 10) as int))
    }
}

/// Decimal text of an integer: its digits, after a minus sign when it is negative.
pub open spec fn decimal_text(x: int) -> Seq<char> {
    if x < 0 {
        seq!['-'] + digits_text((-x) as nat)
    } else {
        digits_text(x as nat)
    }
}

/// Appends the decimal digits of `n` to `s`.
fn append_digits(s: &mut String, n: u64)
    ensures
        final(s)@ == old(s)@ + digits_text(n as nat),
    decreases n,
{
    if n >= 10 {
        append_digits(s, n / 10);
    }
    s.append(hex_digit_str((n % 10) as u8));
    proof {
        assert(old(s)@ + digits_text(n as nat) =~= if n >= 10 {
            old(s)@ + digits_text((n / 10) as nat) + seq![lower_hex_char((n % 10) as int)]
        } else {
            old(s)@ + seq![lower_hex_char((n % 10) as int)]
        });
    }
}

/// The decimal text of `x`, as Rust's `Display` writes an `i64`.
pub fn decimal_string(x: i64) -> (s: String)
    ensures
        s@ == decimal_text(x as int),
{
    let mut s = String::new();
    if x < 0 {
        let magnitude: u64 = (-(x + 1)) as u64 + 1;
        s.append("-");
        proof {
            reveal_strlit("-");
            assert("-"@ =~= seq!['-']);
        }
        append_digits(&mut s, magnitude);
    } else {
        append_digits(&mut s, x as u64);
    }
    proof {
        assert(s@ =~= decimal_text(x as int));
    }
    s
}


/// Every character of a number's digits is a decimal digit, and there is at least one.
proof fn lemma_digits_are_digits(n: nat)
    ensures
        digits_text(n).len() >= 1,
        n >= 10 ==> digits_text(n).len() >= 2,
        forall|i: int|
            0 <= i < digits_text(n).len() ==> #[trigger] digits_text(n)[i] != '-',
    decreases n,
{
    if n >= 10 {
        lemma_digits_are_digits(n / 10);
    }
}

/// Different natural numbers have different digits.
proof fn lemma_digits_injective(n: nat, m: nat)
    requires
        digits_text(n) == digits_text(m),
    ensures
        n == m,
    decreases n + m,
{
    lemma_digits_are_digits(n);
    lemma_digits_are_digits(m);
    if n >= 10 && m >= 10 {
        let dn = digits_text(n);
        assert(dn.last() == lower_hex_char((n % 10) as int));
        assert(digits_text(m).last() == lower_hex_char((m % 10) as int));
        lemma_hex_digit_round_trip((n % 10) as int);
        lemma_hex_digit_round_trip((m % 10) as int);
        assert(dn.drop_last() =~= digits_text(n / 10));
        assert(digits_text(m).drop_last() =~= digits_text(m / 10));
        lemma_digits_injective(n / 10, m / 10);
    } else if n < 10 && m < 10 {
        assert(digits_text(n)[0] == lower_hex_char(n as int));
        assert(digits_text(m)[0] == lower_hex_char(m as int));
        lemma_hex_digit_round_trip(n as int);
        lemma_hex_digit_round_trip(m as int);
    }
}

/// Different integers have different decimal texts, so an integer is
/// recovered from its text.
pub proof fn lemma_decimal_text_injective(x: int, y: int)
    requires
        decimal_text(x) == decimal_text(y),
    ensures
        x == y,
{
    lemma_digits_are_digits((-x) as nat);
    lemma_digits_are_digits((-y) as nat);
    lemma_digits_are_digits(x as nat);
    lemma_digits_are_digits(y as nat);
    if x < 0 && y < 0 {
        assert(decimal_text(x).drop_first() =~= digits_text((-x) as nat));
        assert(decimal_text(y).drop_first() =~= digits_text((-y) as nat));
        lemma_digits_injective((-x) as nat, (-y) as nat);
    } else if x >= 0 && y >= 0 {
        lemma_digits_injective(x as nat, y as nat);
    } else if x < 0 {
        assert(decimal_text(x)[0] == '-');
        assert(decimal_text(y)[0] != '-');
    } else {
        assert(decimal_text(y)[0] == '-');
        assert(decimal_text(x)[0] != '-');
    }
}


/// The value of a text of decimal digits, read from the most significant
/// digit, with an optional leading minus sign.
pub open spec fn digits_value(text: Seq<char>) -> int
    decreases text.len(),
{
    if text.len() == 0 {
        0
    } else {
        digits_value(text.drop_last()) * 10 + (text.last() as int - 48)
    }
}

/// The integer a decimal text stands for.
pub open spec fn decimal_value(text: Seq<char>) -> int {
    if text.len() > 0 && text[0] == '-' {
        -digits_value(text.drop_first())
    } else {
        digits_value(text)
    }
}

proof fn lemma_digits_value(n: nat)
    ensures
        digits_value(digits_text(n)) == n,
    decreases n,
{
    let d = (n % 10) as int;
    assert(lower_hex_char(d) as int == 48 + d) by {
        lemma_hex_digit_round_trip(d);
    }
    let t = digits_text(n);
    assert(t.last() == lower_hex_char(d));
    assert(digits_value(t) == digits_value(t.drop_last()) * 10 + (t.last() as int - 48));
    if n < 10 {
        assert(t.drop_last() =~= Seq::<char>::empty());
        assert(digits_value(Seq::<char>::empty()) == 0);
    } else {
        lemma_digits_value(n / 10);
        assert(t.drop_last() =~= digits_text(n / 10));
        assert((n / 10) * 10 + n % 10 == n) by (nonlinear_arith);
    }
}

/// The decimal text of an integer reads back as that integer.
pub proof fn lemma_decimal_text_value(x: int)
    ensures
        decimal_value(decimal_text(x)) == x,
{
    lemma_digits_are_digits(x as nat);
    if x < 0 {
        assert(decimal_text(x).drop_first() =~= digits_text((-x) as nat));
        lemma_digits_value((-x) as nat);
    } else {
        lemma_digits_value(x as nat);
    }
}

} // verus!
