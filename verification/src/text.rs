//! Whole numbers written in decimal, and texts put together as a bracketed
//! list.

use vstd::prelude::*;
use vstd::string::StringExecFns;

verus! {

/// The character that stands for the digit `d`.
pub open spec fn digit(d: nat) -> char {
    seq!['0', '1', '2', '3', '4', '5', '6', '7', '8', '9'][d as int]
}

/// The digits of `n`, most significant first, without leading zeros.
pub open spec fn decimal(n: nat) -> Seq<char>
    decreases n,
{
    if n < 10 {
        seq![digit(n)]
    } else {
        decimal(n / 10).push(digit(n % 10))
    }
}

/// The digits of `magnitude`, behind a minus sign where `negative` holds.
pub open spec fn signed_decimal(negative: bool, magnitude: nat) -> Seq<char> {
    if negative {
        seq!['-'] + decimal(magnitude)
    } else {
        decimal(magnitude)
    }
}

/// A whole number as it is written: the digits of its magnitude, behind a
/// minus sign where the number is below zero.
pub open spec fn int_text(v: int) -> Seq<char> {
    signed_decimal(v < 0, vstd::math::abs(v))
}

/// The texts of `items` with a comma and a space between neighbours.
pub open spec fn joined(items: Seq<Seq<char>>) -> Seq<char>
    decreases items.len(),
{
    if items.len() == 0 {
        Seq::empty()
    } else if items.len() == 1 {
        items[0]
    } else {
        joined(items.drop_last()) + seq![',', ' '] + items.last()
    }
}

/// The texts of `items` as a list: `[]` for none, else `[a, b, c]`.
pub open spec fn bracketed(items: Seq<Seq<char>>) -> Seq<char> {
    seq!['['] + joined(items) + seq![']']
}

/// The digits in `low` from the last to the first.
spec fn reversed_digits(low: Seq<u64>) -> Seq<char>
    decreases low.len(),
{
    if low.len() == 0 {
        Seq::empty()
    } else {
        seq![digit(low.last() as nat)] + reversed_digits(low.drop_last())
    }
}

/// Splitting the lowest digit off `rest` and keeping it as the last of `low`
/// does not change what the two spell together.
proof fn lemma_split_lowest_digit(rest: nat, low: Seq<u64>)
    requires
        rest >= 10,
    ensures
        decimal(rest) + reversed_digits(low) == decimal(rest / 10) + reversed_digits(
            low.push((rest % 10) as u64),
        ),
{
    let lowest = digit(rest % 10);
    let higher = decimal(rest / 10);
    let longer = low.push((rest % 10) as u64);
    assert(longer.drop_last() == low);
    assert(reversed_digits(longer) == seq![lowest] + reversed_digits(low));
    assert(higher.push(lowest) + reversed_digits(low) == higher + reversed_digits(longer));
}

/// The text of the digit `d`.
fn digit_str(d: u64) -> (s: &'static str)
    requires
        d < 10,
    ensures
        s@ == seq![digit(d as nat)],
{
    proof {
        reveal_strlit("0");
        reveal_strlit("1");
        reveal_strlit("2");
        reveal_strlit("3");
        reveal_strlit("4");
        reveal_strlit("5");
        reveal_strlit("6");
        reveal_strlit("7");
        reveal_strlit("8");
        reveal_strlit("9");
    }
    let s: &'static str = if d == 0 {
        "0"
    } else if d == 1 {
        "1"
    } else if d == 2 {
        "2"
    } else if d == 3 {
        "3"
    } else if d == 4 {
        "4"
    } else if d == 5 {
        "5"
    } else if d == 6 {
        "6"
    } else if d == 7 {
        "7"
    } else if d == 8 {
        "8"
    } else {
        "9"
    };
    assert(s@ =~= seq![digit(d as nat)]);
    s
}

/// Writes `magnitude` in decimal, behind a minus sign where `negative`
/// holds: `"0"` for 0, `"-12"` for a negative 12.
pub fn decimal_string(negative: bool, magnitude: u64) -> (s: String)
    ensures
        s@ == signed_decimal(negative, magnitude as nat),
{
    // Split the digits off from the lowest up, until one is left.
    let mut low: Vec<u64> = Vec::new();
    let mut rest: u64 = magnitude;
    while rest >= 10
        invariant
            forall|i: int| 0 <= i < low@.len() ==> low@[i] < 10,
            decimal(magnitude as nat) == decimal(rest as nat) + reversed_digits(low@),
        decreases rest,
    {
        proof {
            lemma_split_lowest_digit(rest as nat, low@);
        }
        low.push(rest % 10);
        rest = rest / 10;
    }
    let mut s = String::new();
    if negative {
        proof {
            reveal_strlit("-");
        }
        s.append("-");
    }
    let ghost sign = s@;
    s.append(digit_str(rest));
    // Write the digits that were split off, from the highest down.
    let mut left: usize = low.len();
    assert(low@.take(left as int) == low@);
    while left > 0
        invariant
            left <= low@.len(),
            forall|i: int| 0 <= i < low@.len() ==> low@[i] < 10,
            sign + decimal(magnitude as nat) == s@ + reversed_digits(low@.take(left as int)),
        decreases left,
    {
        assert(low@.take(left as int).drop_last() == low@.take(left - 1));
        left -= 1;
        s.append(digit_str(low[left]));
    }
    assert(s@ == sign + decimal(magnitude as nat));
    s
}

} // verus!
