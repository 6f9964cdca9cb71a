//! Decimal text of integers.
use vstd::prelude::*;
use vstd::string::*;

verus! {

/// The character of a decimal digit.
pub open spec fn digit_char(d: int) -> char {
    if d == 0 {
        '0'
    } else if d == 1 {
        '1'
    } else if d == 2 {
        '2'
    } else if d == 3 {
        '3'
    } else if d == 4 {
        '4'
    } else if d == 5 {
        '5'
    } else if d == 6 {
        '6'
    } else if d == 7 {
        '7'
    } else if d == 8 {
        '8'
    } else {
        '9'
    }
}

/// The decimal digits of `n`, most significant first, without leading zeros.
pub open spec fn natural_text(n: nat) -> Seq<char>
    decreases n,
{
    if n < 10 {
        seq![digit_char(n as int)]
    } else {
        natural_text(n / 10) + seq![digit_char((n % 10) as int)]
    }
}

/// `v` in decimal, with a leading `-` when negative.
pub open spec fn decimal_text(v: int) -> Seq<char> {
    if v < 0 {
        seq!['-'] + natural_text((-v) as nat)
    } else {
        natural_text(v as nat)
    }
}

/// The text of one decimal digit.
fn digit_str(d: u64) -> (r: &'static str)
    requires
        d < 10,
    ensures
        r@ == seq![digit_char(d as int)],
{
    proof {
        reveal_strlit("0");
        reveal_strlit("1");
        reveal_strlit("2");
        reveal_strlit("3");
        reveal_strlit("4");
        reveal_strlit("5");
        reveal_strlit("6");
        reveal_strlit("7");
        reveal_strlit("8");
        reveal_strlit("9");
    }
    if d == 0 {
        "0"
    } else if d == 1 {
        "1"
    } else if d == 2 {
        "2"
    } else if d == 3 {
        "3"
    } else if d == 4 {
        "4"
    } else if d == 5 {
        "5"
    } else if d == 6 {
        "6"
    } else if d == 7 {
        "7"
    } else if d == 8 {
        "8"
    } else {
        "9"
    }
}

/// Appends the decimal digits of `n` and returns how many were appended.
fn push_natural(text: &mut String, n: u64) -> (written: u64)
    ensures
        final(text)@ == old(text)@ + natural_text(n as nat),
        written == natural_text(n as nat).len(),
        written <= 20,
    decreases n,
{
    if n < 10 {
        text.append(digit_str(n));
        1
    } else {
        let before = push_natural(text, n / 10);
        text.append(digit_str(n % 10));
        proof {
            assert(before <= 19) by {
                lemma_natural_text_len(n as nat);
            }
        }
        before + 1
    }
}

/// The decimal text of a number below `10^k` has at most `k` digits.
proof fn lemma_natural_text_len(n: nat)
    requires
        n >= 10,
        n <= u64::MAX,
    ensures
        natural_text(n / 10).len() <= 19,
    decreases n,
{
    reveal_with_fuel(pow10, 20);
    assert(pow10(19) == 10_000_000_000_000_000_000);
    lemma_natural_text_len_bound(n / 10, 19);
}

/// The number of digits of `n` is at most `k` when `n < 10^k`.
proof fn lemma_natural_text_len_bound(n: nat, k: nat)
    requires
        n < pow10(k),
        k >= 1,
    ensures
        natural_text(n).len() <= k,
    decreases n,
{
    if n >= 10 {
        if k == 1 {
            reveal_with_fuel(pow10, 2);
        } else {
            assert(pow10(k) == 10 * pow10((k - 1) as nat));
            lemma_natural_text_len_bound(n / 10, (k - 1) as nat);
        }
    }
}

/// `10^k`.
pub open spec fn pow10(k: nat) -> nat
    decreases k,
{
    if k == 0 {
        1
    } else {
        10 * pow10((k - 1) as nat)
    }
}

/// Appends `v` in decimal and returns how many characters were appended.
pub fn push_decimal(text: &mut String, v: i64) -> (written: u64)
    ensures
        final(text)@ == old(text)@ + decimal_text(v as int),
        written == decimal_text(v as int).len(),
        written <= 21,
{
    proof {
        reveal_strlit("-");
    }
    if v < 0 {
        text.append("-");
        let magnitude: u64 = if v == i64::MIN {
            9_223_372_036_854_775_808
        } else {
            (-v) as u64
        };
        let n = push_natural(text, magnitude);
        assert(text@ =~= old(text)@ + decimal_text(v as int));
        n + 1
    } else {
        push_natural(text, v as u64)
    }
}

} // verus!
