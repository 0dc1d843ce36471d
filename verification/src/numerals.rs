//! Decimal text for integer values, and the numeric value of a digit run.
//! The scanner uses the value direction; the printers use the text direction.

use vstd::prelude::*;
use vstd::string::StringExecFns;

verus! {

/// The decimal digit character for a value in `0 .. 10`.
pub open spec fn sp_digit_char(d: int) -> char {
    if d == 0 {
        '0'
    } else if d == 1 {
        '1'
    } else if d == 2 {
        '2'
    } else if d == 3 {
        '3'
    } else if d == 4 {
        '4'
    } else if d == 5 {
        '5'
    } else if d == 6 {
        '6'
    } else if d == 7 {
        '7'
    } else if d == 8 {
        '8'
    } else {
        '9'
    }
}

/// The numeric value of a decimal digit character.
pub open spec fn sp_digit_val(c: char) -> int {
    c as int - '0' as int
}

/// A decimal digit character.
pub open spec fn sp_is_digit(c: char) -> bool {
    '0' <= c && c <= '9'
}

/// Decimal text of a natural number, most significant digit first,
/// with no leading zeros (a lone zero for 0).
pub open spec fn sp_dec_text(n: nat) -> Seq<char>
    decreases n,
{
    if n < 10 {
        seq![sp_digit_char(n as int)]
    } else {
        sp_dec_text(n / 10) + seq![sp_digit_char((n % 10) as int)]
    }
}

/// Decimal text of a signed 64-bit value: a minus sign before the
/// magnitude for negative values.
pub open spec fn sp_i64_text(n: i64) -> Seq<char> {
    if n >= 0 {
        sp_dec_text(n as nat)
    } else {
        seq!['-'] + sp_dec_text((-(n as int)) as nat)
    }
}

/// The value of a run of decimal digit characters, most significant first.
pub open spec fn sp_digits_val(s: Seq<char>) -> int
    decreases s.len(),
{
    if s.len() == 0 {
        0
    } else {
        sp_digits_val(s.drop_last()) * 10 + sp_digit_val(s.last())
    }
}

/// The one-character string for a decimal digit value.
fn digit_str(d: u64) -> (r: &'static str)
    requires
        d < 10,
    ensures
        r@ =~= seq![sp_digit_char(d as int)],
{
    proof {
        reveal_strlit("0");
        reveal_strlit("1");
        reveal_strlit("2");
        reveal_strlit("3");
        reveal_strlit("4");
        reveal_strlit("5");
        reveal_strlit("6");
        reveal_strlit("7");
        reveal_strlit("8");
        reveal_strlit("9");
    }
    if d == 0 {
        "0"
    } else if d == 1 {
        "1"
    } else if d == 2 {
        "2"
    } else if d == 3 {
        "3"
    } else if d == 4 {
        "4"
    } else if d == 5 {
        "5"
    } else if d == 6 {
        "6"
    } else if d == 7 {
        "7"
    } else if d == 8 {
        "8"
    } else {
        "9"
    }
}

/// Decimal text of an unsigned 64-bit value.
pub fn u64_text(n: u64) -> (r: String)
    ensures
        r@ == sp_dec_text(n as nat),
    decreases n,
{
    if n < 10 {
        String::from_str(digit_str(n))
    } else {
        let mut r = u64_text(n / 10);
        r.append(digit_str(n % 10));
        proof {
            assert(r@ =~= sp_dec_text(n as nat));
        }
        r
    }
}

/// Decimal text of a signed 64-bit value.
pub fn i64_text(n: i64) -> (r: String)
    ensures
        r@ == sp_i64_text(n),
{
    if n >= 0 {
        let r = u64_text(n as u64);
        proof {
            assert(n as u64 as nat == n as nat);
        }
        r
    } else {
        // The magnitude of any negative `i64`, including `i64::MIN`,
        // fits in a `u64`.
        let below: i64 = -(n + 1);
        let mag: u64 = (below as u64) + 1;
        let mut r = String::from_str("-");
        let tail = u64_text(mag);
        r.append(tail.as_str());
        proof {
            reveal_strlit("-");
            assert(mag as int == -(n as int));
            assert(r@ =~= sp_i64_text(n));
        }
        r
    }
}

} // verus!
