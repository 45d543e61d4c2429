//! Decimal text for integers, shared by token descriptions, runtime value
//! display, and error messages.

use vstd::prelude::*;

verus! {

/// The decimal digit character for a value in 0..10.
pub open spec fn digit_char(d: int) -> char {
    if d == 0 {
        '0'
    } else if d == 1 {
        '1'
    } else if d == 2 {
        '2'
    } else if d == 3 {
        '3'
    } else if d == 4 {
        '4'
    } else if d == 5 {
        '5'
    } else if d == 6 {
        '6'
    } else if d == 7 {
        '7'
    } else if d == 8 {
        '8'
    } else {
        '9'
    }
}

/// The decimal digits of a positive integer, most significant first.
pub open spec fn dec_digits(n: int) -> Seq<char>
    decreases n,
{
    if n <= 0 {
        seq![]
    } else {
        dec_digits(n / 10) + seq![digit_char(n % 10)]
    }
}

/// Decimal text of an integer: its digits, with a leading minus sign when
/// negative.
pub open spec fn int_text(n: int) -> Seq<char> {
    if n == 0 {
        seq!['0']
    } else if n > 0 {
        dec_digits(n)
    } else {
        seq!['-'] + dec_digits(-n)
    }
}

/// Relies on alloc::string::String::push: appends exactly one character to
/// the end of the string.
#[verifier::external_body]
pub(crate) fn push_char(s: &mut String, c: char)
    ensures
        final(s)@ == old(s)@.push(c),
{
    s.push(c);
}

fn push_dec_digits(s: &mut String, n: u64)
    requires
        n > 0,
    ensures
        final(s)@ == old(s)@ + dec_digits(n as int),
    decreases n,
{
    let ghost pre = s@;
    if n >= 10 {
        push_dec_digits(s, n / 10);
    }
    let d: u8 = (n % 10) as u8;
    push_char(s, (48 + d) as char);
    proof {
        assert((48 + d) as char == digit_char(n as int % 10));
        assert(dec_digits(n as int) == dec_digits(n as int / 10) + seq![
            digit_char(n as int % 10),
        ]);
        assert(s@ =~= pre + dec_digits(n as int));
    }
}

/// The decimal text of a 64-bit signed integer.
pub fn i64_text(n: i64) -> (s: String)
    ensures
        s@ == int_text(n as int),
{
    let mut s = String::new();
    if n == 0 {
        push_char(&mut s, '0');
        assert(s@ =~= int_text(0));
        return s;
    }
    if n < 0 {
        push_char(&mut s, '-');
    }
    let m: u64 = if n == i64::MIN {
        9223372036854775808u64
    } else if n < 0 {
        (-n) as u64
    } else {
        n as u64
    };
    push_dec_digits(&mut s, m);
    assert(s@ =~= int_text(n as int));
    s
}

} // verus!
