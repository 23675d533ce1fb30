//! Building text: decimal numerals and appending to strings.
use vstd::prelude::*;
use vstd::string::*;

verus! {

/// The numeral of one decimal digit.
pub open spec fn digit_char(d: int) -> char {
    seq!['0', '1', '2', '3', '4', '5', '6', '7', '8', '9'][d]
}

/// The decimal numeral of a natural number, without leading zeros.
pub open spec fn nat_numeral(n: nat) -> Seq<char>
    decreases n,
{
    if n < 10 {
        seq![digit_char(n as int)]
    } else {
        nat_numeral(n / 10).push(digit_char((n % 10) as int))
    }
}

/// The decimal numeral of an integer, with a leading `-` when negative.
pub open spec fn int_numeral(n: int) -> Seq<char> {
    if n < 0 {
        seq!['-'] + nat_numeral((-n) as nat)
    } else {
        nat_numeral(n as nat)
    }
}

/// Relies on String::push: the character is added at the end.
#[verifier::external_body]
pub(crate) fn push_char(s: &mut String, c: char)
    ensures
        final(s)@ == old(s)@.push(c),
{
    s.push(c)
}

/// Appends `t` to `s`.
pub fn push_text(s: &mut String, t: &str)
    ensures
        final(s)@ == old(s)@ + t@,
{
    s.append(t);
}

fn digit(d: u64) -> (c: char)
    requires
        d < 10,
    ensures
        c == digit_char(d as int),
{
    match d {
        0 => '0',
        1 => '1',
        2 => '2',
        3 => '3',
        4 => '4',
        5 => '5',
        6 => '6',
        7 => '7',
        8 => '8',
        _ => '9',
    }
}

/// Appends the decimal numeral of `n` to `s`.
pub fn push_nat(s: &mut String, n: u64)
    ensures
        final(s)@ == old(s)@ + nat_numeral(n as nat),
    decreases n,
{
    if n < 10 {
        push_char(s, digit(n));
        assert(old(s)@.push(digit_char(n as int)) =~= old(s)@ + nat_numeral(n as nat));
    } else {
        push_nat(s, n / 10);
        push_char(s, digit(n % 10));
        assert(old(s)@ + nat_numeral(n as nat) =~= old(s)@ + nat_numeral((n / 10) as nat)
            + seq![digit_char((n % 10) as int)]);
    }
}

/// Appends the decimal numeral of `n` to `s`.
pub fn push_int(s: &mut String, n: i64)
    ensures
        final(s)@ == old(s)@ + int_numeral(n as int),
{
    if n < 0 {
        push_char(s, '-');
        let m: u64 = if n == i64::MIN {
            9223372036854775808u64
        } else {
            (-n) as u64
        };
        push_nat(s, m);
        assert(old(s)@ + int_numeral(n as int) =~= old(s)@.push('-') + nat_numeral(m as nat));
    } else {
        push_nat(s, n as u64);
    }
}

} // verus!
