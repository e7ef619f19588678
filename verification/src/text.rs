//! Decimal rendering of integers and small string helpers.

use vstd::prelude::*;

verus! {

/// The character of a decimal digit.
pub open spec fn digit_char(d: nat) -> char {
    ((48 + d) as u32) as char
}

/// The decimal digits of a natural number, most significant first.
pub open spec fn nat_digits(n: nat) -> Seq<char>
    decreases n,
{
    if n < 10 {
        seq![digit_char(n)]
    } else {
        nat_digits(n / 10).push(digit_char(n % 10))
    }
}

/// The decimal rendering of an integer, with a leading `-` when negative.
pub open spec fn int_decimal(i: int) -> Seq<char> {
    if i < 0 {
        seq!['-'].add(nat_digits((-i) as nat))
    } else {
        nat_digits(i as nat)
    }
}

/// The length in bytes of the UTF-8 encoding of a string, as `str::len`
/// reports it.
pub open spec fn str_len(s: Seq<char>) -> usize {
    vstd::utf8::encode_utf8(s).len() as usize
}

/// Appends one character to a string (`String::push`).
#[verifier::external_body]
pub(crate) fn push_char(s: &mut String, c: char)
    ensures
        final(s)@ == old(s)@.push(c),
{
    s.push(c);
}

fn digit(d: u64) -> (c: char)
    requires
        d < 10,
    ensures
        c == digit_char(d as nat),
{
    let b: u8 = 48u8 + (d as u8);
    b as char
}

fn write_digits(n: u64, out: &mut String)
    ensures
        final(out)@ == old(out)@ + nat_digits(n as nat),
    decreases n,
{
    if n >= 10 {
        write_digits(n / 10, out);
    }
    let c = digit(n % 10);
    push_char(out, c);
    proof {
        assert(old(out)@ + nat_digits(n as nat) =~= final(out)@) by {
            if n >= 10 {
                assert(nat_digits(n as nat) == nat_digits((n / 10) as nat).push(digit_char((n % 10) as nat)));
            }
        }
    }
}

/// Renders an unsigned integer in decimal.
pub fn u64_to_decimal(n: u64) -> (s: String)
    ensures
        s@ == nat_digits(n as nat),
{
    let mut s = String::new();
    write_digits(n, &mut s);
    assert(s@ =~= nat_digits(n as nat));
    s
}

/// Renders a signed integer in decimal, as `Display` does.
pub fn i64_to_decimal(n: i64) -> (s: String)
    ensures
        s@ == int_decimal(n as int),
{
    if n < 0 {
        let mag: u64 = if n == i64::MIN {
            9223372036854775808u64
        } else {
            (-n) as u64
        };
        let mut s = String::new();
        push_char(&mut s, '-');
        write_digits(mag, &mut s);
        assert(s@ =~= int_decimal(n as int));
        s
    } else {
        u64_to_decimal(n as u64)
    }
}

} // verus!
