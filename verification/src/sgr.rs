//! Decimal and hexadecimal rendering of numbers as character sequences, used
//! when serializing VT control sequences.

use vstd::prelude::*;

verus! {

/// The digit character for one decimal or hexadecimal digit value.
pub open spec fn spec_digit(d: int) -> char {
    if d == 0 {
        '0'
    } else if d == 1 {
        '1'
    } else if d == 2 {
        '2'
    } else if d == 3 {
        '3'
    } else if d == 4 {
        '4'
    } else if d == 5 {
        '5'
    } else if d == 6 {
        '6'
    } else if d == 7 {
        '7'
    } else if d == 8 {
        '8'
    } else if d == 9 {
        '9'
    } else if d == 10 {
        'a'
    } else if d == 11 {
        'b'
    } else if d == 12 {
        'c'
    } else if d == 13 {
        'd'
    } else if d == 14 {
        'e'
    } else {
        'f'
    }
}

/// The decimal digits of a non-negative number, most significant first.
pub open spec fn spec_dec(n: int) -> Seq<char>
    decreases n,
{
    if n < 10 {
        seq![spec_digit(n)]
    } else {
        spec_dec(n / 10) + seq![spec_digit(n % 10)]
    }
}

/// The digit character for a value below 16.
pub fn digit_char(d: u32) -> (c: char)
    requires
        d < 16,
    ensures
        c == spec_digit(d as int),
{
    if d == 0 {
        '0'
    } else if d == 1 {
        '1'
    } else if d == 2 {
        '2'
    } else if d == 3 {
        '3'
    } else if d == 4 {
        '4'
    } else if d == 5 {
        '5'
    } else if d == 6 {
        '6'
    } else if d == 7 {
        '7'
    } else if d == 8 {
        '8'
    } else if d == 9 {
        '9'
    } else if d == 10 {
        'a'
    } else if d == 11 {
        'b'
    } else if d == 12 {
        'c'
    } else if d == 13 {
        'd'
    } else if d == 14 {
        'e'
    } else {
        'f'
    }
}

/// Appends the decimal digits of `v` to `out`.
pub fn push_dec(out: &mut Vec<char>, v: u32)
    ensures
        final(out)@ == old(out)@ + spec_dec(v as int),
    decreases v,
{
    let ghost base = out@;
    if v >= 10 {
        push_dec(out, v / 10);
        out.push(digit_char(v % 10));
        proof {
            assert(out@ =~= base + spec_dec(v as int));
        }
    } else {
        out.push(digit_char(v));
        proof {
            assert(out@ =~= base + spec_dec(v as int));
        }
    }
}

/// The hexadecimal digits of a non-negative number, most significant first.
pub open spec fn spec_hex(n: int) -> Seq<char>
    decreases n,
{
    if n < 16 {
        seq![spec_digit(n)]
    } else {
        spec_hex(n / 16) + seq![spec_digit(n % 16)]
    }
}

/// Appends the hexadecimal digits of `v` to `out`.
pub fn push_hex(out: &mut Vec<char>, v: u32)
    ensures
        final(out)@ == old(out)@ + spec_hex(v as int),
    decreases v,
{
    let ghost base = out@;
    if v >= 16 {
        push_hex(out, v / 16);
        out.push(digit_char(v % 16));
        proof {
            assert(out@ =~= base + spec_hex(v as int));
        }
    } else {
        out.push(digit_char(v));
        proof {
            assert(out@ =~= base + spec_hex(v as int));
        }
    }
}

} // verus!
