//! Positional rendering of unsigned integers, as `{:X}` and `{}` print them.
use vstd::prelude::*;

verus! {

/// The character of digit `d` (`0`-`9`, then upper-case `A`-`F`).
pub open spec fn digit_char(d: nat) -> char {
    if d < 10 {
        (48 + d) as char
    } else {
        (55 + d) as char
    }
}

/// The digits of `n` in base `radix`, most significant first, with no
/// leading zero (zero itself is `"0"`).
pub open spec fn digits(n: nat, radix: nat) -> Seq<char>
    decreases n,
    via digits_decreases
{
    if radix < 2 || n < radix {
        seq![digit_char(n)]
    } else {
        digits(n / radix, radix).push(digit_char(n % radix))
    }
}

#[via_fn]
proof fn digits_decreases(n: nat, radix: nat) {
    if !(radix < 2 || n < radix) {
        assert(n / radix < n) by (nonlinear_arith)
            requires
                radix >= 2,
                n >= radix,
        ;
    }
}

/// Relies on `String`'s `FromIterator<char>`: the string holds the given
/// characters, in order.
#[verifier::external_body]
pub(crate) fn string_from_chars(cs: &Vec<char>) -> (r: String)
    ensures
        r@ == cs@,
{
    cs.iter().collect()
}

fn digit(d: u64) -> (c: char)
    requires
        d < 16,
    ensures
        c == digit_char(d as nat),
{
    let b: u8 = if d < 10 {
        48 + d as u8
    } else {
        55 + d as u8
    };
    b as char
}

/// Appends the digits of `n` in base `radix`.
pub fn push_digits(out: &mut Vec<char>, n: u64, radix: u64)
    requires
        2 <= radix <= 16,
    ensures
        final(out)@ == old(out)@ + digits(n as nat, radix as nat),
    decreases n,
{
    let ghost start = out@;
    if n >= radix {
        assert(n / radix < n) by (nonlinear_arith)
            requires
                radix >= 2,
                n >= radix,
        ;
        push_digits(out, n / radix, radix);
    } else {
        assert(n % radix == n) by (nonlinear_arith)
            requires
                n < radix,
        ;
    }
    out.push(digit(n % radix));
    assert(out@ =~= start + digits(n as nat, radix as nat));
}

} // verus!
