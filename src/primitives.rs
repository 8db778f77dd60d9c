//! Fixed-width big-endian integers and NUL-terminated strings, read from a
//! byte buffer at a position.
//!
//! Every reader is specified by a function on the unread part of the buffer
//! (`buf@.skip(pos)`) that gives the decoded value and the number of bytes it
//! takes, or the error.
use vstd::prelude::*;
use vstd::slice::slice_subrange;
use vstd::utf8::{decode_utf8, valid_utf8};

use crate::replication_protocol::ParseError;

verus! {

/// Value of the big-endian unsigned integer written in `s`.
pub open spec fn be_uint(s: Seq<u8>) -> nat
    decreases s.len(),
{
    if s.len() == 0 {
        0
    } else {
        be_uint(s.drop_last()) * 256 + s.last() as nat
    }
}

/// Number of values that `n` bytes can hold.
pub open spec fn byte_range(n: nat) -> nat
    decreases n,
{
    if n == 0 {
        1
    } else {
        256 * byte_range((n - 1) as nat)
    }
}

/// The `n` low-order bytes of `v`, most significant first.
pub open spec fn be_bytes(v: nat, n: nat) -> Seq<u8>
    decreases n,
{
    if n == 0 {
        seq![]
    } else {
        be_bytes(v / 256, (n - 1) as nat).push((v % 256) as u8)
    }
}

/// Two's complement reading of a 32-bit pattern.
pub open spec fn signed32(u: nat) -> i32 {
    if u < 0x8000_0000 {
        u as i32
    } else {
        (u - 0x1_0000_0000) as i32
    }
}

/// Two's complement reading of a 64-bit pattern.
pub open spec fn signed64(u: nat) -> i64 {
    if u < 0x8000_0000_0000_0000 {
        u as i64
    } else {
        (u - 0x1_0000_0000_0000_0000) as i64
    }
}

/// The 64-bit two's complement pattern of `v`.
pub open spec fn bits64(v: i64) -> nat {
    if v >= 0 {
        v as nat
    } else {
        (v + 0x1_0000_0000_0000_0000) as nat
    }
}

/// An exec result `r` of a reader started at `pos` agrees with the spec
/// result `s`: the same value (by its deep view) and the same number of bytes
/// taken, or the same error.
pub open spec fn decoded<T: DeepView>(
    r: Result<(T, usize), ParseError>,
    pos: int,
    s: Result<(T::V, int), ParseError>,
) -> bool {
    match r {
        Ok((v, p)) => s == Ok::<(T::V, int), ParseError>((v.deep_view(), p - pos)),
        Err(e) => s == Err::<(T::V, int), ParseError>(e),
    }
}

/// An exec result `r` of a decoder of a whole buffer agrees with the spec
/// result `s`.
pub open spec fn decoded_value<T: DeepView>(r: Result<T, ParseError>, s: Result<T::V, ParseError>) -> bool {
    match r {
        Ok(v) => s == Ok::<T::V, ParseError>(v.deep_view()),
        Err(e) => s == Err::<T::V, ParseError>(e),
    }
}

/// One byte.
pub open spec fn u8_spec(s: Seq<u8>) -> Result<(u8, int), ParseError> {
    if s.len() < 1 {
        Err(ParseError::Truncated)
    } else {
        Ok((s[0], 1))
    }
}

/// A big-endian `u16`.
pub open spec fn u16_spec(s: Seq<u8>) -> Result<(u16, int), ParseError> {
    if s.len() < 2 {
        Err(ParseError::Truncated)
    } else {
        Ok((be_uint(s.take(2)) as u16, 2))
    }
}

/// A big-endian `u32`.
pub open spec fn u32_spec(s: Seq<u8>) -> Result<(u32, int), ParseError> {
    if s.len() < 4 {
        Err(ParseError::Truncated)
    } else {
        Ok((be_uint(s.take(4)) as u32, 4))
    }
}

/// A big-endian two's complement `i32`.
pub open spec fn i32_spec(s: Seq<u8>) -> Result<(i32, int), ParseError> {
    if s.len() < 4 {
        Err(ParseError::Truncated)
    } else {
        Ok((signed32(be_uint(s.take(4))), 4))
    }
}

/// A big-endian `u64`.
pub open spec fn u64_spec(s: Seq<u8>) -> Result<(u64, int), ParseError> {
    if s.len() < 8 {
        Err(ParseError::Truncated)
    } else {
        Ok((be_uint(s.take(8)) as u64, 8))
    }
}

/// A big-endian two's complement `i64`.
pub open spec fn i64_spec(s: Seq<u8>) -> Result<(i64, int), ParseError> {
    if s.len() < 8 {
        Err(ParseError::Truncated)
    } else {
        Ok((signed64(be_uint(s.take(8))), 8))
    }
}

/// `i` is the index of the first zero byte of `s`.
pub open spec fn first_nul(s: Seq<u8>, i: int) -> bool {
    &&& 0 <= i < s.len()
    &&& s[i] == 0
    &&& forall|k: int| 0 <= k < i ==> s[k] != 0
}

/// A NUL-terminated UTF-8 string: the characters before the first zero byte,
/// which is taken too.
pub open spec fn cstring_spec(s: Seq<u8>) -> Result<(Seq<char>, int), ParseError> {
    if exists|i: int| first_nul(s, i) {
        let i = choose|i: int| first_nul(s, i);
        if valid_utf8(s.take(i)) {
            Ok((decode_utf8(s.take(i)), i + 1))
        } else {
            Err(ParseError::InvalidUtf8)
        }
    } else {
        Err(ParseError::Truncated)
    }
}

pub proof fn lemma_byte_range_small(n: nat)
    requires
        n <= 8,
    ensures
        byte_range(n) <= 0x1_0000_0000_0000_0000,
        byte_range(2) == 0x1_0000,
        byte_range(4) == 0x1_0000_0000,
        byte_range(8) == 0x1_0000_0000_0000_0000,
{
    reveal_with_fuel(byte_range, 9);
}

pub proof fn lemma_be_uint_bound(s: Seq<u8>)
    ensures
        be_uint(s) < byte_range(s.len()),
    decreases s.len(),
{
    if s.len() > 0 {
        lemma_be_uint_bound(s.drop_last());
        let v = be_uint(s.drop_last());
        let r = byte_range((s.len() - 1) as nat);
        let b = s.last();
        assert(v * 256 + b < 256 * r) by (nonlinear_arith)
            requires
                v < r,
                b < 256,
        ;
    }
}

/// Reading back the `n` low-order bytes of `v` gives `v` modulo `256^n`.
pub proof fn lemma_be_uint_be_bytes(v: nat, n: nat)
    ensures
        be_uint(be_bytes(v, n)) == v % byte_range(n),
    decreases n,
{
    if n > 0 {
        let r = byte_range((n - 1) as nat);
        lemma_be_uint_be_bytes(v / 256, (n - 1) as nat);
        lemma_byte_range_positive((n - 1) as nat);
        let bs = be_bytes(v, n);
        assert(bs.drop_last() =~= be_bytes(v / 256, (n - 1) as nat));
        vstd::arithmetic::div_mod::lemma_breakdown(v as int, 256, r as int);
    }
}

pub proof fn lemma_byte_range_positive(n: nat)
    ensures
        byte_range(n) > 0,
    decreases n,
{
    if n > 0 {
        lemma_byte_range_positive((n - 1) as nat);
    }
}

/// Relies on `String::from_utf8`: it accepts exactly the byte sequences that
/// are valid UTF-8, and the string it then gives holds the characters they
/// encode.
#[verifier::external_body]
pub(crate) fn utf8_string(b: &[u8]) -> (r: Option<String>)
    ensures
        r is Some <==> valid_utf8(b@),
        r matches Some(t) ==> t@ == decode_utf8(b@),
{
    String::from_utf8(b.to_vec()).ok()
}

/// Reads the `n`-byte big-endian unsigned integer at `pos`.
fn read_be(buf: &[u8], pos: usize, n: usize) -> (r: Result<(u64, usize), ParseError>)
    requires
        pos <= buf@.len(),
        n <= 8,
    ensures
        match r {
            Ok((v, p)) => {
                &&& pos + n <= buf@.len()
                &&& p == pos + n
                &&& v == be_uint(buf@.subrange(pos as int, pos + n))
                &&& v < byte_range(n as nat)
            },
            Err(e) => pos + n > buf@.len() && e == ParseError::Truncated,
        },
{
    if n > buf.len() - pos {
        return Err(ParseError::Truncated);
    }
    let mut v: u64 = 0;
    let mut i: usize = 0;
    while i < n
        invariant
            pos + n <= buf.len(),
            n <= 8,
            i <= n,
            v == be_uint(buf@.subrange(pos as int, pos + i)),
            v < byte_range(i as nat),
        decreases n - i,
    {
        let b = buf[pos + i];
        proof {
            let s = buf@.subrange(pos as int, pos + i + 1);
            assert(s.drop_last() =~= buf@.subrange(pos as int, pos + i));
            lemma_byte_range_small((i + 1) as nat);
            let r = byte_range(i as nat);
            assert(v * 256 + b < 256 * r) by (nonlinear_arith)
                requires
                    v < r,
                    b < 256,
            ;
        }
        v = v * 256 + b as u64;
        i = i + 1;
    }
    Ok((v, pos + n))
}

pub fn read_u8(buf: &[u8], pos: usize) -> (r: Result<(u8, usize), ParseError>)
    requires
        pos <= buf@.len(),
    ensures
        decoded(r, pos as int, u8_spec(buf@.skip(pos as int))),
{
    if pos < buf.len() {
        Ok((buf[pos], pos + 1))
    } else {
        Err(ParseError::Truncated)
    }
}

pub fn read_u16(buf: &[u8], pos: usize) -> (r: Result<(u16, usize), ParseError>)
    requires
        pos <= buf@.len(),
    ensures
        decoded(r, pos as int, u16_spec(buf@.skip(pos as int))),
{
    proof {
        lemma_byte_range_small(2);
    }
    match read_be(buf, pos, 2) {
        Ok((v, p)) => {
            assert(buf@.skip(pos as int).take(2) =~= buf@.subrange(pos as int, pos + 2));
            Ok((v as u16, p))
        },
        Err(e) => Err(e),
    }
}

pub fn read_u32(buf: &[u8], pos: usize) -> (r: Result<(u32, usize), ParseError>)
    requires
        pos <= buf@.len(),
    ensures
        decoded(r, pos as int, u32_spec(buf@.skip(pos as int))),
{
    proof {
        lemma_byte_range_small(4);
    }
    match read_be(buf, pos, 4) {
        Ok((v, p)) => {
            assert(buf@.skip(pos as int).take(4) =~= buf@.subrange(pos as int, pos + 4));
            Ok((v as u32, p))
        },
        Err(e) => Err(e),
    }
}

pub fn read_i32(buf: &[u8], pos: usize) -> (r: Result<(i32, usize), ParseError>)
    requires
        pos <= buf@.len(),
    ensures
        decoded(r, pos as int, i32_spec(buf@.skip(pos as int))),
{
    proof {
        lemma_byte_range_small(4);
    }
    match read_be(buf, pos, 4) {
        Ok((v, p)) => {
            assert(buf@.skip(pos as int).take(4) =~= buf@.subrange(pos as int, pos + 4));
            let x: i32 = if v < 0x8000_0000 {
                v as i32
            } else {
                ((v - 0x8000_0000) as i32) - 0x7fff_ffff - 1
            };
            Ok((x, p))
        },
        Err(e) => Err(e),
    }
}

pub fn read_u64(buf: &[u8], pos: usize) -> (r: Result<(u64, usize), ParseError>)
    requires
        pos <= buf@.len(),
    ensures
        decoded(r, pos as int, u64_spec(buf@.skip(pos as int))),
{
    match read_be(buf, pos, 8) {
        Ok((v, p)) => {
            assert(buf@.skip(pos as int).take(8) =~= buf@.subrange(pos as int, pos + 8));
            Ok((v, p))
        },
        Err(e) => Err(e),
    }
}

pub fn read_i64(buf: &[u8], pos: usize) -> (r: Result<(i64, usize), ParseError>)
    requires
        pos <= buf@.len(),
    ensures
        decoded(r, pos as int, i64_spec(buf@.skip(pos as int))),
{
    match read_be(buf, pos, 8) {
        Ok((v, p)) => {
            assert(buf@.skip(pos as int).take(8) =~= buf@.subrange(pos as int, pos + 8));
            let x: i64 = if v < 0x8000_0000_0000_0000 {
                v as i64
            } else {
                ((v - 0x8000_0000_0000_0000) as i64) - 0x7fff_ffff_ffff_ffff - 1
            };
            Ok((x, p))
        },
        Err(e) => Err(e),
    }
}

/// Reads a NUL-terminated UTF-8 string; the position returned is past the
/// terminator.
pub fn read_cstring(buf: &[u8], pos: usize) -> (r: Result<(String, usize), ParseError>)
    requires
        pos <= buf@.len(),
    ensures
        decoded(r, pos as int, cstring_spec(buf@.skip(pos as int))),
{
    let ghost s = buf@.skip(pos as int);
    let mut i: usize = pos;
    while i < buf.len() && buf[i] != 0
        invariant
            pos <= i <= buf@.len(),
            s == buf@.skip(pos as int),
            forall|k: int| pos <= k < i ==> buf@[k] != 0,
        decreases buf@.len() - i,
    {
        i = i + 1;
    }
    if i == buf.len() {
        assert forall|j: int| !first_nul(s, j) by {
            if first_nul(s, j) {
                assert(s[j] == buf@[pos + j]);
            }
        }
        return Err(ParseError::Truncated);
    }
    let ghost z = i - pos;
    assert(first_nul(s, z)) by {
        assert forall|k: int| 0 <= k < z implies s[k] != 0 by {
            assert(s[k] == buf@[pos + k]);
        }
    }
    let ghost c = choose|j: int| first_nul(s, j);
    assert(c == z) by {
        assert(first_nul(s, c));
        if c < z {
            assert(s[c] == 0);
        } else if c > z {
            assert(s[z] != 0);
        }
    }
    let data = slice_subrange(buf, pos, i);
    assert(data@ =~= s.take(z));
    match utf8_string(data) {
        Some(t) => Ok((t, i + 1)),
        None => Err(ParseError::InvalidUtf8),
    }
}

} // verus!
