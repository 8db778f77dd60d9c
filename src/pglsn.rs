//! Log sequence numbers: positions in the write-ahead log.
use vstd::prelude::*;

use crate::primitives::{be_uint, read_u64, u64_spec};
use crate::replication_protocol::ParseError;
use crate::text::{digits, push_digits, string_from_chars};

verus! {

/// A 64-bit write-ahead log position; ordered as an unsigned integer.
#[derive(Debug, Clone, Copy, PartialEq, Eq, Structural, PartialOrd, Ord)]
pub struct Lsn(pub u64);

/// The text of an LSN: the high and the low 32 bits in upper-case
/// hexadecimal, without leading zeros, separated by `/`.
pub open spec fn lsn_text(v: u64) -> Seq<char> {
    digits((v >> 32u64) as nat, 16) + seq!['/'] + digits((v & 0xffff_ffffu64) as nat, 16)
}

/// For every 8-byte big-endian input, the text of the LSN it encodes is the
/// value divided by 2^32, `/`, and the value modulo 2^32, each in upper-case
/// hexadecimal.
pub proof fn lemma_lsn_text_halves(b: Seq<u8>)
    requires
        b.len() == 8,
    ensures
        be_uint(b) < 0x1_0000_0000_0000_0000,
        lsn_text(be_uint(b) as u64) == digits(be_uint(b) / 0x1_0000_0000, 16) + seq!['/']
            + digits(be_uint(b) % 0x1_0000_0000, 16),
{
    crate::primitives::lemma_be_uint_bound(b);
    crate::primitives::lemma_byte_range_small(8);
    let v = be_uint(b) as u64;
    assert(v >> 32u64 == v / 0x1_0000_0000u64) by (bit_vector);
    assert(v & 0xffff_ffffu64 == v % 0x1_0000_0000u64) by (bit_vector);
}

impl Lsn {
    /// The LSN whose big-endian encoding is `bytes`.
    pub fn from_be_bytes(bytes: [u8; 8]) -> (r: Lsn)
        ensures
            r.0 as nat == be_uint(bytes@),
    {
        let b = bytes.as_slice();
        proof {
            crate::primitives::lemma_byte_range_small(8);
            crate::primitives::lemma_be_uint_bound(bytes@);
            assert(b@.skip(0).take(8) =~= bytes@);
        }
        match read_u64(b, 0) {
            Ok((v, _)) => Lsn(v),
            Err(_) => {
                proof {
                    assert(false);
                }
                Lsn(0)
            },
        }
    }

    /// Reads an LSN at `position`; gives the position after it.
    pub fn from_buffer(buffer: &[u8], position: usize) -> (r: Result<(usize, Lsn), ParseError>)
        requires
            position <= buffer@.len(),
        ensures
            match r {
                Ok((p, l)) => u64_spec(buffer@.skip(position as int)) == Ok::<(u64, int), ParseError>(
                    (l.0, p - position),
                ),
                Err(e) => u64_spec(buffer@.skip(position as int)) == Err::<(u64, int), ParseError>(e),
            },
    {
        match read_u64(buffer, position) {
            Ok((v, p)) => Ok((p, Lsn(v))),
            Err(e) => Err(e),
        }
    }

    /// Renders the LSN as `HI/LO` in upper-case hexadecimal.
    pub fn format(&self) -> (r: String)
        ensures
            r@ == lsn_text(self.0),
    {
        let mut cs: Vec<char> = Vec::new();
        push_digits(&mut cs, self.0 >> 32u64, 16);
        cs.push('/');
        push_digits(&mut cs, self.0 & 0xffff_ffffu64, 16);
        let r = string_from_chars(&cs);
        assert(r@ =~= lsn_text(self.0));
        r
    }
}

} // verus!
