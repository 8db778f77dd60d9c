//! Transaction ids.
use vstd::prelude::*;

use crate::primitives::{be_uint, read_u32, u32_spec};
use crate::replication_protocol::ParseError;
use crate::text::{digits, push_digits, string_from_chars};

verus! {

/// A 32-bit transaction id, carried through without interpretation.
#[derive(Debug, Clone, Copy, PartialEq, Eq, Structural)]
pub struct Xid(pub u32);

impl Xid {
    /// The id whose big-endian encoding is `bytes`.
    pub fn from_be_bytes(bytes: [u8; 4]) -> (r: Xid)
        ensures
            r.0 as nat == be_uint(bytes@),
    {
        let b = bytes.as_slice();
        proof {
            crate::primitives::lemma_byte_range_small(4);
            crate::primitives::lemma_be_uint_bound(bytes@);
            assert(b@.skip(0).take(4) =~= bytes@);
        }
        match read_u32(b, 0) {
            Ok((v, _)) => Xid(v),
            Err(_) => {
                proof {
                    assert(false);
                }
                Xid(0)
            },
        }
    }

    /// Reads an id at `position`; gives the position after it.
    pub fn from_buffer(buffer: &[u8], position: usize) -> (r: Result<(usize, Xid), ParseError>)
        requires
            position <= buffer@.len(),
        ensures
            match r {
                Ok((p, x)) => u32_spec(buffer@.skip(position as int)) == Ok::<(u32, int), ParseError>(
                    (x.0, p - position),
                ),
                Err(e) => u32_spec(buffer@.skip(position as int)) == Err::<(u32, int), ParseError>(e),
            },
    {
        match read_u32(buffer, position) {
            Ok((v, p)) => Ok((p, Xid(v))),
            Err(e) => Err(e),
        }
    }

    /// Renders the id in decimal.
    pub fn format(&self) -> (r: String)
        ensures
            r@ == digits(self.0 as nat, 10),
    {
        let mut cs: Vec<char> = Vec::new();
        push_digits(&mut cs, self.0 as u64, 10);
        let r = string_from_chars(&cs);
        assert(r@ =~= digits(self.0 as nat, 10));
        r
    }
}

} // verus!
