//! Row data: a count of columns, then each column as null, unchanged
//! TOAST, text or binary.
use vstd::prelude::*;
use vstd::slice::{slice_subrange, slice_to_vec};
use vstd::utf8::{decode_utf8, valid_utf8};

use crate::primitives::{be_uint, decoded, read_u16, read_u32, read_u8, utf8_string};
use crate::replication_protocol::ParseError;

verus! {

/// Kind byte of a null column, `n`.
pub const COLUMN_NULL: u8 = 0x6e;

/// Kind byte of an unchanged TOASTed column, `u`.
pub const COLUMN_UNCHANGED_TOAST: u8 = 0x75;

/// Kind byte of a text column, `t`.
pub const COLUMN_TEXT: u8 = 0x74;

/// Kind byte of a binary column, `b`.
pub const COLUMN_BINARY: u8 = 0x62;

/// One column of a row.
#[derive(Debug, PartialEq, Eq)]
pub enum ColumnValue {
    Null,
    /// A TOASTed value that did not change and was not sent.
    UnchangedToast,
    Text(String),
    Binary(Vec<u8>),
}

/// What a [`ColumnValue`] holds.
pub enum ColumnModel {
    Null,
    UnchangedToast,
    Text(Seq<char>),
    Binary(Seq<u8>),
}

impl DeepView for ColumnValue {
    type V = ColumnModel;

    open spec fn deep_view(&self) -> ColumnModel {
        match self {
            ColumnValue::Null => ColumnModel::Null,
            ColumnValue::UnchangedToast => ColumnModel::UnchangedToast,
            ColumnValue::Text(t) => ColumnModel::Text(t@),
            ColumnValue::Binary(b) => ColumnModel::Binary(b@),
        }
    }
}

/// One column: a kind byte; for `t` and `b` a 4-byte unsigned length and that
/// many bytes, UTF-8 text for `t`.
pub open spec fn column_spec(s: Seq<u8>) -> Result<(ColumnModel, int), ParseError> {
    if s.len() < 1 {
        Err(ParseError::Truncated)
    } else if s[0] == COLUMN_NULL {
        Ok((ColumnModel::Null, 1))
    } else if s[0] == COLUMN_UNCHANGED_TOAST {
        Ok((ColumnModel::UnchangedToast, 1))
    } else if s[0] != COLUMN_TEXT && s[0] != COLUMN_BINARY {
        Err(ParseError::UnknownColumnKind(s[0]))
    } else if s.len() < 5 {
        Err(ParseError::Truncated)
    } else {
        let len = be_uint(s.subrange(1, 5)) as int;
        if s.len() < 5 + len {
            Err(ParseError::Truncated)
        } else {
            let data = s.subrange(5, 5 + len);
            if s[0] == COLUMN_BINARY {
                Ok((ColumnModel::Binary(data), 5 + len))
            } else if valid_utf8(data) {
                Ok((ColumnModel::Text(decode_utf8(data)), 5 + len))
            } else {
                Err(ParseError::InvalidUtf8)
            }
        }
    }
}

/// `n` columns one after the other; the first error ends the row.
pub open spec fn columns_spec(s: Seq<u8>, n: nat) -> Result<(Seq<ColumnModel>, int), ParseError>
    decreases n,
{
    if n == 0 {
        Ok((seq![], 0))
    } else {
        match columns_spec(s, (n - 1) as nat) {
            Err(e) => Err(e),
            Ok((cs, k)) => match column_spec(s.skip(k)) {
                Err(e) => Err(e),
                Ok((c, m)) => Ok((cs.push(c), k + m)),
            },
        }
    }
}

/// A row: a 2-byte unsigned column count, then the columns.
pub open spec fn tuple_spec(s: Seq<u8>) -> Result<(Seq<ColumnModel>, int), ParseError> {
    if s.len() < 2 {
        Err(ParseError::Truncated)
    } else {
        match columns_spec(s.skip(2), be_uint(s.take(2))) {
            Err(e) => Err(e),
            Ok((cs, k)) => Ok((cs, 2 + k)),
        }
    }
}

/// Decodes the column at `pos`.
pub fn decode_column(buf: &[u8], pos: usize) -> (r: Result<(ColumnValue, usize), ParseError>)
    requires
        pos <= buf@.len(),
    ensures
        decoded(r, pos as int, column_spec(buf@.skip(pos as int))),
{
    let ghost s = buf@.skip(pos as int);
    let (kind, p) = read_u8(buf, pos)?;
    if kind == COLUMN_NULL {
        return Ok((ColumnValue::Null, p));
    }
    if kind == COLUMN_UNCHANGED_TOAST {
        return Ok((ColumnValue::UnchangedToast, p));
    }
    if kind != COLUMN_TEXT && kind != COLUMN_BINARY {
        return Err(ParseError::UnknownColumnKind(kind));
    }
    let (len, p) = read_u32(buf, p)?;
    assert(buf@.skip(pos + 1).take(4) =~= s.subrange(1, 5));
    proof {
        crate::primitives::lemma_be_uint_bound(s.subrange(1, 5));
        crate::primitives::lemma_byte_range_small(4);
    }
    let len = len as usize;
    if len > buf.len() - p {
        return Err(ParseError::Truncated);
    }
    let data = slice_subrange(buf, p, p + len);
    assert(data@ =~= s.subrange(5, 5 + len));
    if kind == COLUMN_BINARY {
        return Ok((ColumnValue::Binary(slice_to_vec(data)), p + len));
    }
    match utf8_string(data) {
        Some(t) => Ok((ColumnValue::Text(t), p + len)),
        None => Err(ParseError::InvalidUtf8),
    }
}

/// Decodes the row at `pos`.
pub fn decode_tuple_data(buf: &[u8], pos: usize) -> (r: Result<(Vec<ColumnValue>, usize), ParseError>)
    requires
        pos <= buf@.len(),
    ensures
        decoded(r, pos as int, tuple_spec(buf@.skip(pos as int))),
        r matches Ok((_, p)) ==> pos <= p <= buf@.len(),
{
    let ghost s = buf@.skip(pos as int);
    let (n, start) = read_u16(buf, pos)?;
    let ghost cs = s.skip(2);
    assert(cs =~= buf@.skip(start as int));
    proof {
        crate::primitives::lemma_be_uint_bound(s.take(2));
        crate::primitives::lemma_byte_range_small(2);
    }
    let mut columns: Vec<ColumnValue> = Vec::new();
    assert(columns.deep_view() =~= Seq::<ColumnModel>::empty());
    let mut p = start;
    let mut i: u16 = 0;
    while i < n
        invariant
            start <= p <= buf@.len(),
            i <= n,
            cs == buf@.skip(start as int),
            s == buf@.skip(pos as int),
            s.len() >= 2,
            cs == s.skip(2),
            n as nat == be_uint(s.take(2)),
            columns_spec(cs, i as nat) == Ok::<(Seq<ColumnModel>, int), ParseError>(
                (columns.deep_view(), p - start),
            ),
        decreases n - i,
    {
        assert(cs.skip(p - start) =~= buf@.skip(p as int));
        let (c, q) = match decode_column(buf, p) {
            Ok(x) => x,
            Err(e) => {
                assert(columns_spec(cs, (i + 1) as nat) == Err::<(Seq<ColumnModel>, int), ParseError>(e));
                assert(columns_spec(cs, n as nat) == Err::<(Seq<ColumnModel>, int), ParseError>(e)) by {
                    lemma_columns_error_sticks(cs, (i + 1) as nat, n as nat);
                }
                return Err(e);
            },
        };
        let ghost old_view = columns.deep_view();
        columns.push(c);
        assert(columns.deep_view() =~= old_view.push(c.deep_view()));
        p = q;
        i = i + 1;
    }
    Ok((columns, p))
}

/// Once a column fails, every longer run of columns fails the same way.
proof fn lemma_columns_error_sticks(s: Seq<u8>, i: nat, n: nat)
    requires
        i <= n,
        columns_spec(s, i) is Err,
    ensures
        columns_spec(s, n) == columns_spec(s, i),
    decreases n - i,
{
    if i < n {
        lemma_columns_error_sticks(s, i, (n - 1) as nat);
    }
}

} // verus!
