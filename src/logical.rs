//! The logical replication messages carried in an XLogData frame: each is a
//! tag byte and a body whose layout the tag selects.
use vstd::prelude::*;

use crate::pglsn::Lsn;
use crate::pgtime::Pgtime;
use crate::pgxid::Xid;
use crate::primitives::{
    be_uint, cstring_spec, decoded, read_cstring, read_i32, read_i64, read_u16, read_u32,
    read_u64, read_u8, signed32, signed64,
};
use crate::replication_protocol::ParseError;
use crate::tuple::{decode_tuple_data, tuple_spec, ColumnModel, ColumnValue};

verus! {

pub const LOGICAL_REP_MSG_BEGIN: u8 = 0x42;  // 'B'

pub const LOGICAL_REP_MSG_COMMIT: u8 = 0x43;  // 'C'

pub const LOGICAL_REP_MSG_ORIGIN: u8 = 0x4f;  // 'O'

pub const LOGICAL_REP_MSG_INSERT: u8 = 0x49;  // 'I'

pub const LOGICAL_REP_MSG_UPDATE: u8 = 0x55;  // 'U'

pub const LOGICAL_REP_MSG_DELETE: u8 = 0x44;  // 'D'

pub const LOGICAL_REP_MSG_TRUNCATE: u8 = 0x54;  // 'T'

pub const LOGICAL_REP_MSG_RELATION: u8 = 0x52;  // 'R'

pub const LOGICAL_REP_MSG_TYPE: u8 = 0x59;  // 'Y'

pub const LOGICAL_REP_MSG_MESSAGE: u8 = 0x4d;  // 'M'

/// Marks the new row of an Insert or Update, `N`.
pub const TUPLE_NEW: u8 = 0x4e;

/// Marks an old row given by its replica identity key, `K`.
pub const TUPLE_KEY: u8 = 0x4b;

/// Marks an old row given in full, `O`.
pub const TUPLE_OLD: u8 = 0x4f;

/// A column of a relation, as a Relation message describes it.
#[derive(Debug, PartialEq, Eq)]
pub struct ColumnDef {
    /// Bit 0 set: the column is part of the replica identity key.
    pub flags: u8,
    pub name: String,
    pub type_oid: i32,
    pub type_modifier: i32,
}

/// What a [`ColumnDef`] holds.
pub struct ColumnDefModel {
    pub flags: u8,
    pub name: Seq<char>,
    pub type_oid: i32,
    pub type_modifier: i32,
}

impl DeepView for ColumnDef {
    type V = ColumnDefModel;

    open spec fn deep_view(&self) -> ColumnDefModel {
        ColumnDefModel {
            flags: self.flags,
            name: self.name@,
            type_oid: self.type_oid,
            type_modifier: self.type_modifier,
        }
    }
}

/// A decoded logical replication message. Commit, Origin, Type, Message and
/// Truncate are recognised without their bodies being read; the streaming and
/// two-phase commit messages, and any tag not known here, are `Unsupported`.
#[derive(Debug, PartialEq, Eq)]
pub enum LogicalMessage {
    Begin { final_lsn: Lsn, transaction_start: Pgtime, xid: Xid },
    Commit,
    Origin,
    Relation {
        oid: u32,
        namespace: String,
        name: String,
        replica_identity: u8,
        columns: Vec<ColumnDef>,
    },
    Type,
    Message,
    Insert { xid: Option<Xid>, relation_oid: u32, new_tuple: Vec<ColumnValue> },
    Update {
        xid: Option<Xid>,
        relation_oid: u32,
        old_tuple: Option<Vec<ColumnValue>>,
        old_tuple_kind: Option<u8>,
        new_tuple: Vec<ColumnValue>,
    },
    Delete { xid: Option<Xid>, relation_oid: u32, old_tuple: Vec<ColumnValue>, old_tuple_kind: u8 },
    Truncate,
    Unsupported { tag: u8 },
}

/// What a [`LogicalMessage`] holds.
pub enum MessageModel {
    Begin { final_lsn: Lsn, transaction_start: Pgtime, xid: Xid },
    Commit,
    Origin,
    Relation {
        oid: u32,
        namespace: Seq<char>,
        name: Seq<char>,
        replica_identity: u8,
        columns: Seq<ColumnDefModel>,
    },
    Type,
    Message,
    Insert { xid: Option<Xid>, relation_oid: u32, new_tuple: Seq<ColumnModel> },
    Update {
        xid: Option<Xid>,
        relation_oid: u32,
        old_tuple: Option<Seq<ColumnModel>>,
        old_tuple_kind: Option<u8>,
        new_tuple: Seq<ColumnModel>,
    },
    Delete {
        xid: Option<Xid>,
        relation_oid: u32,
        old_tuple: Seq<ColumnModel>,
        old_tuple_kind: u8,
    },
    Truncate,
    Unsupported { tag: u8 },
}

impl DeepView for LogicalMessage {
    type V = MessageModel;

    open spec fn deep_view(&self) -> MessageModel {
        match self {
            LogicalMessage::Begin { final_lsn, transaction_start, xid } => MessageModel::Begin {
                final_lsn: *final_lsn,
                transaction_start: *transaction_start,
                xid: *xid,
            },
            LogicalMessage::Commit => MessageModel::Commit,
            LogicalMessage::Origin => MessageModel::Origin,
            LogicalMessage::Relation { oid, namespace, name, replica_identity, columns } =>
                MessageModel::Relation {
                oid: *oid,
                namespace: namespace@,
                name: name@,
                replica_identity: *replica_identity,
                columns: columns.deep_view(),
            },
            LogicalMessage::Type => MessageModel::Type,
            LogicalMessage::Message => MessageModel::Message,
            LogicalMessage::Insert { xid, relation_oid, new_tuple } => MessageModel::Insert {
                xid: *xid,
                relation_oid: *relation_oid,
                new_tuple: new_tuple.deep_view(),
            },
            LogicalMessage::Update { xid, relation_oid, old_tuple, old_tuple_kind, new_tuple } =>
                MessageModel::Update {
                xid: *xid,
                relation_oid: *relation_oid,
                old_tuple: match old_tuple {
                    Some(t) => Some(t.deep_view()),
                    None => None,
                },
                old_tuple_kind: *old_tuple_kind,
                new_tuple: new_tuple.deep_view(),
            },
            LogicalMessage::Delete { xid, relation_oid, old_tuple, old_tuple_kind } =>
                MessageModel::Delete {
                xid: *xid,
                relation_oid: *relation_oid,
                old_tuple: old_tuple.deep_view(),
                old_tuple_kind: *old_tuple_kind,
            },
            LogicalMessage::Truncate => MessageModel::Truncate,
            LogicalMessage::Unsupported { tag } => MessageModel::Unsupported { tag: *tag },
        }
    }
}

/// Bytes taken by the transaction id that leads a message body when
/// streaming of in-progress transactions was negotiated.
pub open spec fn xid_width(streaming: bool) -> int {
    if streaming {
        4
    } else {
        0
    }
}

/// The leading transaction id of body `b`, present only when streaming.
pub open spec fn leading_xid(b: Seq<u8>, streaming: bool) -> Option<Xid> {
    if streaming {
        Some(Xid(be_uint(b.take(4)) as u32))
    } else {
        None
    }
}

/// The big-endian `u32` at offset `i` of `s`.
pub open spec fn u32_at(s: Seq<u8>, i: int) -> u32 {
    be_uint(s.subrange(i, i + 4)) as u32
}

/// The big-endian `i32` at offset `i` of `s`.
pub open spec fn i32_at(s: Seq<u8>, i: int) -> i32 {
    signed32(be_uint(s.subrange(i, i + 4)))
}

/// Begin body: final LSN, commit time, transaction id.
pub open spec fn begin_spec(b: Seq<u8>) -> Result<(MessageModel, int), ParseError> {
    if b.len() < 20 {
        Err(ParseError::Truncated)
    } else {
        Ok(
            (
                MessageModel::Begin {
                    final_lsn: Lsn(be_uint(b.take(8)) as u64),
                    transaction_start: Pgtime(signed64(be_uint(b.subrange(8, 16)))),
                    xid: Xid(u32_at(b, 16)),
                },
                20,
            ),
        )
    }
}

/// A column of a Relation body: flags, name, type oid, type modifier.
pub open spec fn column_def_spec(s: Seq<u8>) -> Result<(ColumnDefModel, int), ParseError> {
    if s.len() < 1 {
        Err(ParseError::Truncated)
    } else {
        match cstring_spec(s.skip(1)) {
            Err(e) => Err(e),
            Ok((name, k)) => {
                let p = 1 + k;
                if s.len() < p + 8 {
                    Err(ParseError::Truncated)
                } else {
                    Ok(
                        (
                            ColumnDefModel {
                                flags: s[0],
                                name,
                                type_oid: i32_at(s, p),
                                type_modifier: i32_at(s, p + 4),
                            },
                            p + 8,
                        ),
                    )
                }
            },
        }
    }
}

/// `n` column descriptions one after the other.
pub open spec fn column_defs_spec(s: Seq<u8>, n: nat) -> Result<
    (Seq<ColumnDefModel>, int),
    ParseError,
>
    decreases n,
{
    if n == 0 {
        Ok((seq![], 0))
    } else {
        match column_defs_spec(s, (n - 1) as nat) {
            Err(e) => Err(e),
            Ok((cs, k)) => match column_def_spec(s.skip(k)) {
                Err(e) => Err(e),
                Ok((c, m)) => Ok((cs.push(c), k + m)),
            },
        }
    }
}

/// Relation body: [xid], oid, namespace, name, replica identity setting,
/// 2-byte column count, columns.
pub open spec fn relation_spec(b: Seq<u8>, streaming: bool) -> Result<
    (MessageModel, int),
    ParseError,
> {
    let x = xid_width(streaming);
    if b.len() < x + 4 {
        Err(ParseError::Truncated)
    } else {
        match cstring_spec(b.skip(x + 4)) {
            Err(e) => Err(e),
            Ok((namespace, k1)) => {
                let p1 = x + 4 + k1;
                match cstring_spec(b.skip(p1)) {
                    Err(e) => Err(e),
                    Ok((name, k2)) => {
                        let p2 = p1 + k2;
                        if b.len() < p2 + 3 {
                            Err(ParseError::Truncated)
                        } else {
                            match column_defs_spec(
                                b.skip(p2 + 3),
                                be_uint(b.subrange(p2 + 1, p2 + 3)),
                            ) {
                                Err(e) => Err(e),
                                Ok((columns, k3)) => Ok(
                                    (
                                        MessageModel::Relation {
                                            oid: u32_at(b, x),
                                            namespace,
                                            name,
                                            replica_identity: b[p2],
                                            columns,
                                        },
                                        p2 + 3 + k3,
                                    ),
                                ),
                            }
                        }
                    },
                }
            },
        }
    }
}

/// Insert body: [xid], relation oid, `N`, new row.
pub open spec fn insert_spec(b: Seq<u8>, streaming: bool) -> Result<(MessageModel, int), ParseError> {
    let x = xid_width(streaming);
    if b.len() < x + 5 {
        Err(ParseError::Truncated)
    } else if b[x + 4] != TUPLE_NEW {
        Err(ParseError::MalformedMessage(b[x + 4]))
    } else {
        match tuple_spec(b.skip(x + 5)) {
            Err(e) => Err(e),
            Ok((t, k)) => Ok(
                (
                    MessageModel::Insert {
                        xid: leading_xid(b, streaming),
                        relation_oid: u32_at(b, x),
                        new_tuple: t,
                    },
                    x + 5 + k,
                ),
            ),
        }
    }
}

/// Update body: [xid], relation oid, then either `N` and the new row, or
/// `K`/`O`, the old row, `N` and the new row.
pub open spec fn update_spec(b: Seq<u8>, streaming: bool) -> Result<(MessageModel, int), ParseError> {
    let x = xid_width(streaming);
    if b.len() < x + 5 {
        Err(ParseError::Truncated)
    } else {
        let tag = b[x + 4];
        if tag == TUPLE_NEW {
            match tuple_spec(b.skip(x + 5)) {
                Err(e) => Err(e),
                Ok((t, k)) => Ok(
                    (
                        MessageModel::Update {
                            xid: leading_xid(b, streaming),
                            relation_oid: u32_at(b, x),
                            old_tuple: None,
                            old_tuple_kind: None,
                            new_tuple: t,
                        },
                        x + 5 + k,
                    ),
                ),
            }
        } else if tag == TUPLE_KEY || tag == TUPLE_OLD {
            match tuple_spec(b.skip(x + 5)) {
                Err(e) => Err(e),
                Ok((old, k)) => {
                    let p = x + 5 + k;
                    if b.len() < p + 1 {
                        Err(ParseError::Truncated)
                    } else if b[p] != TUPLE_NEW {
                        Err(ParseError::MalformedMessage(b[p]))
                    } else {
                        match tuple_spec(b.skip(p + 1)) {
                            Err(e) => Err(e),
                            Ok((new, k2)) => Ok(
                                (
                                    MessageModel::Update {
                                        xid: leading_xid(b, streaming),
                                        relation_oid: u32_at(b, x),
                                        old_tuple: Some(old),
                                        old_tuple_kind: Some(tag),
                                        new_tuple: new,
                                    },
                                    p + 1 + k2,
                                ),
                            ),
                        }
                    }
                },
            }
        } else {
            Err(ParseError::MalformedMessage(tag))
        }
    }
}

/// Delete body: [xid], relation oid, `K`/`O`, old row.
pub open spec fn delete_spec(b: Seq<u8>, streaming: bool) -> Result<(MessageModel, int), ParseError> {
    let x = xid_width(streaming);
    if b.len() < x + 5 {
        Err(ParseError::Truncated)
    } else {
        let tag = b[x + 4];
        if tag != TUPLE_KEY && tag != TUPLE_OLD {
            Err(ParseError::MalformedMessage(tag))
        } else {
            match tuple_spec(b.skip(x + 5)) {
                Err(e) => Err(e),
                Ok((t, k)) => Ok(
                    (
                        MessageModel::Delete {
                            xid: leading_xid(b, streaming),
                            relation_oid: u32_at(b, x),
                            old_tuple: t,
                            old_tuple_kind: tag,
                        },
                        x + 5 + k,
                    ),
                ),
            }
        }
    }
}

/// The body of a message with tag `tag`, and the bytes it takes.
pub open spec fn body_spec(tag: u8, b: Seq<u8>, streaming: bool) -> Result<
    (MessageModel, int),
    ParseError,
> {
    if tag == LOGICAL_REP_MSG_BEGIN {
        begin_spec(b)
    } else if tag == LOGICAL_REP_MSG_RELATION {
        relation_spec(b, streaming)
    } else if tag == LOGICAL_REP_MSG_INSERT {
        insert_spec(b, streaming)
    } else if tag == LOGICAL_REP_MSG_UPDATE {
        update_spec(b, streaming)
    } else if tag == LOGICAL_REP_MSG_DELETE {
        delete_spec(b, streaming)
    } else if tag == LOGICAL_REP_MSG_COMMIT {
        Ok((MessageModel::Commit, 0))
    } else if tag == LOGICAL_REP_MSG_ORIGIN {
        Ok((MessageModel::Origin, 0))
    } else if tag == LOGICAL_REP_MSG_TYPE {
        Ok((MessageModel::Type, 0))
    } else if tag == LOGICAL_REP_MSG_MESSAGE {
        Ok((MessageModel::Message, 0))
    } else if tag == LOGICAL_REP_MSG_TRUNCATE {
        Ok((MessageModel::Truncate, 0))
    } else {
        Ok((MessageModel::Unsupported { tag }, 0))
    }
}

/// A message: its tag byte, then its body.
pub open spec fn message_spec(s: Seq<u8>, streaming: bool) -> Result<(MessageModel, int), ParseError> {
    if s.len() < 1 {
        Err(ParseError::Truncated)
    } else {
        match body_spec(s[0], s.skip(1), streaming) {
            Err(e) => Err(e),
            Ok((m, k)) => Ok((m, k + 1)),
        }
    }
}

/// Without streaming, an Insert message is its tag, the relation oid, the
/// `N` tag and the new row, and decoding takes exactly those bytes; with
/// streaming, the same body behind a four-byte transaction id decodes to the
/// same relation oid and row, carrying that id, and takes four bytes more.
pub proof fn lemma_insert_streaming(body: Seq<u8>, xid: Seq<u8>)
    requires
        xid.len() == 4,
        message_spec(seq![LOGICAL_REP_MSG_INSERT] + body, false) is Ok,
    ensures
        tuple_spec(body.skip(5)) is Ok,
        ({
            let (t, k) = tuple_spec(body.skip(5))->Ok_0;
            &&& message_spec(seq![LOGICAL_REP_MSG_INSERT] + body, false) == Ok::<
                (MessageModel, int),
                ParseError,
            >((MessageModel::Insert { xid: None, relation_oid: u32_at(body, 0), new_tuple: t }, 1 + 4 + 1 + k))
            &&& message_spec(seq![LOGICAL_REP_MSG_INSERT] + xid + body, true) == Ok::<
                (MessageModel, int),
                ParseError,
            >(
                (
                    MessageModel::Insert {
                        xid: Some(Xid(be_uint(xid) as u32)),
                        relation_oid: u32_at(body, 0),
                        new_tuple: t,
                    },
                    4 + 1 + 4 + 1 + k,
                ),
            )
        }),
{
    let s1 = seq![LOGICAL_REP_MSG_INSERT] + body;
    let s2 = seq![LOGICAL_REP_MSG_INSERT] + xid + body;
    let b2 = xid + body;
    assert(s1.skip(1) =~= body);
    assert(s2.skip(1) =~= b2);
    assert(b2.skip(9) =~= body.skip(5));
    assert(b2.take(4) =~= xid);
    assert(b2.subrange(4, 8) =~= body.subrange(0, 4));
    assert(b2[8] == body[4]);
}

/// Decodes a Begin body at `pos`.
fn decode_begin(buf: &[u8], pos: usize) -> (r: Result<(LogicalMessage, usize), ParseError>)
    requires
        pos <= buf@.len(),
    ensures
        decoded(r, pos as int, begin_spec(buf@.skip(pos as int))),
{
    let ghost b = buf@.skip(pos as int);
    let (final_lsn, p) = read_u64(buf, pos)?;
    let (time, p) = read_i64(buf, p)?;
    let (xid, p) = read_u32(buf, p)?;
    assert(buf@.skip(pos + 8).take(8) =~= b.subrange(8, 16));
    assert(buf@.skip(pos + 16).take(4) =~= b.subrange(16, 20));
    Ok(
        (
            LogicalMessage::Begin {
                final_lsn: Lsn(final_lsn),
                transaction_start: Pgtime(time),
                xid: Xid(xid),
            },
            p,
        ),
    )
}

/// Decodes a column description of a Relation body at `pos`.
fn decode_column_def(buf: &[u8], pos: usize) -> (r: Result<(ColumnDef, usize), ParseError>)
    requires
        pos <= buf@.len(),
    ensures
        decoded(r, pos as int, column_def_spec(buf@.skip(pos as int))),
{
    let ghost s = buf@.skip(pos as int);
    let (flags, p) = read_u8(buf, pos)?;
    assert(s.skip(1) =~= buf@.skip(p as int));
    let (name, p) = read_cstring(buf, p)?;
    let (type_oid, p) = read_i32(buf, p)?;
    let (type_modifier, p) = read_i32(buf, p)?;
    assert(buf@.skip(p - 8).take(4) =~= s.subrange(p - 8 - pos, p - 4 - pos));
    assert(buf@.skip(p - 4).take(4) =~= s.subrange(p - 4 - pos, p - pos));
    Ok((ColumnDef { flags, name, type_oid, type_modifier }, p))
}

/// Once a column description fails, every longer run fails the same way.
proof fn lemma_column_defs_error_sticks(s: Seq<u8>, i: nat, n: nat)
    requires
        i <= n,
        column_defs_spec(s, i) is Err,
    ensures
        column_defs_spec(s, n) == column_defs_spec(s, i),
    decreases n - i,
{
    if i < n {
        lemma_column_defs_error_sticks(s, i, (n - 1) as nat);
    }
}

/// Decodes `n` column descriptions at `pos`.
fn decode_column_defs(buf: &[u8], pos: usize, n: u16) -> (r: Result<
    (Vec<ColumnDef>, usize),
    ParseError,
>)
    requires
        pos <= buf@.len(),
    ensures
        decoded(r, pos as int, column_defs_spec(buf@.skip(pos as int), n as nat)),
{
    let ghost s = buf@.skip(pos as int);
    let mut columns: Vec<ColumnDef> = Vec::new();
    assert(columns.deep_view() =~= Seq::<ColumnDefModel>::empty());
    let mut p = pos;
    let mut i: u16 = 0;
    while i < n
        invariant
            pos <= p <= buf@.len(),
            i <= n,
            s == buf@.skip(pos as int),
            column_defs_spec(s, i as nat) == Ok::<(Seq<ColumnDefModel>, int), ParseError>(
                (columns.deep_view(), p - pos),
            ),
        decreases n - i,
    {
        assert(s.skip(p - pos) =~= buf@.skip(p as int));
        let (c, q) = match decode_column_def(buf, p) {
            Ok(x) => x,
            Err(e) => {
                proof {
                    lemma_column_defs_error_sticks(s, (i + 1) as nat, n as nat);
                }
                return Err(e);
            },
        };
        let ghost old_view = columns.deep_view();
        columns.push(c);
        assert(columns.deep_view() =~= old_view.push(c.deep_view()));
        p = q;
        i = i + 1;
    }
    Ok((columns, p))
}

/// Reads the leading transaction id when streaming; gives it and the
/// position after it.
fn decode_leading_xid(buf: &[u8], pos: usize, streaming: bool) -> (r: Result<
    (Option<Xid>, usize),
    ParseError,
>)
    requires
        pos <= buf@.len(),
    ensures
        match r {
            Ok((x, p)) => {
                &&& buf@.len() - pos >= xid_width(streaming)
                &&& x == leading_xid(buf@.skip(pos as int), streaming)
                &&& p == pos + xid_width(streaming)
            },
            Err(e) => buf@.len() - pos < xid_width(streaming) && e == ParseError::Truncated,
        },
{
    if streaming {
        let (x, p) = read_u32(buf, pos)?;
        Ok((Some(Xid(x)), p))
    } else {
        Ok((None, pos))
    }
}

/// Decodes a Relation body at `pos`.
fn decode_relation(buf: &[u8], pos: usize, streaming: bool) -> (r: Result<
    (LogicalMessage, usize),
    ParseError,
>)
    requires
        pos <= buf@.len(),
    ensures
        decoded(r, pos as int, relation_spec(buf@.skip(pos as int), streaming)),
{
    let ghost b = buf@.skip(pos as int);
    let ghost x = xid_width(streaming);
    let (_xid, p) = decode_leading_xid(buf, pos, streaming)?;
    let (oid, p) = read_u32(buf, p)?;
    assert(buf@.skip(pos + x).take(4) =~= b.subrange(x, x + 4));
    assert(b.skip(x + 4) =~= buf@.skip(p as int));
    let (namespace, p) = read_cstring(buf, p)?;
    assert(b.skip(p - pos) =~= buf@.skip(p as int));
    let (name, p) = read_cstring(buf, p)?;
    let ghost p2 = p - pos;
    let (replica_identity, p) = read_u8(buf, p)?;
    let (ncols, p) = read_u16(buf, p)?;
    assert(buf@.skip(pos + p2 + 1).take(2) =~= b.subrange(p2 + 1, p2 + 3));
    proof {
        crate::primitives::lemma_be_uint_bound(b.subrange(p2 + 1, p2 + 3));
        crate::primitives::lemma_byte_range_small(2);
    }
    assert(b.skip(p2 + 3) =~= buf@.skip(p as int));
    let (columns, p) = decode_column_defs(buf, p, ncols)?;
    Ok((LogicalMessage::Relation { oid, namespace, name, replica_identity, columns }, p))
}

/// Reads the head shared by Insert, Update and Delete bodies: the leading
/// transaction id when streaming, the relation oid and the tag byte after it.
fn decode_dml_head(buf: &[u8], pos: usize, streaming: bool) -> (r: Result<
    (Option<Xid>, u32, u8, usize),
    ParseError,
>)
    requires
        pos <= buf@.len(),
    ensures
        match r {
            Ok((x, oid, tag, p)) => {
                let b = buf@.skip(pos as int);
                let w = xid_width(streaming);
                &&& b.len() >= w + 5
                &&& x == leading_xid(b, streaming)
                &&& oid == u32_at(b, w)
                &&& tag == b[w + 4]
                &&& p == pos + w + 5
            },
            Err(e) => buf@.len() - pos < xid_width(streaming) + 5 && e == ParseError::Truncated,
        },
{
    let ghost b = buf@.skip(pos as int);
    let ghost w = xid_width(streaming);
    let (xid, p) = decode_leading_xid(buf, pos, streaming)?;
    let (oid, p) = read_u32(buf, p)?;
    assert(buf@.skip(pos + w).take(4) =~= b.subrange(w, w + 4));
    let (tag, p) = read_u8(buf, p)?;
    Ok((xid, oid, tag, p))
}

/// Decodes an Insert body at `pos`.
fn decode_insert(buf: &[u8], pos: usize, streaming: bool) -> (r: Result<
    (LogicalMessage, usize),
    ParseError,
>)
    requires
        pos <= buf@.len(),
    ensures
        decoded(r, pos as int, insert_spec(buf@.skip(pos as int), streaming)),
{
    let ghost b = buf@.skip(pos as int);
    let (xid, relation_oid, tag, p) = decode_dml_head(buf, pos, streaming)?;
    if tag != TUPLE_NEW {
        return Err(ParseError::MalformedMessage(tag));
    }
    assert(b.skip(p - pos) =~= buf@.skip(p as int));
    let (new_tuple, p) = decode_tuple_data(buf, p)?;
    Ok((LogicalMessage::Insert { xid, relation_oid, new_tuple }, p))
}

/// Decodes an Update body at `pos`.
fn decode_update(buf: &[u8], pos: usize, streaming: bool) -> (r: Result<
    (LogicalMessage, usize),
    ParseError,
>)
    requires
        pos <= buf@.len(),
    ensures
        decoded(r, pos as int, update_spec(buf@.skip(pos as int), streaming)),
{
    let ghost b = buf@.skip(pos as int);
    let (xid, relation_oid, tag, p) = decode_dml_head(buf, pos, streaming)?;
    assert(b.skip(p - pos) =~= buf@.skip(p as int));
    if tag == TUPLE_NEW {
        let (new_tuple, p) = decode_tuple_data(buf, p)?;
        return Ok(
            (
                LogicalMessage::Update {
                    xid,
                    relation_oid,
                    old_tuple: None,
                    old_tuple_kind: None,
                    new_tuple,
                },
                p,
            ),
        );
    }
    if tag != TUPLE_KEY && tag != TUPLE_OLD {
        return Err(ParseError::MalformedMessage(tag));
    }
    let (old_tuple, p) = decode_tuple_data(buf, p)?;
    assert(b.skip(p - pos) =~= buf@.skip(p as int));
    let (next, p) = read_u8(buf, p)?;
    if next != TUPLE_NEW {
        return Err(ParseError::MalformedMessage(next));
    }
    assert(b.skip(p - pos) =~= buf@.skip(p as int));
    let (new_tuple, p) = decode_tuple_data(buf, p)?;
    Ok(
        (
            LogicalMessage::Update {
                xid,
                relation_oid,
                old_tuple: Some(old_tuple),
                old_tuple_kind: Some(tag),
                new_tuple,
            },
            p,
        ),
    )
}

/// Decodes a Delete body at `pos`.
fn decode_delete(buf: &[u8], pos: usize, streaming: bool) -> (r: Result<
    (LogicalMessage, usize),
    ParseError,
>)
    requires
        pos <= buf@.len(),
    ensures
        decoded(r, pos as int, delete_spec(buf@.skip(pos as int), streaming)),
{
    let ghost b = buf@.skip(pos as int);
    let (xid, relation_oid, tag, p) = decode_dml_head(buf, pos, streaming)?;
    if tag != TUPLE_KEY && tag != TUPLE_OLD {
        return Err(ParseError::MalformedMessage(tag));
    }
    assert(b.skip(p - pos) =~= buf@.skip(p as int));
    let (old_tuple, p) = decode_tuple_data(buf, p)?;
    Ok((LogicalMessage::Delete { xid, relation_oid, old_tuple, old_tuple_kind: tag }, p))
}

/// Decodes the logical replication message at `pos`: its tag byte, then the
/// body that the tag selects. `streaming` tells whether the connection
/// negotiated streaming of in-progress transactions, which puts a
/// transaction id in front of Relation, Insert, Update and Delete bodies.
/// Gives the message and the position after it.
pub fn decode_logical_message(buf: &[u8], pos: usize, streaming: bool) -> (r: Result<
    (LogicalMessage, usize),
    ParseError,
>)
    requires
        pos <= buf@.len(),
    ensures
        decoded(r, pos as int, message_spec(buf@.skip(pos as int), streaming)),
{
    let ghost s = buf@.skip(pos as int);
    let (tag, p) = read_u8(buf, pos)?;
    assert(s.skip(1) =~= buf@.skip(p as int));
    let body = if tag == LOGICAL_REP_MSG_BEGIN {
        decode_begin(buf, p)
    } else if tag == LOGICAL_REP_MSG_RELATION {
        decode_relation(buf, p, streaming)
    } else if tag == LOGICAL_REP_MSG_INSERT {
        decode_insert(buf, p, streaming)
    } else if tag == LOGICAL_REP_MSG_UPDATE {
        decode_update(buf, p, streaming)
    } else if tag == LOGICAL_REP_MSG_DELETE {
        decode_delete(buf, p, streaming)
    } else if tag == LOGICAL_REP_MSG_COMMIT {
        Ok((LogicalMessage::Commit, p))
    } else if tag == LOGICAL_REP_MSG_ORIGIN {
        Ok((LogicalMessage::Origin, p))
    } else if tag == LOGICAL_REP_MSG_TYPE {
        Ok((LogicalMessage::Type, p))
    } else if tag == LOGICAL_REP_MSG_MESSAGE {
        Ok((LogicalMessage::Message, p))
    } else if tag == LOGICAL_REP_MSG_TRUNCATE {
        Ok((LogicalMessage::Truncate, p))
    } else {
        Ok((LogicalMessage::Unsupported { tag }, p))
    };
    assert(decoded(body, p as int, body_spec(tag, s.skip(1), streaming)));
    body
}

} // verus!
