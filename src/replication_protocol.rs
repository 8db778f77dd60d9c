//! Frames of the replication stream: the dispatch on a frame's leading byte,
//! keepalives, XLogData envelopes, and the standby status update a client
//! sends back.
use vstd::prelude::*;

use crate::logical::{decode_logical_message, message_spec, LogicalMessage, MessageModel};
use crate::pglsn::Lsn;
use crate::pgtime::Pgtime;
use crate::primitives::{
    be_bytes, be_uint, bits64, decoded_value, read_i64, read_u64, read_u8, signed64,
};

verus! {

/// Leading byte of an XLogData frame, `w`.
pub const XLOG_DATA_ID: u8 = 0x77;

/// Leading byte of a primary keepalive frame, `k`.
pub const PRIMARY_KEEPALIVE_ID: u8 = 0x6b;

/// Leading byte of a standby status update, `r`.
pub const STANDBY_STATUS_UPDATE_ID: u8 = 0x72;

/// Length of a keepalive frame.
pub const KEEPALIVE_LEN: usize = 18;

/// Length of a standby status update.
pub const STATUS_UPDATE_LEN: usize = 34;

/// Offset of the logical message in an XLogData frame.
pub const XLOG_DATA_HEADER_LEN: usize = 25;

/// Why a frame could not be decoded.
#[derive(Debug, Clone, Copy, PartialEq, Eq, Structural)]
pub enum ParseError {
    /// The frame holds no byte at all.
    EmptyFrame,
    /// A field reaches past the end of the buffer.
    Truncated,
    /// The leading byte of a frame names no known frame type.
    UnknownFrameType(u8),
    /// A fixed tag byte did not have an admissible value; the byte found is
    /// carried.
    MalformedMessage(u8),
    /// A text column or an identifier is not valid UTF-8.
    InvalidUtf8,
    /// A tuple column carries a kind byte other than `n`, `u`, `t`, `b`.
    UnknownColumnKind(u8),
}

/// An XLogData frame: the WAL range and send time of the message it carries.
#[derive(Debug, PartialEq, Eq)]
pub struct XLogData {
    pub start_lsn: Lsn,
    pub end_lsn: Lsn,
    pub server_time: Pgtime,
    pub body: LogicalMessage,
}

/// What an [`XLogData`] holds.
pub struct XLogDataModel {
    pub start_lsn: Lsn,
    pub end_lsn: Lsn,
    pub server_time: Pgtime,
    pub body: MessageModel,
}

impl DeepView for XLogData {
    type V = XLogDataModel;

    open spec fn deep_view(&self) -> XLogDataModel {
        XLogDataModel {
            start_lsn: self.start_lsn,
            end_lsn: self.end_lsn,
            server_time: self.server_time,
            body: self.body.deep_view(),
        }
    }
}

/// One frame of the replication stream.
#[derive(Debug, PartialEq, Eq)]
pub enum Frame {
    Keepalive { wal_end: Lsn, server_time: Pgtime, reply_requested: bool },
    XLogData(XLogData),
}

/// What a [`Frame`] holds.
pub enum FrameModel {
    Keepalive { wal_end: Lsn, server_time: Pgtime, reply_requested: bool },
    XLogData(XLogDataModel),
}

impl DeepView for Frame {
    type V = FrameModel;

    open spec fn deep_view(&self) -> FrameModel {
        match self {
            Frame::Keepalive { wal_end, server_time, reply_requested } => FrameModel::Keepalive {
                wal_end: *wal_end,
                server_time: *server_time,
                reply_requested: *reply_requested,
            },
            Frame::XLogData(x) => FrameModel::XLogData(x.deep_view()),
        }
    }
}

/// The LSN written big-endian at `s[i..i + 8]`.
pub open spec fn lsn_at(s: Seq<u8>, i: int) -> Lsn {
    Lsn(be_uint(s.subrange(i, i + 8)) as u64)
}

/// The timestamp written big-endian at `s[i..i + 8]`.
pub open spec fn time_at(s: Seq<u8>, i: int) -> Pgtime {
    Pgtime(signed64(be_uint(s.subrange(i, i + 8))))
}

/// A keepalive frame: tag, WAL end, server time, reply-requested flag
/// (any non-zero byte requests a reply); exactly 18 bytes.
pub open spec fn keepalive_spec(s: Seq<u8>) -> Result<(Lsn, Pgtime, bool), ParseError> {
    if s.len() < KEEPALIVE_LEN {
        Err(ParseError::Truncated)
    } else if s.len() > KEEPALIVE_LEN {
        Err(ParseError::MalformedMessage(s[0]))
    } else {
        Ok((lsn_at(s, 1), time_at(s, 9), s[17] != 0))
    }
}

/// An XLogData frame: tag, start LSN, end LSN, server time, then one
/// logical message; bytes after the message are not read.
pub open spec fn xlogdata_spec(s: Seq<u8>, streaming: bool) -> Result<XLogDataModel, ParseError> {
    if s.len() < XLOG_DATA_HEADER_LEN {
        Err(ParseError::Truncated)
    } else {
        match message_spec(s.skip(XLOG_DATA_HEADER_LEN as int), streaming) {
            Err(e) => Err(e),
            Ok((m, _)) => Ok(
                XLogDataModel {
                    start_lsn: lsn_at(s, 1),
                    end_lsn: lsn_at(s, 9),
                    server_time: time_at(s, 17),
                    body: m,
                },
            ),
        }
    }
}

/// A frame, by its leading byte.
pub open spec fn frame_spec(s: Seq<u8>, streaming: bool) -> Result<FrameModel, ParseError> {
    if s.len() == 0 {
        Err(ParseError::EmptyFrame)
    } else if s[0] == PRIMARY_KEEPALIVE_ID {
        match keepalive_spec(s) {
            Err(e) => Err(e),
            Ok((wal_end, server_time, reply_requested)) => Ok(
                FrameModel::Keepalive { wal_end, server_time, reply_requested },
            ),
        }
    } else if s[0] == XLOG_DATA_ID {
        match xlogdata_spec(s, streaming) {
            Err(e) => Err(e),
            Ok(x) => Ok(FrameModel::XLogData(x)),
        }
    } else {
        Err(ParseError::UnknownFrameType(s[0]))
    }
}

/// A frame led by `k` that is 18 bytes long decodes to a keepalive whose
/// fields are bytes 1-8, 9-16 and 17; one byte shorter, it is truncated.
pub proof fn lemma_keepalive_frame(s: Seq<u8>, streaming: bool)
    requires
        s.len() >= 1,
        s[0] == PRIMARY_KEEPALIVE_ID,
    ensures
        s.len() == 18 ==> frame_spec(s, streaming) == Ok::<FrameModel, ParseError>(
            FrameModel::Keepalive {
                wal_end: Lsn(be_uint(s.subrange(1, 9)) as u64),
                server_time: Pgtime(signed64(be_uint(s.subrange(9, 17)))),
                reply_requested: s[17] != 0,
            },
        ),
        s.len() == 17 ==> frame_spec(s, streaming) == Err::<FrameModel, ParseError>(
            ParseError::Truncated,
        ),
{
}

/// A frame whose leading byte is neither `k` nor `w` is reported as an
/// unknown frame type carrying that byte, whatever follows it.
pub proof fn lemma_unknown_frame(s: Seq<u8>, streaming: bool)
    requires
        s.len() >= 1,
        s[0] != PRIMARY_KEEPALIVE_ID,
        s[0] != XLOG_DATA_ID,
    ensures
        frame_spec(s, streaming) == Err::<FrameModel, ParseError>(ParseError::UnknownFrameType(s[0])),
{
}

/// Decodes a keepalive frame, whose leading byte is not looked at: the WAL
/// end, the server's time, and whether the server asks for a reply.
pub fn parse_keepalive(buffer: &[u8]) -> (r: Result<(Lsn, Pgtime, bool), ParseError>)
    ensures
        r == keepalive_spec(buffer@),
{
    if buffer.len() < KEEPALIVE_LEN {
        return Err(ParseError::Truncated);
    }
    if buffer.len() > KEEPALIVE_LEN {
        return Err(ParseError::MalformedMessage(buffer[0]));
    }
    let (wal_end, p) = read_u64(buffer, 1)?;
    let (time, p) = read_i64(buffer, p)?;
    let (flag, _) = read_u8(buffer, p)?;
    assert(buffer@.skip(1).take(8) =~= buffer@.subrange(1, 9));
    assert(buffer@.skip(9).take(8) =~= buffer@.subrange(9, 17));
    Ok((Lsn(wal_end), Pgtime(time), flag != 0))
}

/// Decodes an XLogData frame, whose leading byte is not looked at.
/// `streaming` tells whether streaming of in-progress transactions was
/// negotiated.
pub fn parse_xlogdata(buffer: &[u8], streaming: bool) -> (r: Result<XLogData, ParseError>)
    ensures
        decoded_value(r, xlogdata_spec(buffer@, streaming)),
{
    if buffer.len() < XLOG_DATA_HEADER_LEN {
        return Err(ParseError::Truncated);
    }
    let (start_lsn, p) = read_u64(buffer, 1)?;
    let (end_lsn, p) = read_u64(buffer, p)?;
    let (time, p) = read_i64(buffer, p)?;
    assert(buffer@.skip(1).take(8) =~= buffer@.subrange(1, 9));
    assert(buffer@.skip(9).take(8) =~= buffer@.subrange(9, 17));
    assert(buffer@.skip(17).take(8) =~= buffer@.subrange(17, 25));
    let (body, _) = decode_logical_message(buffer, p, streaming)?;
    Ok(
        XLogData {
            start_lsn: Lsn(start_lsn),
            end_lsn: Lsn(end_lsn),
            server_time: Pgtime(time),
            body,
        },
    )
}

/// Decodes one frame of the replication stream by its leading byte: `k` a
/// keepalive, `w` an XLogData frame. Any other leading byte gives
/// `UnknownFrameType`, which a caller may skip.
pub fn decode_frame(buffer: &[u8], streaming: bool) -> (r: Result<Frame, ParseError>)
    ensures
        decoded_value(r, frame_spec(buffer@, streaming)),
        buffer@.len() >= 1 && buffer@[0] != PRIMARY_KEEPALIVE_ID && buffer@[0] != XLOG_DATA_ID
            ==> r == Err::<Frame, ParseError>(ParseError::UnknownFrameType(buffer@[0])),
{
    if buffer.len() == 0 {
        return Err(ParseError::EmptyFrame);
    }
    let tag = buffer[0];
    if tag == PRIMARY_KEEPALIVE_ID {
        let (wal_end, server_time, reply_requested) = parse_keepalive(buffer)?;
        Ok(Frame::Keepalive { wal_end, server_time, reply_requested })
    } else if tag == XLOG_DATA_ID {
        let x = parse_xlogdata(buffer, streaming)?;
        Ok(Frame::XLogData(x))
    } else {
        Err(ParseError::UnknownFrameType(tag))
    }
}

/// The reply a standby sends: how far it has written, flushed and applied
/// the WAL, its clock, and whether it asks the server for an immediate
/// keepalive.
#[derive(Debug, Clone, Copy, PartialEq, Eq, Structural)]
pub struct StatusUpdate {
    pub write_lsn: Lsn,
    pub flush_lsn: Lsn,
    pub apply_lsn: Lsn,
    pub client_time: Pgtime,
    pub reply_requested: bool,
}

/// The 34 bytes of a status update: `r`, the three LSNs and the client time
/// big-endian, then 1 if a reply is requested, else 0.
pub open spec fn status_update_bytes(u: StatusUpdate) -> Seq<u8> {
    seq![STANDBY_STATUS_UPDATE_ID] + be_bytes(u.write_lsn.0 as nat, 8) + be_bytes(
        u.flush_lsn.0 as nat,
        8,
    ) + be_bytes(u.apply_lsn.0 as nat, 8) + be_bytes(bits64(u.client_time.0), 8) + seq![
        if u.reply_requested {
            1u8
        } else {
            0u8
        },
    ]
}

/// Reading a status update: exactly 34 bytes with the leading `r`.
pub open spec fn status_update_spec(s: Seq<u8>) -> Result<StatusUpdate, ParseError> {
    if s.len() < STATUS_UPDATE_LEN {
        Err(ParseError::Truncated)
    } else if s.len() > STATUS_UPDATE_LEN || s[0] != STANDBY_STATUS_UPDATE_ID {
        Err(ParseError::MalformedMessage(s[0]))
    } else {
        Ok(
            StatusUpdate {
                write_lsn: lsn_at(s, 1),
                flush_lsn: lsn_at(s, 9),
                apply_lsn: lsn_at(s, 17),
                client_time: time_at(s, 25),
                reply_requested: s[33] != 0,
            },
        )
    }
}

/// Appends the `n` low-order bytes of `v`, most significant first.
fn push_be(out: &mut Vec<u8>, v: u64, n: usize)
    ensures
        final(out)@ == old(out)@ + be_bytes(v as nat, n as nat),
    decreases n,
{
    let ghost start = out@;
    if n > 0 {
        push_be(out, v / 256, n - 1);
        out.push((v % 256) as u8);
    }
    assert(out@ =~= start + be_bytes(v as nat, n as nat));
}

/// The 64-bit two's complement pattern of `t`.
fn time_bits(t: i64) -> (r: u64)
    ensures
        r as nat == bits64(t),
{
    if t >= 0 {
        t as u64
    } else {
        ((t + 1 + 0x7fff_ffff_ffff_ffff) as u64) + 0x8000_0000_0000_0000
    }
}

/// Encodes a standby status update.
pub fn encode_status_update(reply: &StatusUpdate) -> (r: [u8; 34])
    ensures
        r@ == status_update_bytes(*reply),
{
    let mut v: Vec<u8> = Vec::new();
    v.push(STANDBY_STATUS_UPDATE_ID);
    push_be(&mut v, reply.write_lsn.0, 8);
    push_be(&mut v, reply.flush_lsn.0, 8);
    push_be(&mut v, reply.apply_lsn.0, 8);
    push_be(&mut v, time_bits(reply.client_time.0), 8);
    v.push(
        if reply.reply_requested {
            1
        } else {
            0
        },
    );
    assert(v@ =~= status_update_bytes(*reply));
    proof {
        lemma_be_bytes_len(reply.write_lsn.0 as nat, 8);
        lemma_be_bytes_len(reply.flush_lsn.0 as nat, 8);
        lemma_be_bytes_len(reply.apply_lsn.0 as nat, 8);
        lemma_be_bytes_len(bits64(reply.client_time.0), 8);
    }
    let mut out: [u8; 34] = [0u8; 34];
    let mut i: usize = 0;
    while i < STATUS_UPDATE_LEN
        invariant
            v@.len() == 34,
            out@.len() == 34,
            i <= 34,
            forall|j: int| 0 <= j < i ==> out@[j] == v@[j],
        decreases 34 - i,
    {
        out[i] = v[i];
        i = i + 1;
    }
    assert(out@ =~= v@);
    out
}

/// Decodes a standby status update.
pub fn decode_status_update(buffer: &[u8]) -> (r: Result<StatusUpdate, ParseError>)
    ensures
        r == status_update_spec(buffer@),
{
    if buffer.len() < STATUS_UPDATE_LEN {
        return Err(ParseError::Truncated);
    }
    if buffer.len() > STATUS_UPDATE_LEN || buffer[0] != STANDBY_STATUS_UPDATE_ID {
        return Err(ParseError::MalformedMessage(buffer[0]));
    }
    let (write_lsn, p) = read_u64(buffer, 1)?;
    let (flush_lsn, p) = read_u64(buffer, p)?;
    let (apply_lsn, p) = read_u64(buffer, p)?;
    let (time, p) = read_i64(buffer, p)?;
    let (flag, _) = read_u8(buffer, p)?;
    assert(buffer@.skip(1).take(8) =~= buffer@.subrange(1, 9));
    assert(buffer@.skip(9).take(8) =~= buffer@.subrange(9, 17));
    assert(buffer@.skip(17).take(8) =~= buffer@.subrange(17, 25));
    assert(buffer@.skip(25).take(8) =~= buffer@.subrange(25, 33));
    Ok(
        StatusUpdate {
            write_lsn: Lsn(write_lsn),
            flush_lsn: Lsn(flush_lsn),
            apply_lsn: Lsn(apply_lsn),
            client_time: Pgtime(time),
            reply_requested: flag != 0,
        },
    )
}

/// Builds the status update that answers the server now: the given write,
/// flush and apply positions, the wall-clock time, and the reply flag.
/// `None` where the clock reads an instant that does not fit a timestamp.
pub fn create_keepalive(write_lsn: Lsn, flush_lsn: Lsn, apply_lsn: Lsn, reply_requested: bool) -> (r:
    Option<[u8; 34]>)
    ensures
        r matches Some(bytes) ==> exists|t: Pgtime|
            bytes@ == status_update_bytes(
                StatusUpdate { write_lsn, flush_lsn, apply_lsn, client_time: t, reply_requested },
            ),
{
    match Pgtime::now() {
        Some(client_time) => {
            let reply = StatusUpdate {
                write_lsn,
                flush_lsn,
                apply_lsn,
                client_time,
                reply_requested,
            };
            Some(encode_status_update(&reply))
        },
        None => None,
    }
}

/// Decoding an encoded status update gives back the same update.
pub proof fn lemma_status_update_round_trip(u: StatusUpdate)
    ensures
        status_update_spec(status_update_bytes(u)) == Ok::<StatusUpdate, ParseError>(u),
{
    let s = status_update_bytes(u);
    let w = be_bytes(u.write_lsn.0 as nat, 8);
    let f = be_bytes(u.flush_lsn.0 as nat, 8);
    let a = be_bytes(u.apply_lsn.0 as nat, 8);
    let t = be_bytes(bits64(u.client_time.0), 8);
    lemma_be_bytes_len(u.write_lsn.0 as nat, 8);
    lemma_be_bytes_len(u.flush_lsn.0 as nat, 8);
    lemma_be_bytes_len(u.apply_lsn.0 as nat, 8);
    lemma_be_bytes_len(bits64(u.client_time.0), 8);
    assert(s.subrange(1, 9) =~= w);
    assert(s.subrange(9, 17) =~= f);
    assert(s.subrange(17, 25) =~= a);
    assert(s.subrange(25, 33) =~= t);
    crate::primitives::lemma_byte_range_small(8);
    crate::primitives::lemma_be_uint_be_bytes(u.write_lsn.0 as nat, 8);
    crate::primitives::lemma_be_uint_be_bytes(u.flush_lsn.0 as nat, 8);
    crate::primitives::lemma_be_uint_be_bytes(u.apply_lsn.0 as nat, 8);
    crate::primitives::lemma_be_uint_be_bytes(bits64(u.client_time.0), 8);
}

pub proof fn lemma_be_bytes_len(v: nat, n: nat)
    ensures
        be_bytes(v, n).len() == n,
    decreases n,
{
    if n > 0 {
        lemma_be_bytes_len(v / 256, (n - 1) as nat);
    }
}

} // verus!
