use pg2parquet::pglsn::Lsn;
use pg2parquet::pgtime::{Pgtime, TimeRangeError, MAX_UNIX_MICROS, MIN_UNIX_MICROS, TIME_ADJUST};
use pg2parquet::pgxid::Xid;
use pg2parquet::primitives::{read_cstring, read_i32, read_i64, read_u16, read_u32, read_u64};
use pg2parquet::replication_protocol::ParseError;

#[test]
fn lsn_zero() {
    let bytes: [u8; 8] = [0, 0, 0, 0, 0, 0, 0, 0];
    let lsn = Lsn::from_be_bytes(bytes);
    assert_eq!(lsn.format(), "0/0");
}

#[test]
fn lsn_halves_in_upper_hex() {
    let lsn = Lsn::from_be_bytes([0, 0, 0, 0x1a, 0xab, 0xcd, 0x00, 0x0f]);
    assert_eq!(lsn.0, 0x1a_abcd_000f);
    assert_eq!(lsn.format(), "1A/ABCD000F");
    assert_eq!(Lsn(u64::MAX).format(), "FFFFFFFF/FFFFFFFF");
    assert_eq!(Lsn(0x1_0000_0000).format(), "1/0");
}

#[test]
fn lsn_from_buffer_reads_at_position() {
    let buf = [9u8, 0, 0, 0, 0, 0, 0, 0x01, 0x02, 7];
    assert_eq!(Lsn::from_buffer(&buf, 1), Ok((9, Lsn(0x0102))));
    assert_eq!(Lsn::from_buffer(&buf, 3), Err(ParseError::Truncated));
}

#[test]
fn xid_decimal() {
    let xid = Xid::from_be_bytes([0, 0, 1, 0]);
    assert_eq!(xid, Xid(256));
    assert_eq!(xid.format(), "256");
    assert_eq!(Xid(0).format(), "0");
    assert_eq!(Xid(u32::MAX).format(), "4294967295");
    assert_eq!(Xid::from_buffer(&[0, 0, 0, 0, 5], 1), Ok((5, Xid(5))));
    assert_eq!(Xid::from_buffer(&[0, 0, 0], 0), Err(ParseError::Truncated));
}

#[test]
fn pg_epoch() {
    let bytes: [u8; 8] = [0, 0, 0, 0, 0, 0, 0, 0];
    let pgtime = Pgtime::from_be_bytes(bytes);
    assert_eq!(pgtime.format(), Ok("2000-01-01 00:00:00.000000".to_string()));
}

#[test]
fn pgtime_negative_and_fraction() {
    let t = Pgtime::from_be_bytes([0xff; 8]);
    assert_eq!(t, Pgtime(-1));
    assert_eq!(t.format(), Ok("1999-12-31 23:59:59.999999".to_string()));
    assert_eq!(
        Pgtime(86_400_000_000 + 1_500_000).format(),
        Ok("2000-01-02 00:00:01.500000".to_string())
    );
}

#[test]
fn pgtime_out_of_range() {
    assert_eq!(Pgtime(i64::MAX).format(), Err(TimeRangeError(i64::MAX)));
    assert_eq!(Pgtime(i64::MIN).format(), Err(TimeRangeError(i64::MIN)));
}

#[test]
fn pgtime_epoch_offset() {
    assert_eq!(TIME_ADJUST, 946_684_800_000_000);
    assert_eq!(Pgtime::from_unix_micros(TIME_ADJUST), Some(Pgtime(0)));
    assert_eq!(Pgtime::from_unix_micros(0), Some(Pgtime(-946_684_800_000_000)));
    assert_eq!(Pgtime::from_unix_micros(i64::MIN), None);
    let now = Pgtime::now().expect("clock in range");
    assert!(now.0 > 0);
}

#[test]
fn fixed_width_readers() {
    let buf = [0x12u8, 0x34, 0x56, 0x78, 0x9a, 0xbc, 0xde, 0xf0, 0xff];
    assert_eq!(read_u16(&buf, 0), Ok((0x1234, 2)));
    assert_eq!(read_u32(&buf, 1), Ok((0x3456_789a, 5)));
    assert_eq!(read_u64(&buf, 0), Ok((0x1234_5678_9abc_def0, 8)));
    assert_eq!(read_i32(&buf, 5), Ok((-0x4321_0f01, 9)));
    assert_eq!(read_i64(&[0xff; 8], 0), Ok((-1, 8)));
    assert_eq!(read_u64(&buf, 2), Err(ParseError::Truncated));
    assert_eq!(read_u16(&buf, 9), Err(ParseError::Truncated));
}

#[test]
fn cstring_reader() {
    let buf = b"ab\0\xc3\xa9\0x";
    assert_eq!(read_cstring(buf, 0), Ok(("ab".to_string(), 3)));
    assert_eq!(read_cstring(buf, 3), Ok(("é".to_string(), 6)));
    assert_eq!(read_cstring(buf, 6), Err(ParseError::Truncated));
    assert_eq!(read_cstring(b"\xff\0", 0), Err(ParseError::InvalidUtf8));
    assert_eq!(read_cstring(b"\0", 0), Ok((String::new(), 1)));
}

#[test]
fn lsn_orders_as_unsigned() {
    assert!(Lsn(1) < Lsn(0x8000_0000_0000_0000));
    assert!(Lsn(u64::MAX) > Lsn(0));
}

#[test]
fn pgtime_unix_epoch_plus_one_micro() {
    assert_eq!(
        Pgtime(-946_684_799_999_999).format(),
        Ok("1970-01-01 00:00:00.000001".to_string())
    );
}

#[test]
fn pgtime_range_bounds() {
    let last = Pgtime(MAX_UNIX_MICROS - TIME_ADJUST);
    assert_eq!(last.format(), Ok("+262142-12-31 23:59:59.999999".to_string()));
    assert!(Pgtime(last.0 + 1).format().is_err());
    let first = Pgtime(MIN_UNIX_MICROS - TIME_ADJUST);
    assert!(first.format().is_ok());
    assert_eq!(Pgtime(first.0 - 1).format(), Err(TimeRangeError(first.0 - 1)));
}
