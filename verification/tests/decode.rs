use cpr_ihex::raw::IHexParseError;
use cpr_ihex::raw::RawIHexRecord;
use cpr_ihex::raw::parse_ihex;

#[test]
fn checksum_test_vector_parses() {
    let rec = parse_ihex(":0300300002337A1E").expect("vector line must parse");
    assert_eq!(rec.reclen, 3);
    assert_eq!(rec.load_offset, 0x0030);
    assert_eq!(rec.rectyp, 0);
    assert_eq!(rec.data, vec![0x02, 0x33, 0x7A]);
    assert_eq!(rec.checksum, 0x1E);
    assert!(rec.checksum_valid());
}

#[test]
fn generate_checksum_matches_stored() {
    let rec = RawIHexRecord {
        reclen: 3,
        load_offset: 0x0030,
        rectyp: 0,
        data: vec![0x02, 0x33, 0x7A],
        checksum: 0x1E,
    };
    assert_eq!(rec.generate_checksum(), 0x1E);
    assert!(rec.checksum_valid());
}

#[test]
fn checksum_valid_iff_recomputed_equals_stored() {
    let corrupted = RawIHexRecord {
        reclen: 3,
        load_offset: 0x0030,
        rectyp: 0,
        data: vec![0x02, 0x33, 0x7A],
        checksum: 0x1F,
    };
    assert_eq!(corrupted.generate_checksum(), 0x1E);
    assert!(!corrupted.checksum_valid());
}

#[test]
fn checksum_recomputation_is_idempotent() {
    let rec = RawIHexRecord {
        reclen: 2,
        load_offset: 0xFFFF,
        rectyp: 0,
        data: vec![0xAA, 0xBB],
        checksum: 0x00,
    };
    let first = rec.generate_checksum();
    let second = rec.generate_checksum();
    assert_eq!(first, second);
}

#[test]
fn empty_record_checksum() {
    // The end-of-file record: 00 + 0000 + 01 sums to 1, negated 0xFF.
    let rec = RawIHexRecord {
        reclen: 0,
        load_offset: 0,
        rectyp: 1,
        data: vec![],
        checksum: 0xFF,
    };
    assert_eq!(rec.generate_checksum(), 0xFF);
    assert!(rec.checksum_valid());
}

#[test]
fn non_hex_line_fails_with_hex_error() {
    assert!(matches!(
        parse_ihex(":00000001FG"),
        Err(IHexParseError::NonHexString)
    ));
}

#[test]
fn bare_marker_fails_with_truncation() {
    assert!(matches!(
        parse_ihex(":"),
        Err(IHexParseError::RecordTooShort)
    ));
}

#[test]
fn missing_marker_is_rejected() {
    assert!(matches!(
        parse_ihex("0300300002337A1E"),
        Err(IHexParseError::MissingStartCode)
    ));
}

#[test]
fn empty_line_is_rejected() {
    assert!(matches!(
        parse_ihex(""),
        Err(IHexParseError::MissingStartCode)
    ));
}

#[test]
fn non_ascii_line_is_rejected() {
    assert!(matches!(
        parse_ihex(":02000004é"),
        Err(IHexParseError::NonAsciiString)
    ));
}

#[test]
fn odd_digit_count_is_non_hex() {
    assert!(matches!(
        parse_ihex(":0300300002337A1"),
        Err(IHexParseError::NonHexString)
    ));
}

#[test]
fn byte_count_mismatch_is_rejected() {
    // One data byte present but the byte count claims two.
    assert!(matches!(
        parse_ihex(":0200000001FB"),
        Err(IHexParseError::IncorrectDataSize)
    ));
}

#[test]
fn four_byte_line_is_too_short() {
    assert!(matches!(
        parse_ihex(":00000001"),
        Err(IHexParseError::RecordTooShort)
    ));
}
