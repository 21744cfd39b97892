use cpr_ihex::file::IHexFile;
use cpr_ihex::file::IHexFileType;
use cpr_ihex::file::InvalidIHexRecordError;
use cpr_ihex::file::LineErrorCause;
use cpr_ihex::file::StartAddr;
use cpr_ihex::raw::IHexParseError;
use cpr_ihex::record::DataRecord;
use cpr_ihex::record::ExtendedLinearAddressRecord;
use cpr_ihex::record::ExtendedSegmentAddressRecord;
use cpr_ihex::record::IHexRecord;

fn lines(raw: &[&str]) -> Vec<String> {
    raw.iter().map(|s| s.to_string()).collect()
}

#[test]
fn end_to_end_three_line_file() {
    let file = IHexFile::read(&lines(&[
        ":020000040000FA", // extended linear address 0x0000
        ":020000000102FB", // data [0x01, 0x02] at offset 0
        ":00000001FF",     // end of file
    ]))
    .expect("file must parse");

    assert_eq!(file.filetype(), IHexFileType::IHex32);
    assert_eq!(file.data_bytes(), vec![0x01, 0x02]);
    assert!(file.start_address().is_none());
    assert_eq!(file.records.len(), 3);
}

#[test]
fn extended_linear_address_scopes_forward_only() {
    let file = IHexFile::read(&lines(&[
        ":0100200001DE",   // data [0x01] at offset 0x0020, before any base
        ":020000040010EA", // extended linear address 0x0010
        ":0100200001DE",   // data [0x01] at offset 0x0020, after the base
        ":00000001FF",
    ]))
    .expect("file must parse");

    let before = match &file.records[0] {
        IHexRecord::Data(d) => d,
        _ => panic!("expected a data record"),
    };
    let after = match &file.records[2] {
        IHexRecord::Data(d) => d,
        _ => panic!("expected a data record"),
    };

    assert_eq!(before.calc_effective_address(), 0x0020);
    assert_eq!(after.calc_effective_address(), 0x0010_0020);
}

#[test]
fn effective_address_combines_both_bases() {
    let rec = DataRecord {
        segment_address: Some(ExtendedSegmentAddressRecord { segment_base: 0x1000 << 4 }),
        linear_address: Some(ExtendedLinearAddressRecord { address_base: 0x0001 }),
        naive_address: 0x0002,
        data: vec![],
    };
    assert_eq!(rec.calc_effective_address(), 0x0001_0000 + 0x0001_0000 + 0x0002);
}

#[test]
fn filetype_upgrades_are_monotonic() {
    let plain = IHexFile::read(&lines(&[":020000000102FB", ":00000001FF"])).unwrap();
    assert_eq!(plain.filetype(), IHexFileType::IHex8);

    let segment = IHexFile::read(&lines(&[
        ":020000000102FB",
        ":020000021000EC", // extended segment address
        ":00000001FF",
    ]))
    .unwrap();
    assert_eq!(segment.filetype(), IHexFileType::IHex16);

    let linear = IHexFile::read(&lines(&[
        ":020000000102FB",
        ":020000021000EC",
        ":020000040010EA", // extended linear address
        ":00000001FF",
    ]))
    .unwrap();
    assert_eq!(linear.filetype(), IHexFileType::IHex32);

    // A later, narrower record never downgrades the classification.
    let linear_first = IHexFile::read(&lines(&[
        ":020000040010EA",
        ":020000021000EC",
        ":00000001FF",
    ]))
    .unwrap();
    assert_eq!(linear_first.filetype(), IHexFileType::IHex32);
}

#[test]
fn overlapping_write_is_order_dependent() {
    let file = IHexFile::read(&lines(&[
        ":02000000AAAAAA", // data [0xAA, 0xAA] at address 0
        ":01000000BB44",   // data [0xBB] at address 0, later in the stream
        ":00000001FF",
    ]))
    .expect("file must parse");

    assert_eq!(file.data_bytes(), vec![0xBB, 0xAA]);
}

#[test]
fn disjoint_records_round_trip_and_gaps_read_zero() {
    let file = IHexFile::read(&lines(&[
        ":020000001122CB", // data [0x11, 0x22] at address 0
        ":0100040033C8",   // data [0x33] at address 4
        ":00000001FF",
    ]))
    .expect("file must parse");

    let image = file.data_bytes();
    assert_eq!(image, vec![0x11, 0x22, 0x00, 0x00, 0x33]);
    assert_eq!(&image[0..2], &[0x11, 0x22]);
    assert_eq!(&image[4..5], &[0x33]);
    assert_eq!(&image[2..4], &[0x00, 0x00]);
}

#[test]
fn first_start_address_wins() {
    let file = IHexFile::read(&lines(&[
        ":0400000312345678E5", // start segment address CS=0x1234 IP=0x5678
        ":04000005000000CD2A", // start linear address 0xCD, later
        ":00000001FF",
    ]))
    .expect("file must parse");

    match file.start_address() {
        Some(StartAddr::Segment(s)) => {
            assert_eq!(s.code_segment, 0x1234);
            assert_eq!(s.instruction_pointer, 0x5678);
        }
        other => panic!("expected the first, segment start address, got {:?}", other),
    }

    // Both records still appear in the stream.
    assert!(matches!(file.records[0], IHexRecord::StartSegmentAddress(_)));
    assert!(matches!(file.records[1], IHexRecord::StartLinearAddress(_)));
}

#[test]
fn linear_start_address_is_recorded() {
    let file = IHexFile::read(&lines(&[":04000005000000CD2A", ":00000001FF"])).unwrap();
    assert_eq!(file.start_address(), Some(StartAddr::Linear(0xCD)));
}

#[test]
fn checksum_mismatch_aborts_with_line_number() {
    let err = IHexFile::read(&lines(&[
        ":00000001FF",
        ":0300300002337A1F", // checksum should be 0x1E
    ]))
    .expect_err("corrupt record must be refused");

    assert_eq!(err.line_number, 2);
    assert!(matches!(
        err.cause,
        LineErrorCause::Record(InvalidIHexRecordError::Checksum)
    ));
}

#[test]
fn unknown_record_type_is_refused() {
    let err = IHexFile::read(&lines(&[":00000006FA"])).expect_err("type 6 is unknown");
    assert_eq!(err.line_number, 1);
    assert!(matches!(
        err.cause,
        LineErrorCause::Record(InvalidIHexRecordError::RecordType)
    ));
}

#[test]
fn wrong_data_size_for_type_is_refused() {
    let err = IHexFile::read(&lines(&[":01000004AA51"])).expect_err(
        "an extended linear address record needs two data bytes",
    );
    assert_eq!(err.line_number, 1);
    assert!(matches!(
        err.cause,
        LineErrorCause::Record(InvalidIHexRecordError::InvalidDataSizeForType)
    ));
}

#[test]
fn decoder_errors_cover_the_whole_file_first() {
    // Line 1 only fails interpretation; line 2 fails decoding. The
    // decoder error is reported even though it comes later.
    let err = IHexFile::read(&lines(&[
        ":0300300002337A1F", // bad checksum
        ":00000001FG",       // not hex
    ]))
    .expect_err("file must be refused");

    assert_eq!(err.line_number, 2);
    assert!(matches!(
        err.cause,
        LineErrorCause::Parse(IHexParseError::NonHexString)
    ));
}

#[test]
fn whole_file_parse_is_atomic() {
    let err = IHexFile::read(&lines(&[
        ":020000000102FB",
        "garbage",
        ":00000001FF",
    ]))
    .expect_err("file must be refused");
    assert_eq!(err.line_number, 2);
    assert!(matches!(
        err.cause,
        LineErrorCause::Parse(IHexParseError::MissingStartCode)
    ));
}

#[test]
fn empty_file_parses_to_empty_image() {
    let file = IHexFile::read(&Vec::new()).expect("no lines, no errors");
    assert_eq!(file.records.len(), 0);
    assert_eq!(file.filetype(), IHexFileType::IHex8);
    assert!(file.start_address().is_none());
    assert_eq!(file.data_bytes(), Vec::<u8>::new());
}

#[test]
fn data_record_with_no_bytes_is_accepted() {
    // Byte count zero: 0x100 - 0 truncates to checksum 0x00.
    let file = IHexFile::read(&lines(&[":0000000000", ":00000001FF"])).unwrap();
    assert!(matches!(&file.records[0], IHexRecord::Data(d) if d.data.is_empty()));
    assert_eq!(file.data_bytes(), Vec::<u8>::new());
}

#[test]
fn segment_base_is_field_value_shifted_by_four() {
    let file = IHexFile::read(&lines(&[
        ":020000021000EC", // extended segment address, field 0x1000
        ":0100000044BB",   // data [0x44] at offset 0
        ":00000001FF",
    ]))
    .unwrap();

    match &file.records[0] {
        IHexRecord::ExtendedSegmentAddress(r) => assert_eq!(r.segment_base, 0x1000 << 4),
        other => panic!("expected an extended segment address record, got {:?}", other),
    }

    let data = match &file.records[1] {
        IHexRecord::Data(d) => d,
        other => panic!("expected a data record, got {:?}", other),
    };
    assert_eq!(data.calc_effective_address(), 0x0001_0000);

    let image = file.data_bytes();
    assert_eq!(image.len(), 0x0001_0001);
    assert_eq!(image[0x0001_0000], 0x44);
    assert_eq!(image[0], 0x00);
}
