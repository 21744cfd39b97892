//! The record interpreter and file assembler: raw records become typed
//! records under the running address-base state, and the ordered typed
//! record stream is folded into the file's type, its start address and
//! the flat memory image.

use vstd::pervasive::VecAdditionalExecFns;
use vstd::prelude::*;

use crate::raw::parse_ihex;
use crate::raw::spec_checksum;
use crate::raw::spec_decode_err;
use crate::raw::spec_decode_ok;
use crate::raw::spec_raw_of;
use crate::raw::IHexParseError;
use crate::raw::RawIHexRecord;
use crate::raw::RawRecordView;
use crate::record::spec_effective_address;
use crate::record::DataRecord;
use crate::record::ExtendedLinearAddressRecord;
use crate::record::ExtendedSegmentAddressRecord;
use crate::record::IHexRecord;
use crate::record::StartLinearAddressRecord;
use crate::record::StartSegmentAddressRecord;

verus! {

/// The running address-base state of one parse: the extended segment
/// and extended linear address records seen most recently, if any.
struct BaseAddrs {
    segment: Option<ExtendedSegmentAddressRecord>,
    linear: Option<ExtendedLinearAddressRecord>,
}

/// The segment form of a start address: initial CS and IP.
#[derive(Debug, Clone, Copy, PartialEq, Eq, Structural)]
pub struct SegmentStartAddr {
    pub code_segment: u16,
    pub instruction_pointer: u16,
}

/// The single start address a file may carry, in either its segment or
/// its linear form.
#[derive(Debug, Clone, Copy, PartialEq, Eq, Structural)]
pub enum StartAddr {
    Segment(SegmentStartAddr),
    Linear(u32),
}

/// The address-width classification of a file: the widest addressing
/// any of its records implies.
#[derive(Debug, Clone, Copy, PartialEq, Eq, Structural, PartialOrd, Ord)]
pub enum IHexFileType {
    IHex8,
    IHex16,
    IHex32,
}

/// A fully parsed Intel HEX file: the typed record stream together
/// with the file type and start address derived from it.
#[derive(Debug)]
pub struct IHexFile {
    pub records: Vec<IHexRecord>,
    pub filetype: IHexFileType,
    pub start_address: Option<StartAddr>,
}

/// What can go wrong while interpreting one raw record.
#[derive(Debug, Clone, Copy, PartialEq, Eq, Structural)]
pub enum InvalidIHexRecordError {
    Checksum,
    RecordType,
    InvalidDataSizeForType,
}

/// Why one line of a file was refused: either the line decoder or the
/// record interpreter rejected it.
#[derive(Debug, Clone, Copy, PartialEq, Eq, Structural)]
pub enum LineErrorCause {
    Parse(IHexParseError),
    Record(InvalidIHexRecordError),
}

/// A whole-file parse fails atomically with the 1-based number of the
/// offending line and the cause.
#[derive(Debug, Clone, Copy, PartialEq, Eq, Structural)]
pub struct LineError {
    pub line_number: usize,
    pub cause: LineErrorCause,
}

/// The big-endian 16-bit value of a two-byte sequence.
pub open spec fn spec_u16_be(s: Seq<u8>) -> int {
    s[0] * 256 + s[1]
}

/// The big-endian 32-bit value of a four-byte sequence.
pub open spec fn spec_u32_be(s: Seq<u8>) -> int {
    s[0] * 0x1000000 + s[1] * 0x10000 + s[2] * 0x100 + s[3]
}

/// A raw record the interpreter accepts: the stored checksum agrees
/// with the recomputed one, the record type is known, and the data
/// length fits the type.
pub open spec fn spec_interp_ok(rv: RawRecordView) -> bool {
    &&& spec_checksum(rv) == rv.checksum
    &&& if rv.rectyp == 0 || rv.rectyp == 1 {
        true
    } else if rv.rectyp == 2 || rv.rectyp == 4 {
        rv.data.len() == 2
    } else if rv.rectyp == 3 || rv.rectyp == 5 {
        rv.data.len() == 4
    } else {
        false
    }
}

/// The error a refused raw record is reported with; meaningful only
/// when `spec_interp_ok` does not hold. A corrupt checksum is reported
/// before anything else.
pub open spec fn spec_interp_err(rv: RawRecordView) -> InvalidIHexRecordError {
    if spec_checksum(rv) != rv.checksum {
        InvalidIHexRecordError::Checksum
    } else if rv.rectyp > 5 {
        InvalidIHexRecordError::RecordType
    } else {
        InvalidIHexRecordError::InvalidDataSizeForType
    }
}

/// The typed record a raw record interprets into, under the given
/// address-base snapshots. Data records capture both snapshots by
/// value; extended address records carry their decoded base.
pub open spec fn spec_record_of(
    rv: RawRecordView,
    seg: Option<ExtendedSegmentAddressRecord>,
    lin: Option<ExtendedLinearAddressRecord>,
    rec: IHexRecord,
) -> bool {
    if rv.rectyp == 0 {
        &&& rec matches IHexRecord::Data(d)
        &&& d.segment_address == seg
        &&& d.linear_address == lin
        &&& d.naive_address == rv.load_offset
        &&& d.data@ == rv.data
    } else if rv.rectyp == 1 {
        rec matches IHexRecord::EndOfFile
    } else if rv.rectyp == 2 {
        &&& rec matches IHexRecord::ExtendedSegmentAddress(r)
        &&& r.segment_base as int == spec_u16_be(rv.data) * 16
    } else if rv.rectyp == 3 {
        &&& rec matches IHexRecord::StartSegmentAddress(r)
        &&& r.code_segment as int == spec_u16_be(rv.data.subrange(0, 2))
        &&& r.instruction_pointer as int == spec_u16_be(rv.data.subrange(2, 4))
    } else if rv.rectyp == 4 {
        &&& rec matches IHexRecord::ExtendedLinearAddress(r)
        &&& r.address_base as int == spec_u16_be(rv.data)
    } else if rv.rectyp == 5 {
        &&& rec matches IHexRecord::StartLinearAddress(r)
        &&& r.entry_point as int == spec_u32_be(rv.data)
    } else {
        false
    }
}

/// The segment base snapshot in force just before the `k`-th record:
/// the base decoded from the latest earlier extended segment address
/// record, if any.
pub open spec fn spec_seg_at(rvs: Seq<RawRecordView>, k: int) -> Option<
    ExtendedSegmentAddressRecord,
>
    decreases k,
{
    if k <= 0 {
        None
    } else if rvs[k - 1].rectyp == 2 {
        Some(
            ExtendedSegmentAddressRecord {
                segment_base: (spec_u16_be(rvs[k - 1].data) * 16) as usize,
            },
        )
    } else {
        spec_seg_at(rvs, k - 1)
    }
}

/// The linear base snapshot in force just before the `k`-th record.
pub open spec fn spec_lin_at(rvs: Seq<RawRecordView>, k: int) -> Option<
    ExtendedLinearAddressRecord,
>
    decreases k,
{
    if k <= 0 {
        None
    } else if rvs[k - 1].rectyp == 4 {
        Some(ExtendedLinearAddressRecord { address_base: spec_u16_be(rvs[k - 1].data) as u16 })
    } else {
        spec_lin_at(rvs, k - 1)
    }
}

/// How one raw record updates the file-level start address: the first
/// start record of either kind wins, and later ones never replace it.
pub open spec fn spec_start_update(prev: Option<StartAddr>, rv: RawRecordView) -> Option<
    StartAddr,
> {
    if prev is Some {
        prev
    } else if rv.rectyp == 3 {
        Some(
            StartAddr::Segment(
                SegmentStartAddr {
                    code_segment: spec_u16_be(rv.data.subrange(0, 2)) as u16,
                    instruction_pointer: spec_u16_be(rv.data.subrange(2, 4)) as u16,
                },
            ),
        )
    } else if rv.rectyp == 5 {
        Some(StartAddr::Linear(spec_u32_be(rv.data) as u32))
    } else {
        None
    }
}

/// A base snapshot is a function of the records before it alone:
/// whatever stands at or after position `k` in the stream, the
/// snapshot in force there never changes. This is why snapshots are
/// captured into data records by value: later records cannot
/// retroactively alter them.
pub proof fn lemma_base_snapshot_depends_on_prefix(
    rvs1: Seq<RawRecordView>,
    rvs2: Seq<RawRecordView>,
    k: int,
)
    requires
        0 <= k,
        forall|i: int| 0 <= i < k ==> rvs1[i] == rvs2[i],
    ensures
        spec_seg_at(rvs1, k) == spec_seg_at(rvs2, k),
        spec_lin_at(rvs1, k) == spec_lin_at(rvs2, k),
    decreases k,
{
    if k > 0 {
        lemma_base_snapshot_depends_on_prefix(rvs1, rvs2, k - 1);
    }
}

/// The start address derived from a typed record stream: that of the
/// first start segment or start linear record, if any.
pub open spec fn spec_start_address(records: Seq<IHexRecord>) -> Option<StartAddr>
    decreases records.len(),
{
    if records.len() == 0 {
        None
    } else {
        let prev = spec_start_address(records.drop_last());
        if prev is Some {
            prev
        } else {
            match records.last() {
                IHexRecord::StartSegmentAddress(r) => Some(
                    StartAddr::Segment(
                        SegmentStartAddr {
                            code_segment: r.code_segment,
                            instruction_pointer: r.instruction_pointer,
                        },
                    ),
                ),
                IHexRecord::StartLinearAddress(r) => Some(StartAddr::Linear(r.entry_point)),
                _ => None,
            }
        }
    }
}

impl IHexFile {
    /// Validates one raw record, interprets it into a typed record
    /// under the current base state, appends it, and applies its side
    /// effects: extended address records replace the matching base
    /// snapshot, and the first start record of either kind fixes the
    /// file's start address.
    fn parse_and_append(
        records: &mut Vec<IHexRecord>,
        value: RawIHexRecord,
        bases: &mut BaseAddrs,
        start_addr: &mut Option<StartAddr>,
    ) -> (r: Result<(), InvalidIHexRecordError>)
        ensures
            r matches Ok(()) <==> spec_interp_ok(value@),
            spec_interp_ok(value@) ==> {
                &&& final(records)@.len() == old(records)@.len() + 1
                &&& final(records)@.drop_last() == old(records)@
                &&& spec_record_of(
                    value@,
                    old(bases).segment,
                    old(bases).linear,
                    final(records)@.last(),
                )
                &&& final(bases).segment == (if value@.rectyp == 2 {
                    Some(
                        ExtendedSegmentAddressRecord {
                            segment_base: (spec_u16_be(value@.data) * 16) as usize,
                        },
                    )
                } else {
                    old(bases).segment
                })
                &&& final(bases).linear == (if value@.rectyp == 4 {
                    Some(
                        ExtendedLinearAddressRecord {
                            address_base: spec_u16_be(value@.data) as u16,
                        },
                    )
                } else {
                    old(bases).linear
                })
                &&& *final(start_addr) == spec_start_update(*old(start_addr), value@)
            },
            !spec_interp_ok(value@) ==> {
                &&& r == Err::<(), InvalidIHexRecordError>(spec_interp_err(value@))
                &&& final(records)@ == old(records)@
                &&& final(bases).segment == old(bases).segment
                &&& final(bases).linear == old(bases).linear
                &&& *final(start_addr) == *old(start_addr)
            },
    {
        if !value.checksum_valid() {
            return Err(InvalidIHexRecordError::Checksum);
        }

        let rec = if value.rectyp == 0 {
            IHexRecord::Data(
                DataRecord {
                    segment_address: bases.segment,
                    linear_address: bases.linear,
                    naive_address: value.load_offset,
                    data: value.data,
                },
            )
        } else if value.rectyp == 1 {
            IHexRecord::EndOfFile
        } else if value.rectyp == 2 {
            if value.data.len() != 2 {
                return Err(InvalidIHexRecordError::InvalidDataSizeForType);
            }
            let segment_base = crate::raw::u16_from_be(value.data[0], value.data[1]);
            IHexRecord::ExtendedSegmentAddress(
                ExtendedSegmentAddressRecord { segment_base: (segment_base as usize) * 16 },
            )
        } else if value.rectyp == 3 {
            if value.data.len() != 4 {
                return Err(InvalidIHexRecordError::InvalidDataSizeForType);
            }
            let code_segment = crate::raw::u16_from_be(value.data[0], value.data[1]);
            let instruction_pointer = crate::raw::u16_from_be(value.data[2], value.data[3]);

            if start_addr.is_none() {
                *start_addr = Some(
                    StartAddr::Segment(SegmentStartAddr { code_segment, instruction_pointer }),
                );
            }

            IHexRecord::StartSegmentAddress(
                StartSegmentAddressRecord { code_segment, instruction_pointer },
            )
        } else if value.rectyp == 4 {
            if value.data.len() != 2 {
                return Err(InvalidIHexRecordError::InvalidDataSizeForType);
            }
            let address_base = crate::raw::u16_from_be(value.data[0], value.data[1]);
            IHexRecord::ExtendedLinearAddress(ExtendedLinearAddressRecord { address_base })
        } else if value.rectyp == 5 {
            if value.data.len() != 4 {
                return Err(InvalidIHexRecordError::InvalidDataSizeForType);
            }
            let entry_point = crate::raw::u32_from_be(
                value.data[0],
                value.data[1],
                value.data[2],
                value.data[3],
            );

            if start_addr.is_none() {
                *start_addr = Some(StartAddr::Linear(entry_point));
            }

            IHexRecord::StartLinearAddress(StartLinearAddressRecord { entry_point })
        } else {
            return Err(InvalidIHexRecordError::RecordType);
        };

        match &rec {
            IHexRecord::ExtendedSegmentAddress(addr) => {
                bases.segment = Some(*addr);
            },
            IHexRecord::ExtendedLinearAddress(addr) => {
                bases.linear = Some(*addr);
            },
            _ => {},
        }

        records.push(rec);

        Ok(())
    }
}

/// The width, in bits, a file type stands for.
pub open spec fn spec_width(t: IHexFileType) -> int {
    match t {
        IHexFileType::IHex8 => 8,
        IHexFileType::IHex16 => 16,
        IHexFileType::IHex32 => 32,
    }
}

/// The address width one record implies: segment records need 16-bit
/// addressing, linear records 32-bit, anything else 8-bit.
pub open spec fn spec_record_filetype(rec: IHexRecord) -> IHexFileType {
    match rec {
        IHexRecord::ExtendedSegmentAddress(_) => IHexFileType::IHex16,
        IHexRecord::StartSegmentAddress(_) => IHexFileType::IHex16,
        IHexRecord::ExtendedLinearAddress(_) => IHexFileType::IHex32,
        IHexRecord::StartLinearAddress(_) => IHexFileType::IHex32,
        _ => IHexFileType::IHex8,
    }
}

/// The wider of two file types.
pub open spec fn spec_filetype_max(a: IHexFileType, b: IHexFileType) -> IHexFileType {
    if spec_width(b) > spec_width(a) {
        b
    } else {
        a
    }
}

/// The file type a record stream implies: the running maximum of the
/// widths its records imply, starting at 8-bit.
pub open spec fn spec_filetype(records: Seq<IHexRecord>) -> IHexFileType
    decreases records.len(),
{
    if records.len() == 0 {
        IHexFileType::IHex8
    } else {
        spec_filetype_max(
            spec_filetype(records.drop_last()),
            spec_record_filetype(records.last()),
        )
    }
}

/// The file type can only widen as records are appended: a later
/// record never downgrades the classification.
pub proof fn lemma_filetype_never_downgrades(records: Seq<IHexRecord>, rec: IHexRecord)
    ensures
        spec_width(spec_filetype(records.push(rec))) >= spec_width(spec_filetype(records)),
{
    assert(records.push(rec).drop_last() =~= records);
    assert(records.push(rec).last() == rec);
}

/// The width, in bits, a file type stands for.
fn width_of(t: IHexFileType) -> (r: u8)
    ensures
        r as int == spec_width(t),
{
    match t {
        IHexFileType::IHex8 => 8,
        IHexFileType::IHex16 => 16,
        IHexFileType::IHex32 => 32,
    }
}

/// The wider of two file types.
fn filetype_max(a: IHexFileType, b: IHexFileType) -> (r: IHexFileType)
    ensures
        r == spec_filetype_max(a, b),
{
    if width_of(b) > width_of(a) {
        b
    } else {
        a
    }
}

impl IHexFile {
    /// The file's address-width classification.
    pub fn filetype(&self) -> (r: IHexFileType)
        ensures
            r == self.filetype,
    {
        self.filetype
    }

    /// The file's start address, if any of its records carried one.
    pub fn start_address(&self) -> (r: Option<StartAddr>)
        ensures
            r == self.start_address,
    {
        self.start_address
    }

    /// One left-to-right scan over the records, taking the running
    /// maximum of the widths they imply.
    fn determine_filetype(records: &Vec<IHexRecord>) -> (r: IHexFileType)
        ensures
            r == spec_filetype(records@),
    {
        let mut filetype = IHexFileType::IHex8;

        let mut i: usize = 0;
        while i < records.len()
            invariant
                0 <= i <= records@.len(),
                filetype == spec_filetype(records@.take(i as int)),
            decreases records@.len() - i,
        {
            proof {
                assert(records@.take(i + 1).drop_last() =~= records@.take(i as int));
                assert(records@.take(i + 1).last() == records@[i as int]);
            }
            let rec_filetype = match &records[i] {
                IHexRecord::ExtendedSegmentAddress(_) => IHexFileType::IHex16,
                IHexRecord::StartSegmentAddress(_) => IHexFileType::IHex16,
                IHexRecord::ExtendedLinearAddress(_) => IHexFileType::IHex32,
                IHexRecord::StartLinearAddress(_) => IHexFileType::IHex32,
                _ => IHexFileType::IHex8,
            };
            filetype = filetype_max(filetype, rec_filetype);
            i += 1;
        }

        proof {
            assert(records@.take(records@.len() as int) =~= records@);
        }
        filetype
    }
}

/// The raw views of a sequence of lines, as the line decoder reads
/// them; meaningful at an index only where the line decodes.
pub open spec fn spec_raws_of(lines: Seq<String>) -> Seq<RawRecordView> {
    Seq::new(lines.len(), |i: int| spec_raw_of(lines[i]@))
}

/// Every line of the file passes the line decoder.
pub open spec fn spec_all_decode_ok(lines: Seq<String>) -> bool {
    forall|k: int| 0 <= k < lines.len() ==> spec_decode_ok(#[trigger] lines[k]@)
}

/// Every raw record of the file passes the record interpreter.
pub open spec fn spec_all_interp_ok(rvs: Seq<RawRecordView>) -> bool {
    forall|k: int| 0 <= k < rvs.len() ==> spec_interp_ok(#[trigger] rvs[k])
}

/// A file parses as a whole exactly when every line decodes and every
/// raw record interprets.
pub open spec fn spec_read_ok(lines: Seq<String>) -> bool {
    spec_all_decode_ok(lines) && spec_all_interp_ok(spec_raws_of(lines))
}

impl IHexFile {
    /// Parses a whole file, line by line in order. Succeeds exactly
    /// when every line decodes and interprets, and then yields one
    /// typed record per line, each data record carrying the base
    /// snapshots in force at its position, together with the derived
    /// file type and the first start address. Fails atomically with
    /// the 1-based number of the first offending line: decoder errors
    /// over all lines are reported before any interpreter error.
    pub fn read(lines: &Vec<String>) -> (r: Result<IHexFile, LineError>)
        ensures
            r matches Ok(f) ==> {
                &&& spec_read_ok(lines@)
                &&& f.records@.len() == lines@.len()
                &&& forall|k: int|
                    0 <= k < lines@.len() ==> spec_record_of(
                        spec_raws_of(lines@)[k],
                        spec_seg_at(spec_raws_of(lines@), k),
                        spec_lin_at(spec_raws_of(lines@), k),
                        #[trigger] f.records@[k],
                    )
                &&& f.filetype == spec_filetype(f.records@)
                &&& f.start_address == spec_start_address(f.records@)
            },
            r matches Err(le) ==> {
                &&& !spec_read_ok(lines@)
                &&& 1 <= le.line_number <= lines@.len()
                &&& match le.cause {
                    LineErrorCause::Parse(e) => {
                        &&& !spec_decode_ok(lines@[le.line_number - 1]@)
                        &&& e == spec_decode_err(lines@[le.line_number - 1]@)
                        &&& forall|k: int|
                            0 <= k < le.line_number - 1 ==> spec_decode_ok(#[trigger] lines@[k]@)
                    },
                    LineErrorCause::Record(e) => {
                        &&& spec_all_decode_ok(lines@)
                        &&& !spec_interp_ok(spec_raws_of(lines@)[le.line_number - 1])
                        &&& e == spec_interp_err(spec_raws_of(lines@)[le.line_number - 1])
                        &&& forall|k: int|
                            0 <= k < le.line_number - 1 ==> spec_interp_ok(
                                #[trigger] spec_raws_of(lines@)[k],
                            )
                    },
                }
            },
    {
        let ghost rvs = spec_raws_of(lines@);

        let mut raw_records: Vec<RawIHexRecord> = Vec::new();
        let mut i: usize = 0;
        while i < lines.len()
            invariant
                0 <= i <= lines@.len(),
                raw_records@.len() == i,
                rvs == spec_raws_of(lines@),
                forall|k: int| 0 <= k < i ==> spec_decode_ok(#[trigger] lines@[k]@),
                forall|k: int| 0 <= k < i ==> #[trigger] raw_records@[k]@ == rvs[k],
            decreases lines@.len() - i,
        {
            match parse_ihex(lines[i].as_str()) {
                Ok(rec) => {
                    raw_records.push(rec);
                },
                Err(e) => {
                    return Err(LineError { line_number: i + 1, cause: LineErrorCause::Parse(e) });
                },
            }
            i += 1;
        }

        let mut bases = BaseAddrs { segment: None, linear: None };

        let n = raw_records.len();
        let mut records: Vec<IHexRecord> = Vec::new();
        let mut start_addr: Option<StartAddr> = None;
        let mut j: usize = 0;

        while j < n
            invariant
                n == lines@.len(),
                rvs == spec_raws_of(lines@),
                spec_all_decode_ok(lines@),
                raw_records@.len() == n - j,
                forall|k: int| 0 <= k < n - j ==> #[trigger] raw_records@[k]@ == rvs[j + k],
                records@.len() == j,
                forall|k: int| 0 <= k < j ==> spec_interp_ok(#[trigger] rvs[k]),
                forall|k: int|
                    0 <= k < j ==> spec_record_of(
                        rvs[k],
                        spec_seg_at(rvs, k),
                        spec_lin_at(rvs, k),
                        #[trigger] records@[k],
                    ),
                bases.segment == spec_seg_at(rvs, j as int),
                bases.linear == spec_lin_at(rvs, j as int),
                start_addr == spec_start_address(records@),
            decreases n - j,
        {
            let ghost prev_records = records@;

            let raw = raw_records.remove(0);
            proof {
                assert(raw@ == rvs[j as int]);
            }

            match Self::parse_and_append(&mut records, raw, &mut bases, &mut start_addr) {
                Ok(()) => {},
                Err(e) => {
                    proof {
                        assert(!spec_interp_ok(rvs[j as int]));
                    }
                    return Err(
                        LineError { line_number: j + 1, cause: LineErrorCause::Record(e) },
                    );
                },
            }

            proof {
                assert(records@.drop_last() == prev_records);
                assert(records@ =~= prev_records.push(records@.last()));
                assert(records@.len() == j + 1);
                // The pushed record mirrors the raw one, so the
                // first-wins fold over typed records advances exactly
                // as the interpreter advanced the running state.
                assert(spec_start_address(records@) == spec_start_update(
                    spec_start_address(prev_records),
                    rvs[j as int],
                ));
                assert(forall|k: int|
                    0 <= k < raw_records@.len() ==> #[trigger] raw_records@[k]@ == rvs[j + 1 + k]);
            }

            j += 1;
        }

        let filetype = Self::determine_filetype(&records);

        let ihex_file = IHexFile { filetype, records, start_address: start_addr };

        Ok(ihex_file)
    }
}

/// The buffer after one record's bytes are merged in at `addr`: the
/// buffer grows, zero-filled, to hold at least `addr + data.len()`
/// bytes, and the record's bytes overwrite that range byte for byte.
pub open spec fn spec_write_at(buf: Seq<u8>, addr: int, data: Seq<u8>) -> Seq<u8>
    recommends
        addr >= 0,
{
    let end = addr + data.len();
    let n: int = if buf.len() >= end {
        buf.len() as int
    } else {
        end
    };
    Seq::new(
        n as nat,
        |j: int|
            if addr <= j < end {
                data[j - addr]
            } else if j < buf.len() {
                buf[j]
            } else {
                0u8
            },
    )
}

/// The flat memory image of a record stream: data records are merged
/// left to right at their effective addresses, so that at overlapping
/// addresses a later record overwrites an earlier one. Not commutative
/// by design.
pub open spec fn spec_flatten(records: Seq<IHexRecord>) -> Seq<u8>
    decreases records.len(),
{
    if records.len() == 0 {
        Seq::empty()
    } else {
        let prev = spec_flatten(records.drop_last());
        match records.last() {
            IHexRecord::Data(d) => spec_write_at(prev, spec_effective_address(d), d.data@),
            _ => prev,
        }
    }
}

/// Every data record's effective range stays within what the machine
/// can index.
pub open spec fn spec_data_addresses_fit(records: Seq<IHexRecord>) -> bool {
    forall|k: int|
        0 <= k < records.len() ==> (#[trigger] records[k] matches IHexRecord::Data(d)
            ==> spec_effective_address(d) <= u32::MAX && spec_effective_address(d) + d.data@.len()
            <= usize::MAX)
}

impl IHexFile {
    /// Merges all data records, in stream order, into one flat byte
    /// buffer indexed by effective address. The buffer only ever
    /// grows, new space is zero-filled, and later records overwrite
    /// earlier ones where their ranges overlap.
    pub fn data_bytes(&self) -> (r: Vec<u8>)
        requires
            spec_data_addresses_fit(self.records@),
        ensures
            r@ == spec_flatten(self.records@),
    {
        let mut data: Vec<u8> = Vec::new();
        let n = self.records.len();
        let mut idx: usize = 0;
        while idx < n
            invariant
                n == self.records@.len(),
                0 <= idx <= n,
                spec_data_addresses_fit(self.records@),
                data@ == spec_flatten(self.records@.take(idx as int)),
            decreases n - idx,
        {
            proof {
                assert(self.records@.take(idx + 1).drop_last() =~= self.records@.take(idx as int));
                assert(self.records@.take(idx + 1).last() == self.records@[idx as int]);
            }
            match &self.records[idx] {
                IHexRecord::Data(d) => {
                    let ghost prev = data@;
                    let eff = d.calc_effective_address();
                    let eff_us = eff as usize;
                    let end = eff_us + d.data.len();

                    while data.len() < end
                        invariant
                            end <= usize::MAX,
                            prev.len() <= data@.len(),
                            data@.len() == prev.len() || data@.len() <= end,
                            forall|t: int| 0 <= t < prev.len() ==> data@[t] == prev[t],
                            forall|t: int| prev.len() <= t < data@.len() ==> data@[t] == 0u8,
                        decreases end - data@.len(),
                    {
                        data.push(0);
                    }

                    let ghost filled = data@;

                    let mut t: usize = 0;
                    while t < d.data.len()
                        invariant
                            0 <= t <= d.data@.len(),
                            eff_us + d.data@.len() == end,
                            end <= data@.len(),
                            data@.len() == filled.len(),
                            forall|p: int|
                                0 <= p < data@.len() && !(eff_us <= p < eff_us + t)
                                    ==> data@[p] == filled[p],
                            forall|p: int|
                                eff_us <= p < eff_us + t ==> data@[p] == d.data@[p - eff_us],
                        decreases d.data@.len() - t,
                    {
                        data.set(eff_us + t, d.data[t]);
                        t += 1;
                    }

                    proof {
                        let w = spec_write_at(prev, eff as int, d.data@);
                        assert(data@.len() == w.len());
                        assert forall|p: int| 0 <= p < w.len() implies data@[p] == w[p] by {
                            if eff_us <= p < end {
                                assert(data@[p] == d.data@[p - eff_us]);
                            } else if p < prev.len() {
                                assert(data@[p] == filled[p]);
                                assert(filled[p] == prev[p]);
                            } else {
                                assert(data@[p] == filled[p]);
                                assert(filled[p] == 0u8);
                            }
                        }
                        assert(data@ =~= w);
                    }
                },
                _ => {},
            }
            idx += 1;
        }

        proof {
            assert(self.records@.take(n as int) =~= self.records@);
        }
        data
    }
}

/// Whether a record is a data record.
pub open spec fn is_data_record(rec: IHexRecord) -> bool {
    rec is Data
}

/// The data record inside a record; meaningful only for data records.
pub open spec fn data_record_of(rec: IHexRecord) -> DataRecord
    recommends
        is_data_record(rec),
{
    rec->Data_0
}

/// Two data records whose effective ranges do not overlap.
pub open spec fn spec_ranges_disjoint(d1: DataRecord, d2: DataRecord) -> bool {
    ||| spec_effective_address(d1) + d1.data@.len() <= spec_effective_address(d2)
    ||| spec_effective_address(d2) + d2.data@.len() <= spec_effective_address(d1)
}

/// Some data record's effective range covers `addr`.
pub open spec fn spec_data_covers(records: Seq<IHexRecord>, addr: int) -> bool {
    exists|k: int|
        0 <= k < records.len() && is_data_record(#[trigger] records[k]) && spec_effective_address(
            data_record_of(records[k]),
        ) <= addr < spec_effective_address(data_record_of(records[k])) + data_record_of(
            records[k],
        ).data@.len()
}

/// Round trip: where the data records of a stream occupy pairwise
/// disjoint ranges, the flat image holds each record's full range,
/// returns each record's bytes unchanged over its own range, and
/// reads zero at every address no record wrote.
pub proof fn lemma_flatten_disjoint_round_trip(records: Seq<IHexRecord>)
    requires
        forall|a: int, b: int|
            0 <= a < records.len() && 0 <= b < records.len() && a != b && is_data_record(
                #[trigger] records[a],
            ) && is_data_record(#[trigger] records[b]) ==> spec_ranges_disjoint(
                data_record_of(records[a]),
                data_record_of(records[b]),
            ),
    ensures
        forall|k: int|
            0 <= k < records.len() && is_data_record(#[trigger] records[k])
                ==> spec_effective_address(data_record_of(records[k])) + data_record_of(
                records[k],
            ).data@.len() <= spec_flatten(records).len(),
        forall|k: int, t: int|
            #![trigger data_record_of(records[k]).data@[t]]
            0 <= k < records.len() && is_data_record(records[k]) && 0 <= t
                < data_record_of(records[k]).data@.len() ==> spec_flatten(
                records,
            )[spec_effective_address(data_record_of(records[k])) + t] == data_record_of(
                records[k],
            ).data@[t],
        forall|addr: int|
            0 <= addr < spec_flatten(records).len() && !spec_data_covers(records, addr)
                ==> spec_flatten(records)[addr] == 0,
    decreases records.len(),
{
    if records.len() > 0 {
        let rest = records.drop_last();
        assert forall|a: int, b: int|
            0 <= a < rest.len() && 0 <= b < rest.len() && a != b && is_data_record(
                #[trigger] rest[a],
            ) && is_data_record(#[trigger] rest[b]) implies spec_ranges_disjoint(
            data_record_of(rest[a]),
            data_record_of(rest[b]),
        ) by {
            assert(rest[a] == records[a]);
            assert(rest[b] == records[b]);
        }
        lemma_flatten_disjoint_round_trip(rest);

        let fr = spec_flatten(rest);
        let fl = spec_flatten(records);
        let last = records.last();

        if is_data_record(last) {
            let dl = data_record_of(last);
            let effl = spec_effective_address(dl);
            assert(fl == spec_write_at(fr, effl, dl.data@));

            assert forall|k: int|
                0 <= k < records.len() && is_data_record(#[trigger] records[k])
                    implies spec_effective_address(data_record_of(records[k])) + data_record_of(
                records[k],
            ).data@.len() <= fl.len() by {
                if k < records.len() - 1 {
                    assert(records[k] == rest[k]);
                }
            }

            assert forall|k: int, t: int|
                #![trigger data_record_of(records[k]).data@[t]]
                0 <= k < records.len() && is_data_record(records[k]) && 0 <= t
                    < data_record_of(records[k]).data@.len() implies fl[spec_effective_address(
                data_record_of(records[k]),
            ) + t] == data_record_of(records[k]).data@[t] by {
                let d = data_record_of(records[k]);
                let eff = spec_effective_address(d);
                if k < records.len() - 1 {
                    assert(records[k] == rest[k]);
                    assert(data_record_of(rest[k]).data@[t] == d.data@[t]);
                    assert(eff + d.data@.len() <= fr.len());
                    assert(fr[eff + t] == d.data@[t]);
                    assert(spec_ranges_disjoint(d, dl));
                }
            }

            assert forall|addr: int|
                0 <= addr < fl.len() && !spec_data_covers(records, addr) implies fl[addr]
                == 0 by {
                if effl <= addr < effl + dl.data@.len() {
                    assert(is_data_record(records[records.len() - 1]));
                    assert(spec_data_covers(records, addr));
                }
                if addr < fr.len() {
                    if spec_data_covers(rest, addr) {
                        let k = choose|k: int|
                            0 <= k < rest.len() && is_data_record(#[trigger] rest[k])
                                && spec_effective_address(data_record_of(rest[k])) <= addr
                                < spec_effective_address(data_record_of(rest[k]))
                                + data_record_of(rest[k]).data@.len();
                        assert(records[k] == rest[k]);
                        assert(spec_data_covers(records, addr));
                    }
                    assert(fr[addr] == 0);
                }
            }
        } else {
            assert(fl == fr);
            assert forall|k: int|
                0 <= k < records.len() && is_data_record(#[trigger] records[k])
                    implies spec_effective_address(data_record_of(records[k])) + data_record_of(
                records[k],
            ).data@.len() <= fl.len() by {
                assert(k < records.len() - 1);
                assert(records[k] == rest[k]);
            }
            assert forall|k: int, t: int|
                #![trigger data_record_of(records[k]).data@[t]]
                0 <= k < records.len() && is_data_record(records[k]) && 0 <= t
                    < data_record_of(records[k]).data@.len() implies fl[spec_effective_address(
                data_record_of(records[k]),
            ) + t] == data_record_of(records[k]).data@[t] by {
                assert(k < records.len() - 1);
                assert(records[k] == rest[k]);
                assert(data_record_of(rest[k]).data@[t] == data_record_of(records[k]).data@[t]);
            }
            assert forall|addr: int|
                0 <= addr < fl.len() && !spec_data_covers(records, addr) implies fl[addr]
                == 0 by {
                if spec_data_covers(rest, addr) {
                    let k = choose|k: int|
                        0 <= k < rest.len() && is_data_record(#[trigger] rest[k])
                            && spec_effective_address(data_record_of(rest[k])) <= addr
                            < spec_effective_address(data_record_of(rest[k])) + data_record_of(
                            rest[k],
                        ).data@.len();
                    assert(records[k] == rest[k]);
                    assert(spec_data_covers(records, addr));
                }
            }
        }
    }
}

/// Order dependence: in a stream of two data records, the flat image
/// carries the later record's bytes wherever the later record wrote,
/// and the earlier record's bytes survive only outside that range.
pub proof fn lemma_flatten_later_record_wins(first: DataRecord, second: DataRecord)
    ensures
        forall|t: int|
            0 <= t < second.data@.len() ==> spec_flatten(
                seq![IHexRecord::Data(first), IHexRecord::Data(second)],
            )[spec_effective_address(second) + t] == second.data@[t],
        forall|t: int|
            0 <= t < first.data@.len() && !(spec_effective_address(second)
                <= spec_effective_address(first) + t < spec_effective_address(second)
                + second.data@.len()) ==> spec_flatten(
                seq![IHexRecord::Data(first), IHexRecord::Data(second)],
            )[spec_effective_address(first) + t] == first.data@[t],
{
    let s = seq![IHexRecord::Data(first), IHexRecord::Data(second)];
    let s1 = seq![IHexRecord::Data(first)];
    assert(s.drop_last() =~= s1);
    assert(s1.drop_last() =~= Seq::<IHexRecord>::empty());
    assert(s1.last() == IHexRecord::Data(first));
    assert(s.last() == IHexRecord::Data(second));
    assert(spec_flatten(s1.drop_last()) == Seq::<u8>::empty());
    assert(spec_flatten(s1) == spec_write_at(
        Seq::<u8>::empty(),
        spec_effective_address(first),
        first.data@,
    ));
    assert(spec_flatten(s) == spec_write_at(
        spec_flatten(s1),
        spec_effective_address(second),
        second.data@,
    ));
}

} // verus!
