//! The line decoder: one ASCII line of an Intel HEX file becomes a raw,
//! untyped record. No semantic interpretation happens here; in
//! particular the checksum is carried along unchecked and validated by
//! the record interpreter.

use vstd::prelude::*;
use vstd::utf8::is_ascii_chars;

verus! {

broadcast use vstd::string::group_string_axioms;

/// One line's worth of decoded Intel HEX data: byte count, 16-bit load
/// offset, record type byte, the data bytes and the stored checksum.
#[derive(Debug)]
pub struct RawIHexRecord {
    pub reclen: u8,
    pub load_offset: u16,
    pub rectyp: u8,
    pub data: Vec<u8>,
    pub checksum: u8,
}

/// Mathematical mirror of [`RawIHexRecord`], with the data bytes as a
/// sequence.
pub ghost struct RawRecordView {
    pub reclen: u8,
    pub load_offset: u16,
    pub rectyp: u8,
    pub data: Seq<u8>,
    pub checksum: u8,
}

impl View for RawIHexRecord {
    type V = RawRecordView;

    open spec fn view(&self) -> RawRecordView {
        RawRecordView {
            reclen: self.reclen,
            load_offset: self.load_offset,
            rectyp: self.rectyp,
            data: self.data@,
            checksum: self.checksum,
        }
    }
}

/// Sum of a sequence of bytes, as an unbounded integer.
pub open spec fn sum_bytes(s: Seq<u8>) -> int
    decreases s.len(),
{
    if s.len() == 0 {
        0
    } else {
        sum_bytes(s.drop_last()) + s.last()
    }
}

/// The checksum a record ought to carry: the two's-complement negation
/// of the 8-bit truncated sum of the byte count, both load offset
/// bytes, the record type and all data bytes.
pub open spec fn spec_checksum(r: RawRecordView) -> u8 {
    let total = r.reclen + r.rectyp + (r.load_offset as int) % 256 + (r.load_offset as int)
        / 256 + sum_bytes(r.data);
    (((256 - total % 256) % 256) as u8)
}

/// Adds both bytes of a 16-bit value onto an 8-bit running sum,
/// modulo 256.
fn add_u16(a: u8, b: u16) -> (r: u8)
    ensures
        r as int == (a as int + (b as int) % 256 + (b as int) / 256) % 256,
{
    let lo: u8 = (b % 256) as u8;
    let hi: u8 = (b / 256) as u8;
    (((a as u32 + lo as u32 + hi as u32) % 256) as u8)
}

impl RawIHexRecord {
    /// Recomputes the checksum from the record's own fields.
    pub fn generate_checksum(&self) -> (r: u8)
        ensures
            r == spec_checksum(self@),
    {
        let base: u8 = (((self.reclen as u16 + self.rectyp as u16) % 256) as u8);
        let non_data_sum = add_u16(base, self.load_offset);
        let mut sum: u8 = non_data_sum;
        let mut i: usize = 0;
        while i < self.data.len()
            invariant
                0 <= i <= self.data@.len(),
                sum as int == (self.reclen + self.rectyp + (self.load_offset as int) % 256 + (
                self.load_offset as int) / 256 + sum_bytes(self.data@.take(i as int))) % 256,
            decreases self.data@.len() - i,
        {
            proof {
                assert(self.data@.take(i + 1).drop_last() =~= self.data@.take(i as int));
                assert(self.data@.take(i + 1).last() == self.data@[i as int]);
            }
            sum = (((sum as u16 + self.data[i] as u16) % 256) as u8);
            i += 1;
        }
        proof {
            assert(self.data@.take(self.data@.len() as int) =~= self.data@);
        }
        (((256 - sum as u16) % 256) as u8)
    }

    /// A record is valid exactly when the recomputed checksum agrees
    /// with the stored one.
    pub fn checksum_valid(&self) -> (r: bool)
        ensures
            r == (spec_checksum(self@) == self@.checksum),
    {
        self.generate_checksum() == self.checksum
    }
}

/// What can go wrong while decoding one line into a raw record.
#[derive(Debug, Clone, Copy, PartialEq, Eq, Structural)]
pub enum IHexParseError {
    MissingStartCode,
    NonAsciiString,
    RecordTooShort,
    IncorrectDataSize,
    NonHexString,
}

/// A hexadecimal digit, in either case.
pub open spec fn is_hex_digit(c: char) -> bool {
    ('0' <= c && c <= '9') || ('a' <= c && c <= 'f') || ('A' <= c && c <= 'F')
}

/// The value of a hexadecimal digit.
pub open spec fn hex_digit_value(c: char) -> u8 {
    if '0' <= c && c <= '9' {
        (c as u8 - '0' as u8) as u8
    } else if 'a' <= c && c <= 'f' {
        (c as u8 - 'a' as u8 + 10) as u8
    } else {
        (c as u8 - 'A' as u8 + 10) as u8
    }
}

/// A sequence that decodes as hex: an even number of hex digits.
pub open spec fn valid_hex_seq(s: Seq<char>) -> bool {
    s.len() % 2 == 0 && forall|i: int| 0 <= i < s.len() ==> is_hex_digit(#[trigger] s[i])
}

/// The bytes encoded by a sequence of hex digit pairs.
pub open spec fn hex_pairs_bytes(s: Seq<char>) -> Seq<u8>
    decreases s.len(),
{
    if s.len() < 2 {
        Seq::empty()
    } else {
        seq![(hex_digit_value(s[0]) * 16 + hex_digit_value(s[1])) as u8] + hex_pairs_bytes(
            s.skip(2),
        )
    }
}

/// Relies on hex::decode: an even-length string of hex digits (either
/// case) decodes pairwise into bytes; an odd length or any other
/// character is refused.
#[verifier::external_body]
fn hex_decode(s: &str) -> (r: Option<Vec<u8>>)
    requires
        s.is_ascii(),
    ensures
        match r {
            Some(v) => valid_hex_seq(s@) && v@ == hex_pairs_bytes(s@),
            None => !valid_hex_seq(s@),
        },
{
    match hex::decode(s) {
        Ok(v) => Some(v),
        Err(_) => None,
    }
}

/// The decoded bytes of one line, marker excluded.
pub open spec fn spec_line_bytes(line: Seq<char>) -> Seq<u8> {
    hex_pairs_bytes(line.skip(1))
}

/// A line that decodes into a raw record: ASCII, the `:` marker, hex
/// content, at least the five fixed bytes, and a data length that
/// matches the byte count.
pub open spec fn spec_decode_ok(line: Seq<char>) -> bool {
    &&& is_ascii_chars(line)
    &&& line.len() >= 1 && line[0] == ':'
    &&& valid_hex_seq(line.skip(1))
    &&& spec_line_bytes(line).len() >= 5
    &&& spec_line_bytes(line).len() - 5 == spec_line_bytes(line)[0]
}

/// The error a failing line is refused with; meaningful only when
/// `spec_decode_ok` does not hold.
pub open spec fn spec_decode_err(line: Seq<char>) -> IHexParseError {
    if !is_ascii_chars(line) {
        IHexParseError::NonAsciiString
    } else if line.len() == 0 || line[0] != ':' {
        IHexParseError::MissingStartCode
    } else if !valid_hex_seq(line.skip(1)) {
        IHexParseError::NonHexString
    } else if spec_line_bytes(line).len() < 5 {
        IHexParseError::RecordTooShort
    } else {
        IHexParseError::IncorrectDataSize
    }
}

/// The raw record a well-formed line decodes into: byte 0 is the byte
/// count, bytes 1 and 2 the big-endian load offset, byte 3 the record
/// type, the last byte the checksum, and everything between is data.
pub open spec fn spec_raw_of(line: Seq<char>) -> RawRecordView {
    let b = spec_line_bytes(line);
    RawRecordView {
        reclen: b[0],
        load_offset: ((b[1] as int) * 256 + b[2] as int) as u16,
        rectyp: b[3],
        data: b.subrange(4, b.len() - 1),
        checksum: b[b.len() - 1],
    }
}

/// Big-endian pairing of two bytes into a 16-bit value.
pub fn u16_from_be(hi: u8, lo: u8) -> (r: u16)
    ensures
        r as int == hi as int * 256 + lo as int,
{
    hi as u16 * 256 + lo as u16
}

/// Big-endian pairing of four bytes into a 32-bit value.
pub fn u32_from_be(b0: u8, b1: u8, b2: u8, b3: u8) -> (r: u32)
    ensures
        r as int == b0 as int * 0x1000000 + b1 as int * 0x10000 + b2 as int * 0x100 + b3 as int,
{
    b0 as u32 * 0x1000000 + b1 as u32 * 0x10000 + b2 as u32 * 0x100 + b3 as u32
}

/// Decodes one line of text into a raw record, or says exactly why it
/// cannot be: a non-ASCII character, a missing `:` marker, non-hex
/// content, fewer bytes than the fixed header needs, or a data length
/// that disagrees with the byte count.
pub fn parse_ihex(value: &str) -> (r: Result<RawIHexRecord, IHexParseError>)
    ensures
        r matches Ok(rec) ==> spec_decode_ok(value@) && rec@ == spec_raw_of(value@),
        r matches Err(e) ==> !spec_decode_ok(value@) && e == spec_decode_err(value@),
{
    if !value.is_ascii() {
        return Err(IHexParseError::NonAsciiString);
    }

    let n = value.unicode_len();
    if n == 0 {
        return Err(IHexParseError::MissingStartCode);
    }
    if value.get_char(0) != ':' {
        return Err(IHexParseError::MissingStartCode);
    }

    let tail = value.substring_ascii(1, n);
    proof {
        assert(tail@ =~= value@.skip(1));
    }
    let bytes = match hex_decode(tail) {
        Some(v) => v,
        None => {
            return Err(IHexParseError::NonHexString);
        },
    };

    if bytes.len() < 5 {
        return Err(IHexParseError::RecordTooShort);
    }

    let reclen = bytes[0];
    if bytes.len() - 5 != reclen as usize {
        return Err(IHexParseError::IncorrectDataSize);
    }

    let load_offset = u16_from_be(bytes[1], bytes[2]);
    let rectyp = bytes[3];
    let checksum = bytes[bytes.len() - 1];

    let mut data: Vec<u8> = Vec::new();
    let mut i: usize = 4;
    while i < bytes.len() - 1
        invariant
            bytes@.len() >= 5,
            4 <= i <= bytes@.len() - 1,
            data@ == bytes@.subrange(4, i as int),
        decreases bytes@.len() - i,
    {
        data.push(bytes[i]);
        proof {
            assert(bytes@.subrange(4, i + 1) =~= bytes@.subrange(4, i as int).push(
                bytes@[i as int],
            ));
        }
        i += 1;
    }

    Ok(RawIHexRecord { reclen, load_offset, rectyp, data, checksum })
}

} // verus!
