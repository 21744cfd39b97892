//! The typed records of an Intel HEX file. A data record carries, by
//! value, a snapshot of whichever extended segment and extended linear
//! address records were most recently seen before it, so that later
//! state changes can never retroactively alter it.

use vstd::prelude::*;

verus! {

/// An extended segment address record: its 16-bit field value shifted
/// left by four, establishing a segment base for later data records.
#[derive(Debug, Clone, Copy, PartialEq, Eq, Structural)]
pub struct ExtendedSegmentAddressRecord {
    pub segment_base: usize,
}

/// A start segment address record: initial CS and IP values.
#[derive(Debug, Clone, Copy, PartialEq, Eq, Structural)]
pub struct StartSegmentAddressRecord {
    pub code_segment: u16,
    pub instruction_pointer: u16,
}

/// An extended linear address record: the upper 16 bits of a 32-bit
/// base address for later data records.
#[derive(Debug, Clone, Copy, PartialEq, Eq, Structural)]
pub struct ExtendedLinearAddressRecord {
    pub address_base: u16,
}

/// A start linear address record: the 32-bit entry point.
#[derive(Debug, Clone, Copy, PartialEq, Eq, Structural)]
pub struct StartLinearAddressRecord {
    pub entry_point: u32,
}

/// A data record: a naive 16-bit offset, the raw bytes, and the
/// extended address records active when it was interpreted.
#[derive(Debug, Clone, PartialEq, Eq)]
pub struct DataRecord {
    pub segment_address: Option<ExtendedSegmentAddressRecord>,
    pub linear_address: Option<ExtendedLinearAddressRecord>,
    pub naive_address: u16,
    pub data: Vec<u8>,
}

/// A typed Intel HEX record, one of the six record types.
#[derive(Debug, Clone, PartialEq, Eq)]
pub enum IHexRecord {
    Data(DataRecord),
    EndOfFile,
    ExtendedSegmentAddress(ExtendedSegmentAddressRecord),
    StartSegmentAddress(StartSegmentAddressRecord),
    ExtendedLinearAddress(ExtendedLinearAddressRecord),
    StartLinearAddress(StartLinearAddressRecord),
}

/// The 32-bit address a data record's bytes occupy: the snapshotted
/// linear base shifted into the upper half, plus the snapshotted
/// segment base, plus the record's own 16-bit offset. Bases that were
/// never seen contribute zero.
pub open spec fn spec_effective_address(d: DataRecord) -> int {
    let linear_base = match d.linear_address {
        Some(linear) => linear.address_base as int * 0x10000,
        None => 0,
    };
    let segment_base = match d.segment_address {
        Some(segment) => segment.segment_base as int,
        None => 0,
    };
    linear_base + segment_base + d.naive_address as int
}

impl DataRecord {
    /// Combines the record's snapshotted bases with its own offset
    /// into the effective 32-bit address.
    pub fn calc_effective_address(&self) -> (r: u32)
        requires
            spec_effective_address(*self) <= u32::MAX,
        ensures
            r == spec_effective_address(*self),
    {
        let linear_base: u32 = match &self.linear_address {
            Some(linear) => (linear.address_base as u32) << 16,
            None => 0,
        };

        let segment_base: u32 = match &self.segment_address {
            Some(segment) => segment.segment_base as u32,
            None => 0,
        };

        proof {
            assert(forall|x: u16| #[trigger] ((x as u32) << 16) == (x as u32) * 0x10000)
                by (bit_vector);
        }

        linear_base + segment_base + (self.naive_address as u32)
    }
}

} // verus!
