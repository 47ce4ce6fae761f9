//! MFT entry (FILE record) header parser; applies the update-sequence fixup
//! with 512-byte sectors.

use vstd::prelude::*;
use crate::le::{read_u16, read_u32, read_u64};
use crate::fixup::{apply_fixup, FixupError};

verus! {

pub const MIN_HEADER_SIZE: usize = 48;
pub const DEFAULT_SECTOR_SIZE: u16 = 512;
pub const FLAG_IN_USE: u16 = 0x0001;
pub const FLAG_DIR: u16 = 0x0002;

/// The header of an MFT entry (first 48 bytes), little-endian.
#[derive(Debug, Clone, PartialEq, Eq)]
pub struct MftEntryHeader {
    pub usa_offset: u16,
    /// Words of the update sequence array: the sequence number and one fixup per sector.
    pub usa_size: u16,
    pub lsn: u64,
    /// Generation counter of this record number.
    pub sequence_number: u16,
    /// Directory entries referring to this record (hard links included).
    pub hard_link_count: u16,
    pub first_attribute_offset: u16,
    pub flags: u16,
    pub used_size: u32,
    pub allocated_size: u32,
    pub base_record_reference: u64,
    pub next_attribute_id: u16,
    /// Own record number (XP and later); `None` when the field is 0.
    pub mft_record_number: Option<u32>,
}

/// A parsed MFT entry; `data` is the whole record after the fixup.
#[derive(Debug, Clone)]
pub struct MftEntry {
    pub header: MftEntryHeader,
    pub data: Vec<u8>,
}

/// Why an MFT entry was rejected.
#[allow(inconsistent_fields)]
#[derive(Debug, Clone, PartialEq, Eq)]
pub enum MftError {
    BufferTooSmall { got: usize, need: usize },
    InvalidMagic { got: [u8; 4] },
    /// The record carries the `BAAD` signature: NTFS marked it corrupt.
    BadEntry,
    /// The update sequence array starts inside the 48-byte header.
    InvalidUsaOffset { offset: u16 },
    /// The array size disagrees with `allocated_size`.
    InvalidUsaSize { size: u16 },
    Fixup(FixupError),
    UsedExceedsAllocated { used: u32, allocated: u32 },
}

pub open spec fn magic_file() -> Seq<u8> {
    seq![0x46u8, 0x49u8, 0x4Cu8, 0x45u8]
}

pub open spec fn magic_baad() -> Seq<u8> {
    seq![0x42u8, 0x41u8, 0x41u8, 0x44u8]
}

pub open spec fn u16_at(b: Seq<u8>, o: int) -> u16 {
    crate::le::le_uint(b, o, 2) as u16
}

pub open spec fn u32_at(b: Seq<u8>, o: int) -> u32 {
    crate::le::le_uint(b, o, 4) as u32
}

pub open spec fn u64_at(b: Seq<u8>, o: int) -> u64 {
    crate::le::le_uint(b, o, 8) as u64
}

/// The header fields of the record `b`.
pub open spec fn header_fields(b: Seq<u8>) -> MftEntryHeader {
    MftEntryHeader {
        usa_offset: u16_at(b, 0x04),
        usa_size: u16_at(b, 0x06),
        lsn: u64_at(b, 0x08),
        sequence_number: u16_at(b, 0x10),
        hard_link_count: u16_at(b, 0x12),
        first_attribute_offset: u16_at(b, 0x14),
        flags: u16_at(b, 0x16),
        used_size: u32_at(b, 0x18),
        allocated_size: u32_at(b, 0x1C),
        base_record_reference: u64_at(b, 0x20),
        next_attribute_id: u16_at(b, 0x28),
        mft_record_number: if u32_at(b, 0x2C) == 0 { None } else { Some(u32_at(b, 0x2C)) },
    }
}

/// `ceil(allocated / 512) + 1`: the array size a record of that size needs.
pub open spec fn expected_usa_size(allocated: u32) -> int {
    (allocated + 511) / 512 + 1
}

/// The checks of `parse_mft_entry` before the fixup, in order; `None` when all pass.
pub open spec fn mft_precheck(b: Seq<u8>) -> Option<MftError> {
    let h = header_fields(b);
    if b.len() < 48 {
        Some(MftError::BufferTooSmall { got: b.len() as usize, need: 48 })
    } else if b.subrange(0, 4) == magic_baad() {
        Some(MftError::BadEntry)
    } else if b.subrange(0, 4) != magic_file() {
        Some(MftError::InvalidMagic { got: arbitrary() })
    } else if h.used_size > h.allocated_size {
        Some(MftError::UsedExceedsAllocated { used: h.used_size, allocated: h.allocated_size })
    } else if h.allocated_size > 0 && expected_usa_size(h.allocated_size) != h.usa_size {
        Some(MftError::InvalidUsaSize { size: h.usa_size })
    } else if h.usa_offset < 48 {
        Some(MftError::InvalidUsaOffset { offset: h.usa_offset })
    } else {
        None
    }
}

/// What `parse_mft_entry` gives for `b`, up to the magic bytes carried by `InvalidMagic`.
pub open spec fn spec_parse_mft_entry(b: Seq<u8>, r: Result<MftEntry, MftError>) -> bool {
    match mft_precheck(b) {
        Some(MftError::InvalidMagic { .. }) => r matches Err(MftError::InvalidMagic { got }) && got@ == b.subrange(0, 4),
        Some(e) => r == Err::<MftEntry, MftError>(e),
        None => {
            let h = header_fields(b);
            let (fixed, fe) = crate::fixup::spec_apply_fixup(b, h.usa_offset, h.usa_size, 512);
            match fe {
                Some(e) => r == Err::<MftEntry, MftError>(MftError::Fixup(e)),
                None => r matches Ok(entry) && entry.header == h && entry.data@ == fixed,
            }
        }
    }
}

proof fn lemma_four_bytes(a: Seq<u8>, b: Seq<u8>)
    requires
        a.len() == 4,
        b.len() == 4,
        a[0] == b[0],
        a[1] == b[1],
        a[2] == b[2],
        a[3] == b[3],
    ensures
        a == b,
{
    assert(a =~= b);
}

/// Parses one MFT entry (FILE record) and applies its fixup with 512-byte sectors.
pub fn parse_mft_entry(bytes: &[u8]) -> (r: Result<MftEntry, MftError>)
    ensures
        spec_parse_mft_entry(bytes@, r),
{
    if bytes.len() < MIN_HEADER_SIZE {
        return Err(MftError::BufferTooSmall { got: bytes.len(), need: MIN_HEADER_SIZE });
    }
    let magic: [u8; 4] = [bytes[0], bytes[1], bytes[2], bytes[3]];
    proof {
        assert(magic@ =~= bytes@.subrange(0, 4));
    }
    if magic[0] == 0x42 && magic[1] == 0x41 && magic[2] == 0x41 && magic[3] == 0x44 {
        proof { lemma_four_bytes(bytes@.subrange(0, 4), magic_baad()); }
        return Err(MftError::BadEntry);
    }
    if !(magic[0] == 0x46 && magic[1] == 0x49 && magic[2] == 0x4C && magic[3] == 0x45) {
        proof {
            if bytes@.subrange(0, 4) == magic_file() {
                assert(bytes@.subrange(0, 4)[0] == magic_file()[0]);
                assert(bytes@.subrange(0, 4)[3] == magic_file()[3]);
            }
            if bytes@.subrange(0, 4) == magic_baad() {
                assert(bytes@.subrange(0, 4)[0] == magic_baad()[0]);
                assert(bytes@.subrange(0, 4)[3] == magic_baad()[3]);
            }
        }
        return Err(MftError::InvalidMagic { got: magic });
    }
    proof {
        lemma_four_bytes(bytes@.subrange(0, 4), magic_file());
        assert(bytes@.subrange(0, 4) != magic_baad()) by {
            assert(magic_file()[0] != magic_baad()[0]);
        }
    }
    let usa_offset = read_u16(bytes, 0x04);
    let usa_size = read_u16(bytes, 0x06);
    let used_size = read_u32(bytes, 0x18);
    let allocated_size = read_u32(bytes, 0x1C);
    if used_size > allocated_size {
        return Err(MftError::UsedExceedsAllocated { used: used_size, allocated: allocated_size });
    }
    if allocated_size > 0 {
        let rem: u32 = if allocated_size % 512 == 0 { 0 } else { 1 };
        let expected: u32 = allocated_size / 512 + rem + 1;
        assert(expected == expected_usa_size(allocated_size));
        if expected != usa_size as u32 {
            return Err(MftError::InvalidUsaSize { size: usa_size });
        }
    }
    let rec_no_raw = read_u32(bytes, 0x2C);
    let header = MftEntryHeader {
        usa_offset,
        usa_size,
        lsn: read_u64(bytes, 0x08),
        sequence_number: read_u16(bytes, 0x10),
        hard_link_count: read_u16(bytes, 0x12),
        first_attribute_offset: read_u16(bytes, 0x14),
        flags: read_u16(bytes, 0x16),
        used_size,
        allocated_size,
        base_record_reference: read_u64(bytes, 0x20),
        next_attribute_id: read_u16(bytes, 0x28),
        mft_record_number: if rec_no_raw == 0 { None } else { Some(rec_no_raw) },
    };
    if (usa_offset as usize) < MIN_HEADER_SIZE {
        return Err(MftError::InvalidUsaOffset { offset: usa_offset });
    }
    let mut data = vstd::slice::slice_to_vec(bytes);
    match apply_fixup(data.as_mut_slice(), usa_offset, usa_size, DEFAULT_SECTOR_SIZE) {
        Ok(()) => {},
        Err(e) => {
            return Err(MftError::Fixup(e));
        },
    }
    Ok(MftEntry { header, data })
}

impl MftEntryHeader {
    /// In use: `flags & 0x0001 != 0`.
    pub fn is_in_use(&self) -> (r: bool)
        ensures
            r == (self.flags & 0x0001 != 0),
    {
        self.flags & FLAG_IN_USE != 0
    }

    /// Deleted: not in use.
    pub fn is_deleted(&self) -> (r: bool)
        ensures
            r == (self.flags & 0x0001 == 0),
    {
        !self.is_in_use()
    }

    /// Directory: `flags & 0x0002 != 0`.
    pub fn is_directory(&self) -> (r: bool)
        ensures
            r == (self.flags & 0x0002 != 0),
    {
        self.flags & FLAG_DIR != 0
    }

    /// A base record (not an extension record): its base reference is 0.
    pub fn is_base_record(&self) -> (r: bool)
        ensures
            r == (self.base_record_reference == 0),
    {
        self.base_record_reference == 0
    }
}

} // verus!
