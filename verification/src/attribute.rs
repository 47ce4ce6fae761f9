//! Common attribute header parser: the base for walking the attributes of an
//! MFT entry.

use vstd::prelude::*;
use crate::le::{read_u16, read_u32, read_u64};

verus! {

pub const MIN_COMMON: usize = 16;
pub const MIN_RESIDENT: usize = 24;
pub const MIN_NONRESIDENT: usize = 0x40;
pub const END_MARKER: u32 = 0xFFFF_FFFF;

/// NTFS attribute type; unknown raw values are kept as `Unknown(raw)`.
#[derive(Debug, Clone, Copy, PartialEq, Eq, Structural)]
pub enum AttributeType {
    StandardInformation,
    AttributeList,
    FileName,
    ObjectId,
    SecurityDescriptor,
    VolumeName,
    VolumeInformation,
    Data,
    IndexRoot,
    IndexAllocation,
    Bitmap,
    ReparsePoint,
    EaInformation,
    Ea,
    LoggedUtilityStream,
    /// An attribute type this reader does not know (kept, not an error).
    Unknown(u32),
    /// The `0xFFFFFFFF` end marker.
    End,
}

/// The attribute type that a raw 32-bit type id names.
pub open spec fn spec_type_from_raw(v: u32) -> AttributeType {
    if v == 0x10 { AttributeType::StandardInformation }
    else if v == 0x20 { AttributeType::AttributeList }
    else if v == 0x30 { AttributeType::FileName }
    else if v == 0x40 { AttributeType::ObjectId }
    else if v == 0x50 { AttributeType::SecurityDescriptor }
    else if v == 0x60 { AttributeType::VolumeName }
    else if v == 0x70 { AttributeType::VolumeInformation }
    else if v == 0x80 { AttributeType::Data }
    else if v == 0x90 { AttributeType::IndexRoot }
    else if v == 0xA0 { AttributeType::IndexAllocation }
    else if v == 0xB0 { AttributeType::Bitmap }
    else if v == 0xC0 { AttributeType::ReparsePoint }
    else if v == 0xD0 { AttributeType::EaInformation }
    else if v == 0xE0 { AttributeType::Ea }
    else if v == 0x100 { AttributeType::LoggedUtilityStream }
    else if v == 0xFFFF_FFFF { AttributeType::End }
    else { AttributeType::Unknown(v) }
}

/// The raw 32-bit type id of an attribute type.
pub open spec fn spec_type_to_raw(t: AttributeType) -> u32 {
    match t {
        AttributeType::StandardInformation => 0x10,
        AttributeType::AttributeList => 0x20,
        AttributeType::FileName => 0x30,
        AttributeType::ObjectId => 0x40,
        AttributeType::SecurityDescriptor => 0x50,
        AttributeType::VolumeName => 0x60,
        AttributeType::VolumeInformation => 0x70,
        AttributeType::Data => 0x80,
        AttributeType::IndexRoot => 0x90,
        AttributeType::IndexAllocation => 0xA0,
        AttributeType::Bitmap => 0xB0,
        AttributeType::ReparsePoint => 0xC0,
        AttributeType::EaInformation => 0xD0,
        AttributeType::Ea => 0xE0,
        AttributeType::LoggedUtilityStream => 0x100,
        AttributeType::Unknown(v) => v,
        AttributeType::End => 0xFFFF_FFFF,
    }
}

impl AttributeType {
    /// Converts a raw 32-bit type id; unknown values become `Unknown(value)`.
    pub fn from_raw(value: u32) -> (r: Self)
        ensures
            r == spec_type_from_raw(value),
    {
        match value {
            0x10 => AttributeType::StandardInformation,
            0x20 => AttributeType::AttributeList,
            0x30 => AttributeType::FileName,
            0x40 => AttributeType::ObjectId,
            0x50 => AttributeType::SecurityDescriptor,
            0x60 => AttributeType::VolumeName,
            0x70 => AttributeType::VolumeInformation,
            0x80 => AttributeType::Data,
            0x90 => AttributeType::IndexRoot,
            0xA0 => AttributeType::IndexAllocation,
            0xB0 => AttributeType::Bitmap,
            0xC0 => AttributeType::ReparsePoint,
            0xD0 => AttributeType::EaInformation,
            0xE0 => AttributeType::Ea,
            0x100 => AttributeType::LoggedUtilityStream,
            0xFFFF_FFFF => AttributeType::End,
            other => AttributeType::Unknown(other),
        }
    }

    /// Converts back to the raw 32-bit type id.
    pub fn to_raw(&self) -> (r: u32)
        ensures
            r == spec_type_to_raw(*self),
    {
        match self {
            AttributeType::StandardInformation => 0x10,
            AttributeType::AttributeList => 0x20,
            AttributeType::FileName => 0x30,
            AttributeType::ObjectId => 0x40,
            AttributeType::SecurityDescriptor => 0x50,
            AttributeType::VolumeName => 0x60,
            AttributeType::VolumeInformation => 0x70,
            AttributeType::Data => 0x80,
            AttributeType::IndexRoot => 0x90,
            AttributeType::IndexAllocation => 0xA0,
            AttributeType::Bitmap => 0xB0,
            AttributeType::ReparsePoint => 0xC0,
            AttributeType::EaInformation => 0xD0,
            AttributeType::Ea => 0xE0,
            AttributeType::LoggedUtilityStream => 0x100,
            AttributeType::Unknown(v) => *v,
            AttributeType::End => 0xFFFF_FFFF,
        }
    }
}

/// Converting a raw type id to an attribute type and back gives the same id,
/// for every 32-bit value.
pub proof fn lemma_type_raw_roundtrip(v: u32)
    ensures
        spec_type_to_raw(spec_type_from_raw(v)) == v,
{
}

/// Every attribute type other than `Unknown` of a known id survives the trip
/// to its raw id and back.
pub proof fn lemma_type_roundtrip(t: AttributeType)
    requires
        !(t is Unknown) || spec_type_from_raw(t->Unknown_0) is Unknown,
    ensures
        spec_type_from_raw(spec_type_to_raw(t)) == t,
{
}

/// The first 16 bytes, common to every attribute.
#[derive(Debug, Clone)]
pub struct AttributeCommonHeader {
    pub attribute_type: AttributeType,
    pub length: u32,
    pub non_resident: bool,
    pub name_length: u8,
    pub name_offset: u16,
    pub flags: u16,
    pub attribute_id: u16,
}

/// The header part of a resident attribute (offset 0x10 on).
#[derive(Debug, Clone)]
pub struct ResidentInfo {
    pub content_size: u32,
    pub content_offset: u16,
    pub indexed: bool,
}

/// The header part of a non-resident attribute (offsets 0x10 to 0x40).
#[derive(Debug, Clone)]
pub struct NonResidentInfo {
    pub starting_vcn: u64,
    pub last_vcn: u64,
    pub runlist_offset: u16,
    pub compression_unit_size: u16,
    pub allocated_size: u64,
    pub real_size: u64,
    pub initialized_size: u64,
}

/// One attribute header: resident, non-resident, or the end marker.
#[derive(Debug, Clone)]
pub enum AttributeHeader {
    Resident { common: AttributeCommonHeader, resident: ResidentInfo },
    NonResident { common: AttributeCommonHeader, non_resident: NonResidentInfo },
    /// The `0xFFFFFFFF` end marker: attribute walking stops here.
    End,
}

impl AttributeHeader {
    /// The common header; `None` for `End`.
    pub open spec fn spec_common(&self) -> Option<AttributeCommonHeader> {
        match self {
            AttributeHeader::Resident { common, .. } => Some(*common),
            AttributeHeader::NonResident { common, .. } => Some(*common),
            AttributeHeader::End => None,
        }
    }

    /// Total length of the attribute (offset to the next one); 0 for `End`.
    pub open spec fn spec_length(&self) -> u32 {
        match self.spec_common() {
            Some(c) => c.length,
            None => 0,
        }
    }

    /// The attribute type; `End` for the end marker.
    pub open spec fn spec_attribute_type(&self) -> AttributeType {
        match self.spec_common() {
            Some(c) => c.attribute_type,
            None => AttributeType::End,
        }
    }

    /// The common header; `None` for `End`.
    pub fn common(&self) -> (r: Option<&AttributeCommonHeader>)
        ensures
            match r {
                Some(c) => self.spec_common() == Some(*c),
                None => self.spec_common() is None,
            },
    {
        match self {
            AttributeHeader::Resident { common, .. } => Some(common),
            AttributeHeader::NonResident { common, .. } => Some(common),
            AttributeHeader::End => None,
        }
    }

    /// Total length of the attribute; 0 for `End`.
    pub fn length(&self) -> (r: u32)
        ensures
            r == self.spec_length(),
    {
        match self.common() {
            Some(c) => c.length,
            None => 0,
        }
    }

    /// The attribute type; `AttributeType::End` for the end marker.
    pub fn attribute_type(&self) -> (r: AttributeType)
        ensures
            r == self.spec_attribute_type(),
    {
        match self.common() {
            Some(c) => c.attribute_type,
            None => AttributeType::End,
        }
    }

    /// Whether this is the end marker.
    pub fn is_end(&self) -> (r: bool)
        ensures
            r == (*self is End),
    {
        match self {
            AttributeHeader::End => true,
            _ => false,
        }
    }
}

/// Why an attribute header was rejected.
#[allow(inconsistent_fields)]
#[derive(Debug, Clone, PartialEq, Eq)]
pub enum AttributeError {
    BufferTooSmall { got: usize, need: usize },
    InvalidLength { length: u32 },
    InvalidNonResidentFlag { got: u8 },
}

pub open spec fn u16_at(b: Seq<u8>, o: int) -> u16 {
    crate::le::le_uint(b, o, 2) as u16
}

pub open spec fn u32_at(b: Seq<u8>, o: int) -> u32 {
    crate::le::le_uint(b, o, 4) as u32
}

pub open spec fn u64_at(b: Seq<u8>, o: int) -> u64 {
    crate::le::le_uint(b, o, 8) as u64
}

/// The attribute header that `b` starts with, as the format defines it.
pub open spec fn spec_parse_attribute_header(b: Seq<u8>) -> Result<AttributeHeader, AttributeError> {
    let too_small = |need: usize| AttributeError::BufferTooSmall { got: b.len() as usize, need };
    if b.len() < 4 {
        Err(too_small(4))
    } else if u32_at(b, 0) == 0xFFFF_FFFF {
        Ok(AttributeHeader::End)
    } else if b.len() < 16 {
        Err(too_small(16))
    } else if u32_at(b, 4) == 0 {
        Err(AttributeError::InvalidLength { length: 0 })
    } else if b[8] > 1 {
        Err(AttributeError::InvalidNonResidentFlag { got: b[8] })
    } else {
        let non_resident = b[8] == 1;
        let common = AttributeCommonHeader {
            attribute_type: spec_type_from_raw(u32_at(b, 0)),
            length: u32_at(b, 4),
            non_resident,
            name_length: b[9],
            name_offset: u16_at(b, 0x0A),
            flags: u16_at(b, 0x0C),
            attribute_id: u16_at(b, 0x0E),
        };
        if non_resident {
            if b.len() < 0x40 {
                Err(too_small(0x40))
            } else {
                Ok(AttributeHeader::NonResident {
                    common,
                    non_resident: NonResidentInfo {
                        starting_vcn: u64_at(b, 0x10),
                        last_vcn: u64_at(b, 0x18),
                        runlist_offset: u16_at(b, 0x20),
                        compression_unit_size: u16_at(b, 0x22),
                        allocated_size: u64_at(b, 0x28),
                        real_size: u64_at(b, 0x30),
                        initialized_size: u64_at(b, 0x38),
                    },
                })
            }
        } else if b.len() < 24 {
            Err(too_small(24))
        } else {
            Ok(AttributeHeader::Resident {
                common,
                resident: ResidentInfo {
                    content_size: u32_at(b, 0x10),
                    content_offset: u16_at(b, 0x14),
                    indexed: b[0x16] != 0,
                },
            })
        }
    }
}

/// A header that parses is either the end marker or has a positive length.
pub proof fn lemma_parsed_header_length(b: Seq<u8>)
    requires
        spec_parse_attribute_header(b) is Ok,
    ensures
        spec_parse_attribute_header(b)->Ok_0 is End || spec_parse_attribute_header(b)->Ok_0.spec_length() > 0,
{
}

/// Parses one attribute header; type id `0xFFFFFFFF` yields `End` at once.
pub fn parse_attribute_header(bytes: &[u8]) -> (r: Result<AttributeHeader, AttributeError>)
    ensures
        r == spec_parse_attribute_header(bytes@),
{
    if bytes.len() < 4 {
        return Err(AttributeError::BufferTooSmall { got: bytes.len(), need: 4 });
    }
    let type_id = read_u32(bytes, 0);
    if type_id == END_MARKER {
        return Ok(AttributeHeader::End);
    }
    if bytes.len() < MIN_COMMON {
        return Err(AttributeError::BufferTooSmall { got: bytes.len(), need: MIN_COMMON });
    }
    let length = read_u32(bytes, 0x04);
    if length == 0 {
        return Err(AttributeError::InvalidLength { length });
    }
    let flag = bytes[0x08];
    if flag > 1 {
        return Err(AttributeError::InvalidNonResidentFlag { got: flag });
    }
    let non_resident = flag == 1;
    let common = AttributeCommonHeader {
        attribute_type: AttributeType::from_raw(type_id),
        length,
        non_resident,
        name_length: bytes[0x09],
        name_offset: read_u16(bytes, 0x0A),
        flags: read_u16(bytes, 0x0C),
        attribute_id: read_u16(bytes, 0x0E),
    };
    let need = if non_resident { MIN_NONRESIDENT } else { MIN_RESIDENT };
    if bytes.len() < need {
        return Err(AttributeError::BufferTooSmall { got: bytes.len(), need });
    }
    if non_resident {
        Ok(AttributeHeader::NonResident {
            common,
            non_resident: NonResidentInfo {
                starting_vcn: read_u64(bytes, 0x10),
                last_vcn: read_u64(bytes, 0x18),
                runlist_offset: read_u16(bytes, 0x20),
                compression_unit_size: read_u16(bytes, 0x22),
                allocated_size: read_u64(bytes, 0x28),
                real_size: read_u64(bytes, 0x30),
                initialized_size: read_u64(bytes, 0x38),
            },
        })
    } else {
        Ok(AttributeHeader::Resident {
            common,
            resident: ResidentInfo {
                content_size: read_u32(bytes, 0x10),
                content_offset: read_u16(bytes, 0x14),
                indexed: bytes[0x16] != 0,
            },
        })
    }
}

} // verus!
