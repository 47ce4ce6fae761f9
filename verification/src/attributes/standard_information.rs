//! `$STANDARD_INFORMATION` (type 0x10) content parser: the four FILETIME
//! stamps, the DOS attribute bits and the fields added by Windows 2000.

use vstd::prelude::*;
use crate::time::UtcTime;
use crate::le::{read_u32, read_u64};

verus! {

pub const MIN_SIZE: usize = 48;
/// Seconds from 1601-01-01 to 1970-01-01.
pub const FILETIME_EPOCH_DIFF_SECS: i64 = 11_644_473_600;

/// A FILETIME: 100-nanosecond ticks since 1601-01-01 UTC.
#[derive(Debug, Clone, Copy, PartialEq, Eq, Structural)]
pub struct FileTime(pub u64);

/// The Unix seconds and nanoseconds of a FILETIME; `None` beyond `i64::MAX` ticks.
pub open spec fn filetime_unix_parts(ticks: u64) -> Option<(i64, u32)> {
    if ticks > i64::MAX {
        None
    } else {
        Some(((ticks / 10_000_000 - FILETIME_EPOCH_DIFF_SECS) as i64, ((ticks % 10_000_000) * 100) as u32))
    }
}

impl FileTime {
    /// The UTC date of this FILETIME; `None` when it is out of range.
    pub fn to_datetime(&self) -> (r: Option<UtcTime>)
        ensures
            r is Some <==> (filetime_unix_parts(self.0) matches Some((secs, nsecs))
                && crate::time::chrono_accepts(secs, nsecs)),
            r matches Some(t) ==> filetime_unix_parts(self.0) == Some((t.secs(), t.nanos())),
    {
        if self.0 > 0x7FFF_FFFF_FFFF_FFFFu64 {
            return None;
        }
        let total = self.0;
        let secs: i64 = (total / 10_000_000) as i64 - FILETIME_EPOCH_DIFF_SECS;
        let nanos: u32 = ((total % 10_000_000) * 100) as u32;
        UtcTime::from_timestamp(secs, nanos)
    }
}

/// DOS file attribute bits.
#[derive(Debug, Clone, Copy)]
pub struct FileAttributes(pub u32);

impl FileAttributes {
    pub const READ_ONLY: u32 = 0x0001;
    pub const HIDDEN: u32 = 0x0002;
    pub const SYSTEM: u32 = 0x0004;
    pub const ARCHIVE: u32 = 0x0020;
    pub const DEVICE: u32 = 0x0040;
    pub const NORMAL: u32 = 0x0080;
    pub const TEMPORARY: u32 = 0x0100;
    pub const SPARSE_FILE: u32 = 0x0200;
    pub const REPARSE_POINT: u32 = 0x0400;
    pub const COMPRESSED: u32 = 0x0800;
    pub const OFFLINE: u32 = 0x1000;
    pub const NOT_CONTENT_INDEXED: u32 = 0x2000;
    pub const ENCRYPTED: u32 = 0x4000;
    pub const DIRECTORY: u32 = 0x1000_0000;

    pub fn is_read_only(&self) -> (r: bool)
        ensures
            r == (self.0 & 0x0001 != 0),
    {
        self.0 & Self::READ_ONLY != 0
    }

    pub fn is_hidden(&self) -> (r: bool)
        ensures
            r == (self.0 & 0x0002 != 0),
    {
        self.0 & Self::HIDDEN != 0
    }

    pub fn is_system(&self) -> (r: bool)
        ensures
            r == (self.0 & 0x0004 != 0),
    {
        self.0 & Self::SYSTEM != 0
    }

    pub fn is_archive(&self) -> (r: bool)
        ensures
            r == (self.0 & 0x0020 != 0),
    {
        self.0 & Self::ARCHIVE != 0
    }

    pub fn is_device(&self) -> (r: bool)
        ensures
            r == (self.0 & 0x0040 != 0),
    {
        self.0 & Self::DEVICE != 0
    }

    pub fn is_normal(&self) -> (r: bool)
        ensures
            r == (self.0 & 0x0080 != 0),
    {
        self.0 & Self::NORMAL != 0
    }

    pub fn is_temporary(&self) -> (r: bool)
        ensures
            r == (self.0 & 0x0100 != 0),
    {
        self.0 & Self::TEMPORARY != 0
    }

    pub fn is_sparse_file(&self) -> (r: bool)
        ensures
            r == (self.0 & 0x0200 != 0),
    {
        self.0 & Self::SPARSE_FILE != 0
    }

    pub fn is_reparse_point(&self) -> (r: bool)
        ensures
            r == (self.0 & 0x0400 != 0),
    {
        self.0 & Self::REPARSE_POINT != 0
    }

    pub fn is_compressed(&self) -> (r: bool)
        ensures
            r == (self.0 & 0x0800 != 0),
    {
        self.0 & Self::COMPRESSED != 0
    }

    pub fn is_offline(&self) -> (r: bool)
        ensures
            r == (self.0 & 0x1000 != 0),
    {
        self.0 & Self::OFFLINE != 0
    }

    pub fn is_not_content_indexed(&self) -> (r: bool)
        ensures
            r == (self.0 & 0x2000 != 0),
    {
        self.0 & Self::NOT_CONTENT_INDEXED != 0
    }

    pub fn is_encrypted(&self) -> (r: bool)
        ensures
            r == (self.0 & 0x4000 != 0),
    {
        self.0 & Self::ENCRYPTED != 0
    }

    pub fn is_directory(&self) -> (r: bool)
        ensures
            r == (self.0 & 0x1000_0000 != 0),
    {
        self.0 & Self::DIRECTORY != 0
    }
}

/// The content of a `$STANDARD_INFORMATION` attribute; the `Option` fields are
/// present only in the longer Windows 2000 layout.
#[derive(Debug, Clone)]
pub struct StandardInformation {
    pub created: FileTime,
    pub modified: FileTime,
    pub mft_modified: FileTime,
    pub accessed: FileTime,
    pub file_attributes: FileAttributes,
    pub max_versions: u32,
    pub version_number: u32,
    pub class_id: u32,
    pub owner_id: Option<u32>,
    pub security_id: Option<u32>,
    pub quota_charged: Option<u64>,
    pub usn: Option<u64>,
}

#[derive(Debug, Clone, PartialEq, Eq)]
pub enum SiError {
    BufferTooSmall { got: usize },
}

pub open spec fn u32_at(b: Seq<u8>, o: int) -> u32 {
    crate::le::le_uint(b, o, 4) as u32
}

pub open spec fn u64_at(b: Seq<u8>, o: int) -> u64 {
    crate::le::le_uint(b, o, 8) as u64
}

/// The `$STANDARD_INFORMATION` content `b` holds: each optional field is
/// present when `b` is long enough to hold it.
pub open spec fn spec_standard_information(b: Seq<u8>) -> StandardInformation {
    StandardInformation {
        created: FileTime(u64_at(b, 0x00)),
        modified: FileTime(u64_at(b, 0x08)),
        mft_modified: FileTime(u64_at(b, 0x10)),
        accessed: FileTime(u64_at(b, 0x18)),
        file_attributes: FileAttributes(u32_at(b, 0x20)),
        max_versions: u32_at(b, 0x24),
        version_number: u32_at(b, 0x28),
        class_id: u32_at(b, 0x2C),
        owner_id: if b.len() >= 0x34 { Some(u32_at(b, 0x30)) } else { None },
        security_id: if b.len() >= 0x38 { Some(u32_at(b, 0x34)) } else { None },
        quota_charged: if b.len() >= 0x40 { Some(u64_at(b, 0x38)) } else { None },
        usn: if b.len() >= 0x48 { Some(u64_at(b, 0x40)) } else { None },
    }
}

/// Parses the content (header excluded) of a `$STANDARD_INFORMATION` attribute.
pub fn parse_standard_information(bytes: &[u8]) -> (r: Result<StandardInformation, SiError>)
    ensures
        bytes@.len() < 48 ==> r == Err::<StandardInformation, SiError>(SiError::BufferTooSmall { got: bytes@.len() as usize }),
        bytes@.len() >= 48 ==> r == Ok::<StandardInformation, SiError>(spec_standard_information(bytes@)),
{
    let n = bytes.len();
    if n < MIN_SIZE {
        return Err(SiError::BufferTooSmall { got: n });
    }
    Ok(StandardInformation {
        created: FileTime(read_u64(bytes, 0x00)),
        modified: FileTime(read_u64(bytes, 0x08)),
        mft_modified: FileTime(read_u64(bytes, 0x10)),
        accessed: FileTime(read_u64(bytes, 0x18)),
        file_attributes: FileAttributes(read_u32(bytes, 0x20)),
        max_versions: read_u32(bytes, 0x24),
        version_number: read_u32(bytes, 0x28),
        class_id: read_u32(bytes, 0x2C),
        owner_id: if n >= 0x34 { Some(read_u32(bytes, 0x30)) } else { None },
        security_id: if n >= 0x38 { Some(read_u32(bytes, 0x34)) } else { None },
        quota_charged: if n >= 0x40 { Some(read_u64(bytes, 0x38)) } else { None },
        usn: if n >= 0x48 { Some(read_u64(bytes, 0x40)) } else { None },
    })
}

} // verus!
