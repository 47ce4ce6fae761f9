//! NTFS boot sector (VBR) parser: the first 512 bytes of a volume locate
//! `$MFT` and give the cluster and record geometry.

use vstd::prelude::*;
use crate::le::{read_u16, read_u64};

verus! {

pub const BOOT_SECTOR_SIZE: usize = 512;
pub const BOOT_SIGNATURE: u16 = 0xAA55;
pub const MAX_BYTES_PER_SECTOR: u16 = 4096;

/// A parsed NTFS boot sector; every field is read little-endian.
#[derive(Debug, Clone, PartialEq, Eq)]
pub struct BootSector {
    pub bytes_per_sector: u16,
    pub sectors_per_cluster: u8,
    pub media_descriptor: u8,
    pub total_sectors: u64,
    pub mft_lcn: u64,
    pub mft_mirror_lcn: u64,
    /// Clusters per MFT record; a negative value `v` means `2^(-v)` bytes.
    pub clusters_per_mft_record: i8,
    pub clusters_per_index_record: i8,
    pub volume_serial: u64,
}

/// Why a boot sector was rejected; `got` is the value actually read.
#[allow(inconsistent_fields)]
#[derive(Debug, Clone, PartialEq, Eq)]
pub enum BootSectorError {
    BufferTooSmall { got: usize },
    InvalidOemId { got: [u8; 8] },
    InvalidSignature { got: u16 },
    InvalidBytesPerSector { got: u16 },
    InvalidSectorsPerCluster { got: u8 },
}

/// The OEM id `"NTFS    "` as bytes.
pub open spec fn ntfs_oem_id() -> Seq<u8> {
    seq![0x4Eu8, 0x54u8, 0x46u8, 0x53u8, 0x20u8, 0x20u8, 0x20u8, 0x20u8]
}

/// The boot sector that the first 512 bytes of `b` describe, field by field.
pub open spec fn boot_sector_fields(b: Seq<u8>) -> BootSector {
    BootSector {
        bytes_per_sector: crate::le::le_uint(b, 0x0B, 2) as u16,
        sectors_per_cluster: b[0x0D],
        media_descriptor: b[0x15],
        total_sectors: crate::le::le_uint(b, 0x28, 8) as u64,
        mft_lcn: crate::le::le_uint(b, 0x30, 8) as u64,
        mft_mirror_lcn: crate::le::le_uint(b, 0x38, 8) as u64,
        clusters_per_mft_record: b[0x40] as i8,
        clusters_per_index_record: b[0x44] as i8,
        volume_serial: crate::le::le_uint(b, 0x48, 8) as u64,
    }
}

/// The outcome of parsing `b` as a boot sector: the checks in the order the
/// format is validated, then the decoded fields.
pub open spec fn spec_parse_boot_sector(b: Seq<u8>) -> Result<BootSector, BootSectorError> {
    if b.len() < 512 {
        Err(BootSectorError::BufferTooSmall { got: b.len() as usize })
    } else if b.subrange(3, 11) != ntfs_oem_id() {
        Err(BootSectorError::InvalidOemId { got: arbitrary() })
    } else if crate::le::le_uint(b, 0x1FE, 2) != 0xAA55 {
        Err(BootSectorError::InvalidSignature { got: crate::le::le_uint(b, 0x1FE, 2) as u16 })
    } else if crate::le::le_uint(b, 0x0B, 2) == 0 || crate::le::le_uint(b, 0x0B, 2) > 4096 {
        Err(BootSectorError::InvalidBytesPerSector { got: crate::le::le_uint(b, 0x0B, 2) as u16 })
    } else if b[0x0D] == 0 {
        Err(BootSectorError::InvalidSectorsPerCluster { got: b[0x0D] })
    } else {
        Ok(boot_sector_fields(b))
    }
}

/// Parses the first 512 bytes of `bytes` as an NTFS boot sector.
pub fn parse_boot_sector(bytes: &[u8]) -> (r: Result<BootSector, BootSectorError>)
    ensures
        match (r, spec_parse_boot_sector(bytes@)) {
            (Err(BootSectorError::InvalidOemId { got }), Err(BootSectorError::InvalidOemId { .. })) =>
                got@ == bytes@.subrange(3, 11),
            (x, y) => x == y,
        },
{
    if bytes.len() < BOOT_SECTOR_SIZE {
        return Err(BootSectorError::BufferTooSmall { got: bytes.len() });
    }
    let oem: [u8; 8] = [bytes[3], bytes[4], bytes[5], bytes[6], bytes[7], bytes[8], bytes[9], bytes[10]];
    if !(oem[0] == 0x4E && oem[1] == 0x54 && oem[2] == 0x46 && oem[3] == 0x53 && oem[4] == 0x20
        && oem[5] == 0x20 && oem[6] == 0x20 && oem[7] == 0x20) {
        proof {
            assert(oem@ =~= bytes@.subrange(3, 11));
            if bytes@.subrange(3, 11) == ntfs_oem_id() {
                assert(bytes@.subrange(3, 11)[0] == ntfs_oem_id()[0]);
                assert(bytes@.subrange(3, 11)[7] == ntfs_oem_id()[7]);
            }
        }
        return Err(BootSectorError::InvalidOemId { got: oem });
    }
    assert(bytes@.subrange(3, 11) =~= ntfs_oem_id());
    let signature = read_u16(bytes, 0x1FE);
    if signature != BOOT_SIGNATURE {
        return Err(BootSectorError::InvalidSignature { got: signature });
    }
    let bytes_per_sector = read_u16(bytes, 0x0B);
    if bytes_per_sector == 0 || bytes_per_sector > MAX_BYTES_PER_SECTOR {
        return Err(BootSectorError::InvalidBytesPerSector { got: bytes_per_sector });
    }
    let sectors_per_cluster = bytes[0x0D];
    if sectors_per_cluster == 0 {
        return Err(BootSectorError::InvalidSectorsPerCluster { got: sectors_per_cluster });
    }
    Ok(BootSector {
        bytes_per_sector,
        sectors_per_cluster,
        media_descriptor: bytes[0x15],
        total_sectors: read_u64(bytes, 0x28),
        mft_lcn: read_u64(bytes, 0x30),
        mft_mirror_lcn: read_u64(bytes, 0x38),
        clusters_per_mft_record: bytes[0x40] as i8,
        clusters_per_index_record: bytes[0x44] as i8,
        volume_serial: read_u64(bytes, 0x48),
    })
}

impl BootSector {
    /// Cluster size in bytes: `bytes_per_sector * sectors_per_cluster`.
    pub open spec fn spec_cluster_size(&self) -> nat {
        self.bytes_per_sector as nat * self.sectors_per_cluster as nat
    }

    /// MFT record size in bytes: `v * cluster size` for `v >= 0`, else `2^min(-v, 31)`.
    pub open spec fn spec_mft_record_size(&self) -> nat {
        let raw = self.clusters_per_mft_record as int;
        if raw >= 0 {
            (raw * self.spec_cluster_size()) as nat
        } else {
            vstd::arithmetic::power2::pow2(if -raw < 31 { (-raw) as nat } else { 31 })
        }
    }

    /// Cluster size in bytes.
    pub fn cluster_size_bytes(&self) -> (r: u32)
        ensures
            r as nat == self.spec_cluster_size(),
            r <= 65535 * 255,
    {
        assert(self.bytes_per_sector as nat * self.sectors_per_cluster as nat <= 65535 * 255)
            by (nonlinear_arith)
            requires
                self.bytes_per_sector <= 65535,
                self.sectors_per_cluster <= 255,
        ;
        (self.bytes_per_sector as u32) * (self.sectors_per_cluster as u32)
    }

    /// MFT record size in bytes; a negative encoding `v` means `1 << min(-v, 31)`.
    pub fn mft_record_size_bytes(&self) -> (r: u32)
        ensures
            r as nat == self.spec_mft_record_size(),
    {
        let raw = self.clusters_per_mft_record;
        if raw >= 0 {
            let c = self.cluster_size_bytes();
            assert((raw as nat) * (c as nat) <= 127 * (65535 * 255)) by (nonlinear_arith)
                requires
                    0 <= raw <= 127,
                    c <= 65535 * 255,
            ;
            (raw as u32) * c
        } else {
            let neg: i32 = -(raw as i32);
            let shift: u32 = if neg < 31 { neg as u32 } else { 31 };
            proof {
                vstd::bits::lemma_u32_pow2_no_overflow(shift as nat);
                vstd::bits::lemma_u32_shl_is_mul(1, shift);
            }
            1u32 << shift
        }
    }

    /// Byte offset of `$MFT`: `mft_lcn * cluster size`.
    pub fn mft_byte_offset(&self) -> (r: u64)
        requires
            self.mft_lcn * self.spec_cluster_size() <= u64::MAX,
        ensures
            r == self.mft_lcn * self.spec_cluster_size(),
    {
        self.mft_lcn * (self.cluster_size_bytes() as u64)
    }
}

} // verus!
