//! Update-sequence ("fixup") verification and restoration, shared by MFT
//! records and INDX blocks: the last two bytes of every sector hold the
//! update sequence number, and the real bytes are kept in the update
//! sequence array.

use vstd::prelude::*;
use crate::le::read_u16;

verus! {

/// Why a fixup could not be applied.
#[allow(inconsistent_fields)]
#[derive(Debug, Clone, PartialEq, Eq)]
pub enum FixupError {
    BufferTooSmall { got: usize, need: usize },
    InvalidUsaOffset { offset: u16 },
    InvalidUsaSize { size: u16 },
    FixupMismatch { sector: usize, expected: u16, got: u16 },
}

/// The little-endian `u16` at `o` of `b`.
pub open spec fn le16(b: Seq<u8>, o: int) -> u16 {
    crate::le::le_uint(b, o, 2) as u16
}

/// Restores the tail of sector `i`: its two last bytes take the fixup entry
/// `i` of the array at `usa_off` (one byte after the other, as written).
pub open spec fn restore_sector(b: Seq<u8>, usa_off: int, ss: int, i: int) -> Seq<u8> {
    let pos = ss * (i + 1) - 2;
    let fx = usa_off + 2 + i * 2;
    let b1 = b.update(pos, b[fx]);
    b1.update(pos + 1, b1[fx + 1])
}

/// The bytes and the first error after sectors `0..k` are processed in
/// order: each sector tail must hold `usn`, and is then restored.
pub open spec fn fixup_prefix(b: Seq<u8>, usn: u16, usa_off: int, ss: int, k: nat) -> (Seq<u8>, Option<FixupError>)
    decreases k,
{
    if k == 0 {
        (b, None)
    } else {
        let (b1, e) = fixup_prefix(b, usn, usa_off, ss, (k - 1) as nat);
        if e is Some {
            (b1, e)
        } else {
            let pos = ss * k - 2;
            let got = le16(b1, pos);
            if got != usn {
                (b1, Some(FixupError::FixupMismatch { sector: (k - 1) as usize, expected: usn, got }))
            } else {
                (restore_sector(b1, usa_off, ss, k - 1), None)
            }
        }
    }
}

/// The outcome of `apply_fixup` on `b`: the bytes afterwards, and the error if any.
pub open spec fn spec_apply_fixup(b: Seq<u8>, usa_offset: u16, usa_size: u16, sector_size: u16) -> (Seq<u8>, Option<FixupError>) {
    let need = usa_offset + 2 * usa_size;
    let sectors = usa_size - 1;
    let span = sectors * sector_size;
    if usa_size == 0 {
        (b, Some(FixupError::InvalidUsaSize { size: usa_size }))
    } else if need > b.len() {
        (b, Some(FixupError::BufferTooSmall { got: b.len() as usize, need: need as usize }))
    } else if sector_size < 2 {
        (b, Some(FixupError::InvalidUsaSize { size: usa_size }))
    } else if span > b.len() {
        (b, Some(FixupError::BufferTooSmall { got: b.len() as usize, need: span as usize }))
    } else {
        fixup_prefix(b, le16(b, usa_offset as int), usa_offset as int, sector_size as int, sectors as nat)
    }
}

proof fn lemma_fixup_prefix_len(b: Seq<u8>, usn: u16, usa_off: int, ss: int, k: nat)
    requires
        ss >= 2,
        ss * k <= b.len(),
        usa_off >= 0,
        usa_off + 2 + 2 * k <= b.len(),
    ensures
        fixup_prefix(b, usn, usa_off, ss, k).0.len() == b.len(),
    decreases k,
{
    if k > 0 {
        assert(ss * (k - 1) <= ss * k && ss * k >= 2) by (nonlinear_arith)
            requires ss >= 2, k >= 1;
        lemma_fixup_prefix_len(b, usn, usa_off, ss, (k - 1) as nat);
    }
}

/// The fixup never changes the length of the record.
pub proof fn lemma_fixup_len(b: Seq<u8>, usa_offset: u16, usa_size: u16, sector_size: u16)
    ensures
        spec_apply_fixup(b, usa_offset, usa_size, sector_size).0.len() == b.len(),
{
    let need = usa_offset + 2 * usa_size;
    let sectors = usa_size - 1;
    let span = sectors * sector_size;
    if usa_size != 0 && need <= b.len() && sector_size >= 2 && span <= b.len() {
        assert(sector_size * sectors == span) by (nonlinear_arith)
            requires span == sectors * sector_size;
        lemma_fixup_prefix_len(b, le16(b, usa_offset as int), usa_offset as int, sector_size as int, sectors as nat);
    }
}

proof fn lemma_fixup_error_persists(b: Seq<u8>, usn: u16, usa_off: int, ss: int, k: nat, m: nat)
    requires
        k <= m,
        fixup_prefix(b, usn, usa_off, ss, k).1 is Some,
    ensures
        fixup_prefix(b, usn, usa_off, ss, m) == fixup_prefix(b, usn, usa_off, ss, k),
    decreases m,
{
    if k < m {
        lemma_fixup_error_persists(b, usn, usa_off, ss, k, (m - 1) as nat);
    }
}

/// Checks and restores the update sequence of a record in place.
///
/// Every sector tail (`sector_size * (i + 1) - 2`, for `i` below
/// `usa_size - 1`) must hold the update sequence number stored at
/// `usa_offset`; each is then replaced by its entry of the update sequence
/// array. Checks specific to a record kind are the caller's.
pub fn apply_fixup(bytes: &mut [u8], usa_offset: u16, usa_size: u16, sector_size: u16) -> (r: Result<(), FixupError>)
    ensures
        ({
            let (b, e) = spec_apply_fixup(old(bytes)@, usa_offset, usa_size, sector_size);
            &&& final(bytes)@ == b
            &&& match e {
                None => r is Ok,
                Some(err) => r == Err::<(), FixupError>(err),
            }
        }),
{
    if usa_size == 0 {
        return Err(FixupError::InvalidUsaSize { size: usa_size });
    }
    let usa_off = usa_offset as usize;
    let usa_bytes = (usa_size as usize) * 2;
    let need = usa_off + usa_bytes;
    if need > bytes.len() {
        return Err(FixupError::BufferTooSmall { got: bytes.len(), need });
    }
    let usn = read_u16(bytes, usa_off);
    let sectors = (usa_size as usize) - 1;
    let ss = sector_size as usize;
    if ss < 2 {
        return Err(FixupError::InvalidUsaSize { size: usa_size });
    }
    assert(sectors * ss <= 65535 * 65535) by (nonlinear_arith)
        requires sectors <= 65535, ss <= 65535;
    let span = sectors as u64 * ss as u64;
    if span > bytes.len() as u64 {
        return Err(FixupError::BufferTooSmall { got: bytes.len(), need: span as usize });
    }
    let span = span as usize;
    assert((usa_size - 1) * sector_size == span);
    let ghost b0 = bytes@;
    let len = bytes.len();
    assert(bytes@.len() == old(bytes)@.len());
    assert(spec_apply_fixup(b0, usa_offset, usa_size, sector_size) == fixup_prefix(b0, usn, usa_off as int, ss as int, sectors as nat));
    let mut i: usize = 0;
    while i < sectors
        invariant
            spec_apply_fixup(b0, usa_offset, usa_size, sector_size) == fixup_prefix(b0, usn, usa_off as int, ss as int, sectors as nat),
            b0 == old(bytes)@,
            len == b0.len(),
            bytes@.len() == len,
            2 <= ss <= 65535,
            sectors * ss == span,
            span <= len,
            usa_off + 2 * (sectors + 1) <= len,
            usn == le16(b0, usa_off as int),
            i <= sectors,
            fixup_prefix(b0, usn, usa_off as int, ss as int, i as nat) == (bytes@, None::<FixupError>),
        decreases sectors - i,
    {
        assert(ss * (i + 1) <= sectors * ss) by (nonlinear_arith)
            requires i < sectors, ss >= 2;
        assert(ss * (i + 1) >= 2) by (nonlinear_arith)
            requires ss >= 2, i >= 0;
        let pos = ss * (i + 1) - 2;
        let got = read_u16(bytes, pos);
        if got != usn {
            proof {
                assert(((i + 1) as nat - 1) as nat == i as nat);
                assert(ss * (i + 1) - 2 == pos);
                assert(fixup_prefix(b0, usn, usa_off as int, ss as int, (i + 1) as nat) == (bytes@, Some(FixupError::FixupMismatch { sector: i, expected: usn, got })));
                lemma_fixup_error_persists(b0, usn, usa_off as int, ss as int, (i + 1) as nat, sectors as nat);
            }
            return Err(FixupError::FixupMismatch { sector: i, expected: usn, got });
        }
        assert(usa_off + 2 + i * 2 + 1 < len);
        let fx_off = usa_off + 2 + i * 2;
        let v0 = bytes[fx_off];
        bytes[pos] = v0;
        let v1 = bytes[fx_off + 1];
        bytes[pos + 1] = v1;
        proof {
            assert(((i + 1) as nat - 1) as nat == i as nat);
            assert(bytes@ == restore_sector(fixup_prefix(b0, usn, usa_off as int, ss as int, i as nat).0, usa_off as int, ss as int, i as int));
        }
        i = i + 1;
    }
    Ok(())
}

} // verus!
