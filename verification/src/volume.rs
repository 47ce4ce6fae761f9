//! High-level access to an NTFS volume: the boot sector and `$MFT` are read at
//! `open`, after which any MFT record can be read and directories listed. All
//! disk access goes through a `read_clusters(lcn, count)` closure.

use vstd::prelude::*;
use crate::attribute::{AttributeError, AttributeHeader, AttributeType};
use crate::attributes::file_name::{FileName, FileNameView, MftReference};
use crate::attributes::{find_attribute, slice_subrange, spec_find};
use crate::attributes::runlist::{parse_runlist, spec_parse_runlist, total_bytes, sat_mul, Run, RunlistError};
use crate::attributes::index::{
    parse_entries_in_node, parse_index_root, parse_indx_block, entries_from, entries_of, spec_node_header, IndexEntry, IndexEntryView,
    IndexError, MAGIC,
};
use crate::fixup::spec_apply_fixup;
use crate::mft::u16_at;
use crate::boot_sector::{parse_boot_sector, spec_parse_boot_sector, BootSector, BootSectorError};
use crate::mft::{parse_mft_entry, spec_parse_mft_entry, MftEntry, MftError};

verus! {

/// Deepest B+ tree level that a directory walk descends to.
pub const MAX_BTREE_DEPTH: u32 = 32;

/// Builds the `UnexpectedEof` I/O error reported for a short read.
#[verifier::external_body]
fn short_read(what: &str) -> std::io::Error {
    std::io::Error::new(std::io::ErrorKind::UnexpectedEof, what.to_string())
}

#[allow(inconsistent_fields)]
#[derive(Debug)]
pub enum VolumeError {
    BootSector(BootSectorError),
    Mft(MftError),
    Attribute(AttributeError),
    Runlist(RunlistError),
    Io(std::io::Error),
    /// `$MFT` record 0 has no `$DATA` attribute.
    NoMftDataAttribute,
    /// The `$DATA` of `$MFT` is resident.
    MftDataMustBeNonResident,
    /// The runlist of `$MFT` holds a sparse run.
    SparseMftRun,
    RecordIndexOutOfRange { index: u64, total: u64 },
    /// The first cluster read is shorter than a boot sector.
    BootSectorBufferTooSmall { got: usize },
    /// The record has no `$INDEX_ROOT`.
    NotADirectory { record_index: u64 },
    IndexRootNotResident,
    /// A node has children but the record has no `$INDEX_ALLOCATION`.
    IndexAllocationMissing,
    IndexAllocationNotNonResident,
    IndexVcnOutOfRange { virtual_offset: u64 },
    BtreeTooDeep { depth: u32 },
    PathDepthExceeded { record_index: u64, depth: u32 },
    NoFileName { record_index: u64 },
    Index(IndexError),
}

/// One entry of a directory, as its index lists it (live files only).
#[derive(Debug, Clone)]
pub struct DirectoryListing {
    pub child_ref: MftReference,
    pub file_name: FileName,
}

impl DirectoryListing {
    /// Whether the entry is a directory, by the attribute bits of its `$FILE_NAME`.
    pub fn is_directory(&self) -> (r: bool)
        ensures
            r == (self.file_name.file_attributes.0 & 0x1000_0000 != 0),
    {
        self.file_name.file_attributes.is_directory()
    }

    /// The entry's name.
    pub fn name(&self) -> (r: &str)
        ensures
            r@ == self.file_name.filename@,
    {
        self.file_name.filename.as_str()
    }
}

/// Whether `read_clusters` may be called with any arguments.
pub open spec fn reader_ready<F: FnMut(u64, u64) -> Result<Vec<u8>, std::io::Error>>(f: F) -> bool {
    forall|lcn: u64, count: u64| call_requires(f, (lcn, count))
}

/// `data` is what `f` can hand back for `(lcn, count)`.
pub open spec fn reads<F: FnMut(u64, u64) -> Result<Vec<u8>, std::io::Error>>(f: F, lcn: u64, count: u64, data: Seq<u8>) -> bool {
    exists|v: Vec<u8>| #[trigger] call_ensures(f, (lcn, count), Ok::<Vec<u8>, std::io::Error>(v)) && v@ == data
}

/// `ceil(a / b)`.
pub open spec fn div_ceil(a: int, b: int) -> int {
    (a + b - 1) / b
}

/// The number of whole records in `total` bytes, counting no more bytes than
/// `u64::MAX`.
pub open spec fn records_in(total: int, record_size: int) -> u64 {
    ((if total > u64::MAX { u64::MAX as int } else { total }) / record_size) as u64
}

/// Where the byte at virtual offset `vo` of the runs lies: its cluster and the
/// offset inside that cluster; `None` past the end or inside a sparse run.
pub open spec fn locate(runs: Seq<Run>, cs: u64, vo: int) -> Option<(int, int)>
    decreases runs.len(),
{
    if runs.len() == 0 {
        None
    } else {
        let first = runs[0];
        let len = sat_mul(first.length_clusters, cs) as int;
        if vo < len {
            match first.lcn {
                Some(l) => Some((l + vo / cs as int, vo % cs as int)),
                None => None,
            }
        } else {
            locate(runs.subrange(1, runs.len() as int), cs, vo - len)
        }
    }
}

/// Whether `vo` lies in a run with an LCN, at a cluster number that fits 64 bits.
pub open spec fn located(runs: Seq<Run>, cs: u64, vo: int) -> bool {
    locate(runs, cs, vo) matches Some((l, _)) && l <= u64::MAX
}

/// Whether `vo` falls inside a sparse run (rather than past the end).
pub open spec fn in_sparse(runs: Seq<Run>, cs: u64, vo: int) -> bool
    decreases runs.len(),
{
    if runs.len() == 0 {
        false
    } else {
        let len = sat_mul(runs[0].length_clusters, cs) as int;
        if vo < len {
            runs[0].lcn is None
        } else {
            in_sparse(runs.subrange(1, runs.len() as int), cs, vo - len)
        }
    }
}

/// The `$MFT` runlist that record 0 of `$MFT` gives: its first `$DATA`
/// attribute must be non-resident and its runlist must decode.
pub open spec fn spec_mft_runlist(e: MftEntry) -> Option<Seq<Run>> {
    match spec_find(e.data@, e.header.first_attribute_offset as int, AttributeType::Data) {
        Some((h, off)) => match h {
            AttributeHeader::NonResident { non_resident, .. } => {
                let ro = non_resident.runlist_offset as int;
                if ro >= h.spec_length() {
                    None
                } else {
                    match spec_parse_runlist(e.data@.subrange(off + ro, off + h.spec_length())) {
                        Ok(runs) => Some(runs),
                        Err(_) => None,
                    }
                }
            },
            _ => None,
        },
        None => None,
    }
}

/// Why `$MFT` record 0 read as `e` yields no runlist: no `$DATA`, a resident
/// `$DATA`, a runlist offset at or past the attribute's end, or a runlist
/// that does not parse (with that error).
pub open spec fn mft_runs_error(e: MftEntry, x: VolumeError) -> bool {
    match spec_find(e.data@, e.header.first_attribute_offset as int, AttributeType::Data) {
        None => x == VolumeError::NoMftDataAttribute,
        Some((h, off)) => match h {
            AttributeHeader::NonResident { non_resident, .. } => {
                let ro = non_resident.runlist_offset as int;
                if ro >= h.spec_length() {
                    x == VolumeError::Runlist(RunlistError::BufferTooSmall { got: h.spec_length() as usize })
                } else {
                    match spec_parse_runlist(e.data@.subrange(off + ro, off + h.spec_length())) {
                        Ok(_) => false,
                        Err(re) => x == VolumeError::Runlist(re),
                    }
                }
            },
            _ => x == VolumeError::MftDataMustBeNonResident,
        },
    }
}

/// The runlist of `$MFT` read from its record 0.
fn mft_runs_of(rec0: &MftEntry) -> (r: Result<Vec<Run>, VolumeError>)
    ensures
        match spec_mft_runlist(*rec0) {
            Some(runs) => r matches Ok(v) && v@ == runs,
            None => r is Err,
        },
        r matches Err(x) ==> mft_runs_error(*rec0, x),
{
    let data_attr = match find_attribute(rec0.data.as_slice(), rec0.header.first_attribute_offset as usize, AttributeType::Data) {
        Some(a) => a,
        None => {
            return Err(VolumeError::NoMftDataAttribute);
        },
    };
    proof {
        crate::attributes::lemma_find_in_bounds(rec0.data@, rec0.header.first_attribute_offset as int, AttributeType::Data);
    }
    let runlist_off = match &data_attr.header {
        AttributeHeader::NonResident { non_resident, .. } => non_resident.runlist_offset as usize,
        _ => {
            return Err(VolumeError::MftDataMustBeNonResident);
        },
    };
    let alen = data_attr.raw.len();
    if runlist_off >= alen {
        return Err(VolumeError::Runlist(RunlistError::BufferTooSmall { got: alen }));
    }
    proof {
        let off = data_attr.offset_in_entry as int;
        assert(data_attr.raw@.subrange(runlist_off as int, alen as int)
            =~= rec0.data@.subrange(off + runlist_off, off + data_attr.header.spec_length()));
    }
    match parse_runlist(slice_subrange(data_attr.raw, runlist_off, alen)) {
        Ok(r) => Ok(r),
        Err(e) => Err(VolumeError::Runlist(e)),
    }
}

/// The listing item of one index entry: its reference and name, when the
/// entry is not the node's last and carries a name.
pub open spec fn leaf_item(e: IndexEntryView) -> Seq<(MftReference, FileNameView)> {
    if e.flags & 0x02 == 0 && e.file_name is Some {
        seq![(e.child_ref, e.file_name->Some_0)]
    } else {
        Seq::empty()
    }
}

/// The listing of a node whose entries have no children.
pub open spec fn leaf_listing(es: Seq<IndexEntryView>) -> Seq<(MftReference, FileNameView)>
    decreases es.len(),
{
    if es.len() == 0 {
        Seq::empty()
    } else {
        leaf_listing(es.drop_last()) + leaf_item(es.last())
    }
}

/// The runs of a directory's `$INDEX_ALLOCATION`, or why the entry has none
/// usable: no such attribute, a resident one, a runlist offset past its end,
/// or a runlist that does not decode.
pub open spec fn index_alloc_runs(e: MftEntry) -> Result<Seq<Run>, VolumeError> {
    match spec_find(e.data@, e.header.first_attribute_offset as int, AttributeType::IndexAllocation) {
        None => Err(VolumeError::IndexAllocationMissing),
        Some((h, off)) => match h {
            AttributeHeader::NonResident { non_resident, .. } => {
                let ro = non_resident.runlist_offset as int;
                if ro >= h.spec_length() {
                    Err(VolumeError::Runlist(RunlistError::BufferTooSmall { got: h.spec_length() as usize }))
                } else {
                    match spec_parse_runlist(e.data@.subrange(off + ro, off + h.spec_length())) {
                        Ok(runs) => Ok(runs),
                        Err(x) => Err(VolumeError::Runlist(x)),
                    }
                }
            },
            _ => Err(VolumeError::IndexAllocationNotNonResident),
        },
    }
}

/// `old` is the start of `new`: the listing only grew at its end.
pub open spec fn extends(old: Seq<DirectoryListing>, new: Seq<DirectoryListing>) -> bool {
    old.len() <= new.len() && forall|i: int| 0 <= i < old.len() ==> #[trigger] new[i] == old[i]
}

/// The entries of an INDX block with these bytes: magic `INDX`, the fixup
/// applied, and the entries area that its node header bounds (offsets
/// counted from the header at 0x18, capped at `usize::MAX`).
pub open spec fn indx_entries(b: Seq<u8>, sector_size: u16, es: Seq<IndexEntryView>) -> bool {
    let (fixed, err) = spec_apply_fixup(b, u16_at(b, 4), u16_at(b, 6), sector_size);
    let nh = spec_node_header(fixed, 0x18);
    let s = if 0x18 + nh.first_entry_offset > usize::MAX { usize::MAX as int } else { 0x18 + nh.first_entry_offset };
    let e = if 0x18 + nh.end_of_entries_offset > usize::MAX { usize::MAX as int } else { 0x18 + nh.end_of_entries_offset };
    &&& b.len() >= 0x28
    &&& b.subrange(0, 4) == MAGIC@
    &&& err is None
    &&& s <= e <= fixed.len()
    &&& entries_from(fixed.subrange(s, e), 0) == Ok::<Seq<IndexEntryView>, IndexError>(es)
}

/// The clusters read for an INDX block of `bs` bytes that starts `bic` bytes
/// into its first cluster: enough to hold it, at least one.
pub open spec fn block_clusters(bic: int, bs: int, cs: int) -> int {
    let c0 = (bic + bs + cs - 1) / cs;
    if c0 < 1 { 1 } else { c0 }
}

/// `es` are the entries of the INDX block at `vcn` of directory `dir`, as
/// read through the volume's reader: the block's clusters found through the
/// `$INDEX_ALLOCATION` runs, read, and parsed.
pub open spec fn block_entries<F: FnMut(u64, u64) -> Result<Vec<u8>, std::io::Error>>(
    v: NtfsVolume<F>,
    dir: MftEntry,
    bs: u64,
    vcn: u64,
    es: Seq<IndexEntryView>,
) -> bool {
    let cs = v.spec_cluster_size();
    &&& index_alloc_runs(dir) is Ok
    &&& vcn * bs <= u64::MAX
    &&& located(index_alloc_runs(dir)->Ok_0, cs, vcn * bs)
    &&& {
        let (lcn, bic) = locate(index_alloc_runs(dir)->Ok_0, cs, vcn * bs)->Some_0;
        exists|raw: Seq<u8>| #![trigger reads(v.reader(), lcn as u64, block_clusters(bic, bs as int, cs as int) as u64, raw)]
            reads(v.reader(), lcn as u64, block_clusters(bic, bs as int, cs as int) as u64, raw)
            && bic + (bs as usize) <= raw.len()
            && indx_entries(raw.subrange(bic, bic + (bs as usize)), v.spec_boot_sector().bytes_per_sector, es)
    }
}

/// The size of a directory's INDX blocks: its bytes per index record, or the
/// cluster size when that is larger.
pub open spec fn dir_block_size(bpir: u32, cs: u64) -> u64 {
    if bpir as u64 > cs { bpir as u64 } else { cs }
}

/// A place to cut a listing in two.
pub open spec fn cut_at<T>(out: Seq<T>, k: int) -> bool {
    0 <= k <= out.len()
}

/// A place to cut a listing in two, after the block `ces` below an entry.
pub open spec fn cut_below<T>(out: Seq<T>, k: int, ces: Seq<IndexEntryView>) -> bool {
    0 <= k <= out.len()
}

/// `out` is what walking the entries `es` of a node of directory `dir` at
/// `depth` lists: for each entry in order, first the listing of the INDX
/// block below it (when it has one), then the entry itself when it carries a
/// name and does not end the node.
pub open spec fn walked<F: FnMut(u64, u64) -> Result<Vec<u8>, std::io::Error>>(
    v: NtfsVolume<F>,
    dir: MftEntry,
    bs: u64,
    es: Seq<IndexEntryView>,
    depth: u32,
    out: Seq<(MftReference, FileNameView)>,
) -> bool
    decreases MAX_BTREE_DEPTH + 2 - depth, es.len() + 1,
{
    if depth > MAX_BTREE_DEPTH {
        false
    } else if es.len() == 0 {
        out.len() == 0
    } else {
        exists|k: int| #[trigger] cut_at(out, k)
            && walked(v, dir, bs, es.drop_last(), depth, out.take(k))
            && entry_walked(v, dir, bs, es.last(), depth, out.skip(k))
    }
}

/// `out` is what one entry of a node at `depth` lists (see [`walked`]).
pub open spec fn entry_walked<F: FnMut(u64, u64) -> Result<Vec<u8>, std::io::Error>>(
    v: NtfsVolume<F>,
    dir: MftEntry,
    bs: u64,
    e: IndexEntryView,
    depth: u32,
    out: Seq<(MftReference, FileNameView)>,
) -> bool
    decreases MAX_BTREE_DEPTH + 2 - depth, 0int,
{
    if depth > MAX_BTREE_DEPTH {
        false
    } else if e.flags & 0x01 != 0 && e.child_vcn is Some {
        exists|k: int, ces: Seq<IndexEntryView>| #[trigger] cut_below(out, k, ces)
            && block_entries(v, dir, bs, e.child_vcn->Some_0, ces)
            && walked(v, dir, bs, ces, (depth + 1) as u32, out.take(k))
            && out.skip(k) == leaf_item(e)
    } else {
        out == leaf_item(e)
    }
}

/// Walking a node lists every entry of it that carries a `$FILE_NAME` and
/// is not the node's last entry (flag 0x02 clear), whether or not the entry
/// has a child block below it; so every named entry of a directory's root
/// node is in the listing that [`NtfsVolume::list_directory`] gives.
pub proof fn lemma_walked_lists_named_entries<F: FnMut(u64, u64) -> Result<Vec<u8>, std::io::Error>>(
    v: NtfsVolume<F>,
    dir: MftEntry,
    bs: u64,
    es: Seq<IndexEntryView>,
    depth: u32,
    out: Seq<(MftReference, FileNameView)>,
)
    requires
        walked(v, dir, bs, es, depth, out),
    ensures
        forall|i: int| 0 <= i < es.len() && (#[trigger] es[i]).flags & 0x02 == 0 && es[i].file_name is Some
            ==> out.contains((es[i].child_ref, es[i].file_name->Some_0)),
    decreases es.len(),
{
    if es.len() > 0 {
        let k = choose|k: int| #[trigger] cut_at(out, k)
            && walked(v, dir, bs, es.drop_last(), depth, out.take(k))
            && entry_walked(v, dir, bs, es.last(), depth, out.skip(k));
        lemma_walked_lists_named_entries(v, dir, bs, es.drop_last(), depth, out.take(k));
        let e = es.last();
        let tail = out.skip(k);
        if e.flags & 0x02 == 0 && e.file_name is Some {
            let item = (e.child_ref, e.file_name->Some_0);
            assert(leaf_item(e) == seq![item]);
            if e.flags & 0x01 != 0 && e.child_vcn is Some {
                let (k2, ces) = choose|k2: int, ces: Seq<IndexEntryView>| #[trigger] cut_below(tail, k2, ces)
                    && block_entries(v, dir, bs, e.child_vcn->Some_0, ces)
                    && walked(v, dir, bs, ces, (depth + 1) as u32, tail.take(k2))
                    && tail.skip(k2) == leaf_item(e);
                assert(tail.skip(k2)[0] == item);
                assert(out[k + k2] == item);
            } else {
                assert(tail[0] == item);
                assert(out[k] == item);
            }
        }
        assert forall|i: int| 0 <= i < es.len() && (#[trigger] es[i]).flags & 0x02 == 0 && es[i].file_name is Some
            implies out.contains((es[i].child_ref, es[i].file_name->Some_0)) by {
            let x = (es[i].child_ref, es[i].file_name->Some_0);
            if i < es.len() - 1 {
                assert(es.drop_last()[i] == es[i]);
                assert(out.take(k).contains(x));
                let j = choose|j: int| 0 <= j < out.take(k).len() && out.take(k)[j] == x;
                assert(out[j] == x);
            } else {
                assert(es[i] == e);
            }
        }
    }
}

pub open spec fn listings_of(v: Seq<DirectoryListing>) -> Seq<(MftReference, FileNameView)> {
    v.map_values(|d: DirectoryListing| (d.child_ref, d.file_name@))
}

/// The bytes per index record and the root node entries of a directory
/// record: its resident `$INDEX_ROOT` content, the entries area cut to
/// `[first_entry_offset, end_of_entries_offset)` of the node header.
pub open spec fn root_entries(e: MftEntry) -> Option<(u32, Seq<IndexEntryView>)> {
    match spec_find(e.data@, e.header.first_attribute_offset as int, AttributeType::IndexRoot) {
        Some((h, off)) => match h {
            AttributeHeader::Resident { resident, .. } => {
                let raw = e.data@.subrange(off, off + h.spec_length());
                let co = resident.content_offset as int;
                let ce = co + resident.content_size as int;
                if ce > raw.len() {
                    None
                } else {
                    let content = raw.subrange(co, ce);
                    if content.len() < 32 || crate::mft::u32_at(content, 0) != 0x30 {
                        None
                    } else {
                        let nh = crate::attributes::index::spec_node_header(content, 16);
                        let body = content.subrange(32, content.len() as int);
                        let first = if nh.first_entry_offset >= 16 { nh.first_entry_offset - 16 } else { 0 };
                        let end = if nh.end_of_entries_offset >= 16 { nh.end_of_entries_offset - 16 } else { 0 };
                        if end > body.len() || first > end {
                            None
                        } else {
                            match entries_from(body.subrange(first, end), 0) {
                                Ok(es) => Some((crate::mft::u32_at(content, 8), es)),
                                Err(_) => None,
                            }
                        }
                    }
                }
            },
            _ => None,
        },
        None => None,
    }
}

/// Why walking the index of directory entry `e` below its root can fail:
/// the error of its `$INDEX_ALLOCATION` runlist (see [`index_alloc_runs`]),
/// or, with that runlist read, a block out of range, a failed or short read,
/// or a block that does not parse; or a tree deeper than [`MAX_BTREE_DEPTH`].
pub open spec fn walk_error(e: MftEntry, x: VolumeError) -> bool {
    x is BtreeTooDeep || match index_alloc_runs(e) {
        Err(y) => x == y,
        Ok(_) => x is IndexVcnOutOfRange || x is Io || x is Index,
    }
}

/// Why listing directory `dir` of `v` can fail: its record cannot be read
/// (see [`record_read_error`]); it reads as an entry with no usable
/// `$INDEX_ROOT` node (`NotADirectory`, `IndexRootNotResident`, or an
/// `Index` error of the root); or walking the blocks below the root fails
/// (see [`walk_error`]).
pub open spec fn listing_error<F: FnMut(u64, u64) -> Result<Vec<u8>, std::io::Error>>(v: NtfsVolume<F>, dir: u64, x: VolumeError) -> bool {
    match x {
        VolumeError::NotADirectory { record_index: k } => k == dir
            && exists|e: MftEntry| #[trigger] record_read(v, dir, e) && root_entries(e) is None,
        VolumeError::IndexRootNotResident => exists|e: MftEntry| #[trigger] record_read(v, dir, e) && root_entries(e) is None,
        VolumeError::Index(_) => exists|e: MftEntry| #[trigger] record_read(v, dir, e)
            && (root_entries(e) is None || walk_error(e, x)),
        _ => record_read_error(v, dir, x) || exists|e: MftEntry| #[trigger] record_read(v, dir, e)
            && root_entries(e) is Some && walk_error(e, x),
    }
}

/// An exact copy of a `$FILE_NAME`.
pub fn copy_file_name(f: &FileName) -> (r: FileName)
    ensures
        r@ == f@,
{
    FileName {
        parent_directory: f.parent_directory,
        created: f.created,
        modified: f.modified,
        mft_modified: f.mft_modified,
        accessed: f.accessed,
        allocated_size: f.allocated_size,
        real_size: f.real_size,
        file_attributes: crate::attributes::standard_information::FileAttributes(f.file_attributes.0),
        namespace: f.namespace,
        filename: f.filename.clone(),
    }
}

/// The bytes left in the run that holds virtual offset `vo`, from `vo` on
/// (0 past the end).
pub open spec fn run_left(runs: Seq<Run>, cs: u64, vo: int) -> int
    decreases runs.len(),
{
    if runs.len() == 0 {
        0
    } else {
        let len = sat_mul(runs[0].length_clusters, cs) as int;
        if vo < len {
            len - vo
        } else {
            run_left(runs.subrange(1, runs.len() as int), cs, vo - len)
        }
    }
}

/// `raw` is what the reader gives for the clusters from `lcn` that hold
/// `take` bytes from `off` bytes into the first of them.
pub open spec fn segment_read<F: FnMut(u64, u64) -> Result<Vec<u8>, std::io::Error>>(
    v: NtfsVolume<F>,
    lcn: int,
    off: int,
    take: int,
    raw: Seq<u8>,
) -> bool {
    reads(v.reader(), lcn as u64, div_ceil(off + take, v.spec_cluster_size() as int) as u64, raw) && raw.len() >= off + take
}

/// How many of `n` bytes from `vo` lie in the run that holds `vo`.
pub open spec fn seg_take(runs: Seq<Run>, cs: u64, vo: int, n: nat) -> int {
    if n <= run_left(runs, cs, vo) { n as int } else { run_left(runs, cs, vo) }
}

/// `bytes` are the `n` bytes of the `$MFT` stream from virtual offset `vo`
/// as the reader gives them: the part in the run that holds `vo` read from
/// that run's clusters, then the rest from where that part ends.
pub open spec fn stream_read<F: FnMut(u64, u64) -> Result<Vec<u8>, std::io::Error>>(
    v: NtfsVolume<F>,
    vo: int,
    n: nat,
    bytes: Seq<u8>,
) -> bool
    decreases n,
{
    let runs = v.spec_runs();
    let cs = v.spec_cluster_size();
    if n == 0 {
        bytes.len() == 0
    } else if !located(runs, cs, vo) || run_left(runs, cs, vo) <= 0 {
        false
    } else {
        &&& bytes.len() >= seg_take(runs, cs, vo, n)
        &&& stream_read(v, vo + seg_take(runs, cs, vo, n), (n - seg_take(runs, cs, vo, n)) as nat, bytes.skip(seg_take(runs, cs, vo, n)))
        &&& exists|raw: Seq<u8>| #[trigger] segment_read(v, locate(runs, cs, vo)->Some_0.0, locate(runs, cs, vo)->Some_0.1, seg_take(runs, cs, vo, n), raw)
            && raw.subrange(locate(runs, cs, vo)->Some_0.1, locate(runs, cs, vo)->Some_0.1 + seg_take(runs, cs, vo, n))
                == bytes.take(seg_take(runs, cs, vo, n))
    }
}

/// One part read from the run that holds `vo`, followed by the rest of the
/// stream read, is the stream read.
proof fn lemma_stream_step<F: FnMut(u64, u64) -> Result<Vec<u8>, std::io::Error>>(
    v: NtfsVolume<F>,
    vo: int,
    n: nat,
    take: int,
    raw: Seq<u8>,
    bytes: Seq<u8>,
)
    requires
        n > 0,
        located(v.spec_runs(), v.spec_cluster_size(), vo),
        run_left(v.spec_runs(), v.spec_cluster_size(), vo) > 0,
        take == seg_take(v.spec_runs(), v.spec_cluster_size(), vo, n),
        segment_read(v, locate(v.spec_runs(), v.spec_cluster_size(), vo)->Some_0.0, locate(v.spec_runs(), v.spec_cluster_size(), vo)->Some_0.1, take, raw),
        bytes.len() >= take,
        raw.subrange(locate(v.spec_runs(), v.spec_cluster_size(), vo)->Some_0.1, locate(v.spec_runs(), v.spec_cluster_size(), vo)->Some_0.1 + take) == bytes.take(take),
        stream_read(v, vo + take, (n - take) as nat, bytes.skip(take)),
    ensures
        stream_read(v, vo, n, bytes),
{
}

/// The reader can fail or hand back fewer bytes than the clusters asked for.
pub open spec fn reader_can_fail<F: FnMut(u64, u64) -> Result<Vec<u8>, std::io::Error>>(v: NtfsVolume<F>) -> bool {
    exists|lcn: u64, count: u64, res: Result<Vec<u8>, std::io::Error>|
        #[trigger] call_ensures(v.reader(), (lcn, count), res)
            && (res is Err || res->Ok_0@.len() < count * v.spec_cluster_size())
}

/// Why reading record `index` of `v` can fail: the index is out of range,
/// a byte of the record lies where no run maps it, the reader fails, or the
/// bytes read do not parse as an MFT entry (with that parse error).
pub open spec fn record_read_error<F: FnMut(u64, u64) -> Result<Vec<u8>, std::io::Error>>(v: NtfsVolume<F>, index: u64, e: VolumeError) -> bool {
    let rs = v.spec_record_size() as int;
    match e {
        VolumeError::RecordIndexOutOfRange { index: i, total } => i == index && total == v.spec_total_records()
            && (index >= v.spec_total_records()
                || exists|p: int| index * rs <= p < index * rs + rs && !located(v.spec_runs(), v.spec_cluster_size(), p)),
        VolumeError::Io(_) => reader_can_fail(v),
        VolumeError::Mft(m) => exists|bytes: Seq<u8>| #[trigger] stream_read(v, index * rs, rs as nat, bytes)
            && spec_parse_mft_entry(bytes, Err(m)),
        _ => false,
    }
}

/// `entry` is what record `index` of `v` parses to, its bytes read from the
/// `$MFT` stream (part by part where the record spans runs).
pub open spec fn record_read<F: FnMut(u64, u64) -> Result<Vec<u8>, std::io::Error>>(v: NtfsVolume<F>, index: u64, entry: MftEntry) -> bool {
    exists|bytes: Seq<u8>| #[trigger] stream_read(v, index * v.spec_record_size(), v.spec_record_size() as nat, bytes)
        && spec_parse_mft_entry(bytes, Ok(entry))
}

/// A call `f(lcn, count)` can fail.
pub open spec fn read_may_fail<F: FnMut(u64, u64) -> Result<Vec<u8>, std::io::Error>>(f: F, lcn: u64, count: u64) -> bool {
    exists|res: Result<Vec<u8>, std::io::Error>| #[trigger] call_ensures(f, (lcn, count), res) && res is Err
}

/// What a boot-sector parse of `b` fails with, as [`parse_boot_sector`]
/// reports it (the OEM id read from `b`).
pub open spec fn boot_sector_error_of(b: Seq<u8>, be: BootSectorError) -> bool {
    match (be, spec_parse_boot_sector(b)) {
        (BootSectorError::InvalidOemId { got }, Err(BootSectorError::InvalidOemId { .. })) => got@ == b.subrange(3, 11),
        (x, y) => y == Err::<BootSector, BootSectorError>(x),
    }
}

/// Cluster 0, as `f` reads it, parses to the boot sector `b`.
pub open spec fn boot_read<F: FnMut(u64, u64) -> Result<Vec<u8>, std::io::Error>>(f: F, b: BootSector) -> bool {
    exists|first: Seq<u8>| #[trigger] reads(f, 0, 1, first) && first.len() >= 512
        && spec_parse_boot_sector(first.take(512)) == Ok::<BootSector, BootSectorError>(b)
}

/// The clusters read for `$MFT` record 0 under boot sector `b`.
pub open spec fn record0_clusters(b: BootSector) -> u64 {
    let n = div_ceil(b.spec_mft_record_size() as int, b.spec_cluster_size() as int);
    if n < 1 { 1 } else { n as u64 }
}

/// `$MFT` record 0, as `f` reads it under boot sector `b`, parses to `e`.
pub open spec fn record0_read<F: FnMut(u64, u64) -> Result<Vec<u8>, std::io::Error>>(f: F, b: BootSector, e: MftEntry) -> bool {
    exists|rec0: Seq<u8>| #[trigger] reads(f, b.mft_lcn, record0_clusters(b), rec0)
        && rec0.len() >= b.spec_mft_record_size()
        && spec_parse_mft_entry(rec0.take(b.spec_mft_record_size() as int), Ok(e))
}

/// Why opening a volume over `f` can fail: cluster 0 is short or does not
/// parse as a boot sector; a read fails or record 0 comes back short (`Io`);
/// record 0 does not parse; it yields no runlist (see [`mft_runs_error`]);
/// or its runlist holds a sparse run.
pub open spec fn open_error<F: FnMut(u64, u64) -> Result<Vec<u8>, std::io::Error>>(f: F, x: VolumeError) -> bool {
    match x {
        VolumeError::BootSectorBufferTooSmall { got } => exists|first: Seq<u8>| #[trigger] reads(f, 0, 1, first)
            && first.len() == got && got < 512,
        VolumeError::BootSector(be) => exists|first: Seq<u8>| #[trigger] reads(f, 0, 1, first) && first.len() >= 512
            && boot_sector_error_of(first.take(512), be),
        VolumeError::Io(_) => read_may_fail(f, 0, 1) || exists|b: BootSector| #[trigger] boot_read(f, b)
            && (read_may_fail(f, b.mft_lcn, record0_clusters(b))
                || exists|rec0: Seq<u8>| #[trigger] reads(f, b.mft_lcn, record0_clusters(b), rec0)
                    && rec0.len() < b.spec_mft_record_size()),
        VolumeError::Mft(m) => exists|b: BootSector, rec0: Seq<u8>| #[trigger] boot_read(f, b)
            && #[trigger] reads(f, b.mft_lcn, record0_clusters(b), rec0)
            && rec0.len() >= b.spec_mft_record_size()
            && spec_parse_mft_entry(rec0.take(b.spec_mft_record_size() as int), Err(m)),
        VolumeError::SparseMftRun => exists|b: BootSector, e: MftEntry| #[trigger] boot_read(f, b)
            && #[trigger] record0_read(f, b, e)
            && spec_mft_runlist(e) is Some
            && exists|j: int| 0 <= j < spec_mft_runlist(e)->Some_0.len() && (#[trigger] spec_mft_runlist(e)->Some_0[j]).lcn is None,
        _ => exists|b: BootSector, e: MftEntry| #[trigger] boot_read(f, b) && #[trigger] record0_read(f, b, e)
            && mft_runs_error(e, x),
    }
}

/// The position of the first sparse run, if any.
fn first_sparse(runs: &[Run]) -> (r: Option<usize>)
    ensures
        match r {
            Some(j) => j < runs@.len() && runs@[j as int].lcn is None,
            None => forall|j: int| 0 <= j < runs@.len() ==> (#[trigger] runs@[j]).lcn is Some,
        },
{
    let n = runs.len();
    let mut i: usize = 0;
    while i < n
        invariant
            n == runs@.len(),
            i <= n,
            forall|j: int| 0 <= j < i ==> (#[trigger] runs@[j]).lcn is Some,
        decreases n - i,
    {
        if runs[i].is_sparse() {
            return Some(i);
        }
        i = i + 1;
    }
    None
}

/// A sparse run in the runlist of record 0 is an open error.
proof fn lemma_sparse_open_error<F: FnMut(u64, u64) -> Result<Vec<u8>, std::io::Error>>(f: F, b: BootSector, e: MftEntry, j: int)
    requires
        boot_read(f, b),
        record0_read(f, b, e),
        spec_mft_runlist(e) is Some,
        0 <= j < spec_mft_runlist(e)->Some_0.len(),
        spec_mft_runlist(e)->Some_0[j].lcn is None,
    ensures
        open_error(f, VolumeError::SparseMftRun),
{
}

/// An NTFS volume opened over a cluster reader.
pub struct NtfsVolume<F> {
    boot_sector: BootSector,
    mft_runs: Vec<Run>,
    mft_record_size: u32,
    cluster_size: u64,
    total_records: u64,
    read_clusters: F,
}

impl<F: FnMut(u64, u64) -> Result<Vec<u8>, std::io::Error>> NtfsVolume<F> {
    pub closed spec fn spec_boot_sector(&self) -> BootSector {
        self.boot_sector
    }

    pub closed spec fn spec_runs(&self) -> Seq<Run> {
        self.mft_runs@
    }

    pub closed spec fn spec_record_size(&self) -> u32 {
        self.mft_record_size
    }

    pub closed spec fn spec_cluster_size(&self) -> u64 {
        self.cluster_size
    }

    pub closed spec fn spec_total_records(&self) -> u64 {
        self.total_records
    }

    pub closed spec fn reader(&self) -> F {
        self.read_clusters
    }

    /// The volume's invariant: geometry from the boot sector, a record size
    /// that an MFT record fits, an `$MFT` runlist without sparse runs, the
    /// record count it implies, and a reader that takes every call.
    pub closed spec fn wf(&self) -> bool {
        &&& self.cluster_size as nat == self.boot_sector.spec_cluster_size()
        &&& 1 <= self.cluster_size <= 65535 * 255
        &&& self.mft_record_size as nat == self.boot_sector.spec_mft_record_size()
        &&& self.mft_record_size >= 48
        &&& forall|i: int| 0 <= i < self.mft_runs@.len() ==> (#[trigger] self.mft_runs@[i]).lcn is Some
        &&& self.total_records == records_in(total_bytes(self.mft_runs@, self.cluster_size), self.mft_record_size as int)
        &&& reader_ready(self.read_clusters)
    }

    /// Opens a volume: reads cluster 0 as the boot sector, then `$MFT` record 0
    /// for the runlist of `$MFT` itself. `$MFT` extended through
    /// `$ATTRIBUTE_LIST` is not supported.
    pub fn open(mut read_clusters: F) -> (r: Result<Self, VolumeError>)
        requires
            reader_ready(read_clusters),
        ensures
            r matches Ok(v) ==> v.wf(),
            r matches Ok(v) ==> v.reader() == read_clusters,
            r matches Ok(v) ==> exists|first: Seq<u8>| #![trigger reads(v.reader(), 0, 1, first)] reads(v.reader(), 0, 1, first) && first.len() >= 512
                && spec_parse_boot_sector(first.take(512)) == Ok::<BootSector, BootSectorError>(v.spec_boot_sector()),
            r matches Ok(v) ==> exists|rec0: Seq<u8>, e: MftEntry| #![trigger reads(v.reader(), v.spec_boot_sector().mft_lcn, div_ceil(v.spec_record_size() as int, v.spec_cluster_size() as int) as u64, rec0), spec_mft_runlist(e)]
                reads(v.reader(), v.spec_boot_sector().mft_lcn, div_ceil(v.spec_record_size() as int, v.spec_cluster_size() as int) as u64, rec0)
                && rec0.len() >= v.spec_record_size()
                && spec_parse_mft_entry(rec0.take(v.spec_record_size() as int), Ok(e))
                && spec_mft_runlist(e) == Some(v.spec_runs()),
            r matches Err(x) ==> open_error(read_clusters, x),
    {
        let ghost f0 = read_clusters;
        let read0 = read_clusters(0, 1);
        let first = match read0 {
            Ok(d) => d,
            Err(e) => {
                proof {
                    assert(call_ensures(f0, (0u64, 1u64), read0));
                    assert(read_may_fail(f0, 0, 1));
                }
                return Err(VolumeError::Io(e));
            },
        };
        proof {
            assert(reads(f0, 0, 1, first@));
        }
        if first.len() < 512 {
            return Err(VolumeError::BootSectorBufferTooSmall { got: first.len() });
        }
        proof {
            assert(first@.subrange(0, 512) =~= first@.take(512));
        }
        let boot_sector = match parse_boot_sector(slice_subrange(first.as_slice(), 0, 512)) {
            Ok(b) => b,
            Err(e) => {
                proof {
                    assert(boot_sector_error_of(first@.take(512), e));
                }
                return Err(VolumeError::BootSector(e));
            },
        };
        proof {
            assert(boot_read(f0, boot_sector));
        }
        let cluster_size = boot_sector.cluster_size_bytes() as u64;
        let mft_record_size = boot_sector.mft_record_size_bytes();
        proof {
            assert(boot_sector.bytes_per_sector >= 1 && boot_sector.sectors_per_cluster >= 1);
            assert(boot_sector.bytes_per_sector as nat * boot_sector.sectors_per_cluster as nat >= 1) by (nonlinear_arith)
                requires boot_sector.bytes_per_sector >= 1, boot_sector.sectors_per_cluster >= 1;
        }
        let rs = mft_record_size as u64;
        let need0 = (rs + cluster_size - 1) / cluster_size;
        let need = if need0 < 1 { 1 } else { need0 };
        proof {
            assert(need == record0_clusters(boot_sector));
        }
        let read1 = read_clusters(boot_sector.mft_lcn, need);
        let rec0_raw = match read1 {
            Ok(d) => d,
            Err(e) => {
                proof {
                    assert(call_ensures(f0, (boot_sector.mft_lcn, need), read1));
                    assert(read_may_fail(f0, boot_sector.mft_lcn, need));
                    assert(open_error(f0, VolumeError::Io(e)));
                }
                return Err(VolumeError::Io(e));
            },
        };
        proof {
            assert(reads(f0, boot_sector.mft_lcn, need, rec0_raw@));
        }
        let rsz = mft_record_size as usize;
        if rec0_raw.len() < rsz {
            let ioe = short_read("MFT record 0 read incomplete");
            proof {
                assert(open_error(f0, VolumeError::Io(ioe)));
            }
            return Err(VolumeError::Io(ioe));
        }
        proof {
            assert(rec0_raw@.subrange(0, rsz as int) =~= rec0_raw@.take(rsz as int));
        }
        let rec0 = match parse_mft_entry(slice_subrange(rec0_raw.as_slice(), 0, rsz)) {
            Ok(e) => e,
            Err(e) => {
                proof {
                    assert(open_error(f0, VolumeError::Mft(e)));
                }
                return Err(VolumeError::Mft(e));
            },
        };
        proof {
            assert(record0_read(f0, boot_sector, rec0));
        }
        let mft_runs = match mft_runs_of(&rec0) {
            Ok(r) => r,
            Err(e) => {
                proof {
                    assert(mft_runs_error(rec0, e));
                    assert(open_error(f0, e)) by {
                        assert(e !is SparseMftRun && e !is Io && e !is Mft && e !is BootSector && e !is BootSectorBufferTooSmall);
                    }
                }
                return Err(e);
            },
        };
        match first_sparse(mft_runs.as_slice()) {
            Some(j) => {
                proof {
                    lemma_sparse_open_error(f0, boot_sector, rec0, j as int);
                }
                return Err(VolumeError::SparseMftRun);
            },
            None => {},
        }
        let total = sum_byte_lengths(mft_runs.as_slice(), cluster_size);
        let capped: u64 = if total > 0xFFFF_FFFF_FFFF_FFFFu128 { u64::MAX } else { total as u64 };
        let total_records: u64 = capped / rs;
        let v = NtfsVolume { boot_sector, mft_runs, mft_record_size, cluster_size, total_records, read_clusters };
        proof {
            assert(read_clusters == f0);
            assert(v.read_clusters == f0);
            assert(v.reader() == f0);
            assert(rs >= 48);
            assert(need0 >= 1) by (nonlinear_arith)
                requires rs >= 48, cluster_size >= 1, need0 == (rs + cluster_size - 1) as int / cluster_size as int;
            assert(need as int == div_ceil(rs as int, cluster_size as int));
            assert(v.wf());
            assert(reads(f0, 0, 1, first@) && first@.len() >= 512
                && spec_parse_boot_sector(first@.take(512)) == Ok::<BootSector, BootSectorError>(v.spec_boot_sector()));
            assert(reads(f0, v.spec_boot_sector().mft_lcn, div_ceil(v.spec_record_size() as int, v.spec_cluster_size() as int) as u64, rec0_raw@));
            assert(spec_parse_mft_entry(rec0_raw@.take(v.spec_record_size() as int), Ok(rec0)));
            assert(spec_mft_runlist(rec0) == Some(v.spec_runs()));
            assert(exists|rec0b: Seq<u8>, e: MftEntry| #![trigger reads(v.reader(), v.spec_boot_sector().mft_lcn, div_ceil(v.spec_record_size() as int, v.spec_cluster_size() as int) as u64, rec0b), spec_mft_runlist(e)]
                    reads(v.reader(), v.spec_boot_sector().mft_lcn, div_ceil(v.spec_record_size() as int, v.spec_cluster_size() as int) as u64, rec0b)
                    && rec0b.len() >= v.spec_record_size()
                    && spec_parse_mft_entry(rec0b.take(v.spec_record_size() as int), Ok(e))
                    && spec_mft_runlist(e) == Some(v.spec_runs()));
        }
        let res: Result<Self, VolumeError> = Ok(v);
        proof {
            assert(res->Ok_0 == v);
            assert(res->Ok_0.reader() == f0);
            assert(reads(res->Ok_0.reader(), 0, 1, first@));
            assert(res matches Ok(vv) ==> exists|first2: Seq<u8>| #![trigger reads(vv.reader(), 0, 1, first2)] reads(vv.reader(), 0, 1, first2) && first2.len() >= 512
                && spec_parse_boot_sector(first2.take(512)) == Ok::<BootSector, BootSectorError>(vv.spec_boot_sector()));
        }
        res
    }

    /// Estimated number of MFT records (all of them, used or not).
    pub fn total_records(&self) -> (r: u64)
        ensures
            r == self.spec_total_records(),
    {
        self.total_records
    }

    /// MFT record size in bytes.
    pub fn mft_record_size(&self) -> (r: u32)
        ensures
            r == self.spec_record_size(),
    {
        self.mft_record_size
    }

    /// Cluster size in bytes.
    pub fn cluster_size(&self) -> (r: u64)
        ensures
            r == self.spec_cluster_size(),
    {
        self.cluster_size
    }

    /// The parsed boot sector.
    pub fn boot_sector(&self) -> (r: &BootSector)
        ensures
            *r == self.spec_boot_sector(),
    {
        &self.boot_sector
    }

    /// Maps a virtual `$MFT` byte offset to its cluster and the offset within
    /// it, across the runs of a fragmented `$MFT`.
    pub fn virtual_to_physical(&self, virtual_offset: u64) -> (r: Result<(u64, u64), VolumeError>)
        requires
            self.wf(),
        ensures
            located(self.spec_runs(), self.spec_cluster_size(), virtual_offset as int)
                ==> (r matches Ok((l, o)) && (l as int, o as int) == locate(self.spec_runs(), self.spec_cluster_size(), virtual_offset as int)->Some_0
                    && o < self.spec_cluster_size()),
            !located(self.spec_runs(), self.spec_cluster_size(), virtual_offset as int)
                ==> (r matches Err(VolumeError::RecordIndexOutOfRange { index, total })
                    && index == virtual_offset as int / self.spec_record_size() as int
                    && total == self.spec_total_records()),
    {
        match locate_in_runs(self.mft_runs.as_slice(), self.cluster_size, virtual_offset) {
            Some(p) => Ok(p),
            None => {
                Err(VolumeError::RecordIndexOutOfRange {
                    index: virtual_offset / (self.mft_record_size as u64),
                    total: self.total_records,
                })
            },
        }
    }

    /// Reads MFT record `index`; out of range indices are refused.
    #[verifier::spinoff_prover]
    #[verifier::rlimit(40)]
    pub fn read_record(&mut self, index: u64) -> (r: Result<MftEntry, VolumeError>)
        requires
            old(self).wf(),
        ensures
            final(self).wf(),
            *final(self) == *old(self),
            index >= old(self).spec_total_records() ==> (r matches Err(VolumeError::RecordIndexOutOfRange { index: i, total })
                && i == index && total == old(self).spec_total_records()),
            r matches Ok(entry) ==> index < old(self).spec_total_records() && record_read(*old(self), index, entry),
            r matches Err(e) ==> record_read_error(*old(self), index, e),
    {
        if index >= self.total_records {
            return Err(VolumeError::RecordIndexOutOfRange { index, total: self.total_records });
        }
        let rs = self.mft_record_size as u64;
        proof {
            lemma_records_bound(self.mft_runs@, self.cluster_size, rs as int, index as int);
        }
        let vo = index * rs;
        let ghost v0 = *old(self);
        let mut buf: Vec<u8> = Vec::new();
        let mut pos: u64 = vo;
        let mut need: u64 = rs;
        while need > 0
            invariant
                self.wf(),
                *self == *old(self),
                v0 == *old(self),
                index < v0.spec_total_records(),
                rs == v0.spec_record_size(),
                pos + need == vo + rs,
                vo == index * rs,
                vo <= pos,
                rs >= 1,
                vo + rs <= u64::MAX,
                buf@.len() + need == rs,
                forall|tail: Seq<u8>| #[trigger] stream_read(v0, pos as int, need as nat, tail)
                    ==> stream_read(v0, vo as int, rs as nat, buf@ + tail),
            decreases need,
        {
            let (lcn, off) = match self.virtual_to_physical(pos) {
                Ok(p) => p,
                Err(e) => {
                    proof {
                        assert(vo <= pos < vo + rs);
                        assert(pos as int / rs as int == index) by (nonlinear_arith)
                            requires vo == index * rs, vo <= pos < vo + rs, rs >= 1;
                        assert(!located(v0.spec_runs(), v0.spec_cluster_size(), pos as int));
                    }
                    return Err(e);
                },
            };
            proof {
                lemma_located_left(self.mft_runs@, self.cluster_size, pos as int);
            }
            let left = left_in_runs(self.mft_runs.as_slice(), self.cluster_size, pos);
            let take = if need <= left { need } else { left };
            let cs = self.cluster_size;
            let clusters = (off + take + cs - 1) / cs;
            let ghost f0 = self.read_clusters;
            let raw = match (self.read_clusters)(lcn, clusters) {
                Ok(d) => d,
                Err(e) => {
                    proof {
                        assert(call_ensures(v0.reader(), (lcn, clusters), Err::<Vec<u8>, std::io::Error>(e)));
                    }
                    return Err(VolumeError::Io(e));
                },
            };
            let start = off as usize;
            let tk = take as usize;
            if raw.len() < tk || raw.len() - tk < start {
                proof {
                    let x = (off + take) as int;
                    assert(clusters as int * cs as int >= x) by (nonlinear_arith)
                        requires clusters as int == (x + cs as int - 1) / cs as int, cs >= 1, x >= 0;
                    assert(call_ensures(v0.reader(), (lcn, clusters), Ok::<Vec<u8>, std::io::Error>(raw)));
                }
                return Err(VolumeError::Io(short_read("record bytes incomplete")));
            }
            let seg = slice_subrange(raw.as_slice(), start, start + tk);
            let ghost before = buf@;
            let mut j: usize = 0;
            while j < tk
                invariant
                    j <= tk,
                    tk == seg@.len(),
                    buf@ == before + seg@.take(j as int),
                decreases tk - j,
            {
                buf.push(seg[j]);
                proof {
                    assert(seg@.take(j as int + 1) =~= seg@.take(j as int).push(seg@[j as int]));
                }
                j = j + 1;
            }
            proof {
                assert(seg@.take(tk as int) =~= seg@);
                assert(f0 == v0.reader());
                assert(clusters as int == div_ceil(off + take, cs as int));
                assert(segment_read(v0, lcn as int, off as int, take as int, raw@));
                assert forall|tail: Seq<u8>| #[trigger] stream_read(v0, (pos + take) as int, (need - take) as nat, tail)
                    implies stream_read(v0, vo as int, rs as nat, buf@ + tail) by {
                    let whole = seg@ + tail;
                    assert(whole.take(take as int) =~= seg@);
                    assert(whole.skip(take as int) =~= tail);
                    assert(raw@.subrange(off as int, off + take) == seg@);
                    let runs = v0.spec_runs();
                    assert(located(runs, v0.spec_cluster_size(), pos as int));
                    assert(locate(runs, v0.spec_cluster_size(), pos as int)->Some_0 == (lcn as int, off as int));
                    assert(run_left(runs, v0.spec_cluster_size(), pos as int) == left as int);
                    assert(left > 0);
                    assert(whole.skip(take as int) == tail);
                    assert(stream_read(v0, pos + take, (need - take) as nat, whole.skip(take as int)));
                    lemma_stream_step(v0, pos as int, need as nat, take as int, raw@, whole);
                    assert(before + whole =~= buf@ + tail);
                }
            }
            let ghost bufv = buf@;
            let ghost p2 = (pos + take) as int;
            let ghost n2 = (need - take) as nat;
            assert(forall|tail: Seq<u8>| #[trigger] stream_read(v0, p2, n2, tail) ==> stream_read(v0, vo as int, rs as nat, bufv + tail));
            pos = pos + take;
            need = need - take;
            assert(pos as int == p2 && need as nat == n2 && buf@ == bufv);
        }
        proof {
            assert(stream_read(v0, pos as int, 0, Seq::<u8>::empty()));
            assert(buf@ + Seq::<u8>::empty() =~= buf@);
        }
        match parse_mft_entry(buf.as_slice()) {
            Ok(e) => {
                proof {
                    assert(stream_read(v0, index * rs, rs as nat, buf@));
                    assert(record_read(v0, index, e));
                }
                Ok(e)
            },
            Err(e) => Err(VolumeError::Mft(e)),
        }
    }

    /// Lists every entry of directory `dir_record_index`, walking `$INDEX_ROOT`
    /// and, through `$INDEX_ALLOCATION`, the INDX blocks below it. Entries with
    /// a value are listed (Win32 and DOS names both); the node-ending entries
    /// are not. Deleted files are gone from the index and so are not listed.
    #[verifier::spinoff_prover]
    #[verifier::rlimit(60)]
    pub fn list_directory(&mut self, dir_record_index: u64) -> (r: Result<Vec<DirectoryListing>, VolumeError>)
        requires
            old(self).wf(),
        ensures
            final(self).wf(),
            *final(self) == *old(self),
            dir_record_index >= old(self).spec_total_records() ==> (r matches Err(VolumeError::RecordIndexOutOfRange { index, total })
                && index == dir_record_index && total == old(self).spec_total_records()),
            r matches Ok(listing) ==> exists|e: MftEntry| #![trigger root_entries(e)] {
                &&& root_entries(e) matches Some((_, es))
                &&& (forall|i: int| 0 <= i < es.len() ==> (#[trigger] es[i]).flags & 0x01 == 0)
                    ==> listings_of(listing@) == leaf_listing(es)
            },
            r matches Ok(listing) ==> exists|e: MftEntry| #![trigger record_read(*old(self), dir_record_index, e)] {
                &&& record_read(*old(self), dir_record_index, e)
                &&& root_entries(e) matches Some((bpir, es))
                &&& walked(*old(self), e, dir_block_size(bpir, old(self).spec_cluster_size()), es, 0, listings_of(listing@))
            },
            r matches Err(x) ==> listing_error(*old(self), dir_record_index, x),
    {
        let dir_entry = match self.read_record(dir_record_index) {
            Ok(e) => e,
            Err(e) => {
                return Err(e);
            },
        };
        proof {
            assert(record_read(*old(self), dir_record_index, dir_entry));
        }
        let first_off = dir_entry.header.first_attribute_offset as usize;
        let index_root_attr = match find_attribute(dir_entry.data.as_slice(), first_off, AttributeType::IndexRoot) {
            Some(a) => a,
            None => {
                proof {
                    assert(root_entries(dir_entry) is None);
                }
                return Err(VolumeError::NotADirectory { record_index: dir_record_index });
            },
        };
        proof {
            crate::attributes::lemma_find_in_bounds(dir_entry.data@, first_off as int, AttributeType::IndexRoot);
        }
        let (content_offset, content_size) = match &index_root_attr.header {
            AttributeHeader::Resident { resident, .. } => (resident.content_offset as usize, resident.content_size as usize),
            _ => {
                proof {
                    assert(root_entries(dir_entry) is None);
                }
                return Err(VolumeError::IndexRootNotResident);
            },
        };
        let alen = index_root_attr.raw.len();
        proof {
            let off = index_root_attr.offset_in_entry as int;
            let raw = dir_entry.data@.subrange(off, off + index_root_attr.header.spec_length());
            assert(index_root_attr.raw@ == raw);
        }
        if content_offset > alen || content_size > alen - content_offset {
            proof {
                assert(root_entries(dir_entry) is None);
            }
            return Err(VolumeError::IndexRootNotResident);
        }
        let content = slice_subrange(index_root_attr.raw, content_offset, content_offset + content_size);
        let index_root = match parse_index_root(content) {
            Ok(ir) => ir,
            Err(e) => {
                proof {
                    let off = index_root_attr.offset_in_entry as int;
                    let raw = dir_entry.data@.subrange(off, off + index_root_attr.header.spec_length());
                    assert(content@ == raw.subrange(content_offset as int, content_offset + content_size));
                    assert(root_entries(dir_entry) is None);
                }
                return Err(VolumeError::Index(e));
            },
        };
        let bpir = index_root.bytes_per_index_record as u64;
        let block_size = if bpir > self.cluster_size { bpir } else { self.cluster_size };
        let feo = index_root.node_header.first_entry_offset as usize;
        let eeo = index_root.node_header.end_of_entries_offset as usize;
        let first = if feo >= 16 { feo - 16 } else { 0 };
        let end_off = if eeo >= 16 { eeo - 16 } else { 0 };
        let blen = index_root.node_body.len();
        if end_off > blen || first > end_off {
            proof {
                let off = index_root_attr.offset_in_entry as int;
                let raw = dir_entry.data@.subrange(off, off + index_root_attr.header.spec_length());
                assert(index_root_attr.raw@ == raw);
                assert(content@ == raw.subrange(content_offset as int, content_offset + content_size));
                assert(root_entries(dir_entry) is None);
            }
            return Err(VolumeError::NotADirectory { record_index: dir_record_index });
        }
        let bounded_body = slice_subrange(index_root.node_body, first, end_off);
        let root_entries_v = match parse_entries_in_node(bounded_body) {
            Ok(v) => v,
            Err(e) => {
                proof {
                    let off = index_root_attr.offset_in_entry as int;
                    let raw = dir_entry.data@.subrange(off, off + index_root_attr.header.spec_length());
                    assert(content@ == raw.subrange(content_offset as int, content_offset + content_size));
                    assert(bounded_body@ == content@.subrange(32, content@.len() as int).subrange(first as int, end_off as int));
                    assert(root_entries(dir_entry) is None);
                }
                return Err(VolumeError::Index(e));
            },
        };
        proof {
            let off = index_root_attr.offset_in_entry as int;
            let raw = dir_entry.data@.subrange(off, off + index_root_attr.header.spec_length());
            assert(index_root_attr.raw@ == raw);
            assert(content@ == raw.subrange(content_offset as int, content_offset + content_size));
            assert(bounded_body@ == content@.subrange(32, content@.len() as int).subrange(first as int, end_off as int));
            assert(root_entries(dir_entry) == Some((index_root.bytes_per_index_record, entries_of(root_entries_v@))));
        }
        let mut results: Vec<DirectoryListing> = Vec::new();
        let ghost rv = root_entries_v@;
        let ghost es = entries_of(rv);
        proof {
            assert((forall|i: int| 0 <= i < es.len() ==> (#[trigger] es[i]).flags & 0x01 == 0)
                ==> (forall|i: int| 0 <= i < rv.len() ==> (#[trigger] rv[i]).flags & 0x01 == 0)) by {
                if forall|i: int| 0 <= i < es.len() ==> (#[trigger] es[i]).flags & 0x01 == 0 {
                    assert forall|i: int| 0 <= i < rv.len() implies (#[trigger] rv[i]).flags & 0x01 == 0 by {
                        assert(es[i] == rv[i]@);
                    }
                }
            }
        }
        match self.walk_entries(root_entries_v, &dir_entry, block_size, &mut results, 0) {
            Ok(()) => {},
            Err(e) => {
                proof {
                    assert(listing_error(*old(self), dir_record_index, e));
                }
                return Err(e);
            },
        }
        proof {
            assert(listings_of(results@).skip(0) =~= listings_of(results@));
            assert(record_read(*old(self), dir_record_index, dir_entry));
            assert(block_size == dir_block_size(index_root.bytes_per_index_record, old(self).spec_cluster_size()));
            assert(listings_of(Seq::<DirectoryListing>::empty()) =~= Seq::<(MftReference, FileNameView)>::empty());
            assert(Seq::<(MftReference, FileNameView)>::empty() + leaf_listing(es) =~= leaf_listing(es));
            assert(root_entries(dir_entry) matches Some((_, es2)) && es2 == es);
        }
        Ok(results)
    }

    /// Walks the entries of one node, descending into child blocks first, and
    /// appends the entries that carry a name to `results`.
    #[verifier::rlimit(50)]
    fn walk_entries(
        &mut self,
        entries: Vec<IndexEntry>,
        dir_entry: &MftEntry,
        block_size: u64,
        results: &mut Vec<DirectoryListing>,
        depth: u32,
    ) -> (r: Result<(), VolumeError>)
        requires
            old(self).wf(),
            depth <= MAX_BTREE_DEPTH + 1,
            1 <= block_size <= 0x1_0000_0000,
        ensures
            final(self).wf(),
            *final(self) == *old(self),
            depth > MAX_BTREE_DEPTH ==> (r matches Err(VolumeError::BtreeTooDeep { depth: d }) && d == depth),
            r is Ok && (forall|i: int| 0 <= i < entries@.len() ==> (#[trigger] entries@[i]).flags & 0x01 == 0)
                ==> listings_of(final(results)@) == listings_of(old(results)@) + leaf_listing(entries_of(entries@)),
            extends(old(results)@, final(results)@),
            r matches Err(x) ==> walk_error(*dir_entry, x),
            r is Ok ==> walked(*old(self), *dir_entry, block_size, entries_of(entries@), depth,
                listings_of(final(results)@).skip(old(results)@.len() as int)),
        decreases MAX_BTREE_DEPTH + 2 - depth, 0int,
    {
        if depth > MAX_BTREE_DEPTH {
            return Err(VolumeError::BtreeTooDeep { depth });
        }
        let n = entries.len();
        let ghost es = entries_of(entries@);
        let ghost start = listings_of(results@);
        let ghost all_leaf = forall|i: int| 0 <= i < entries@.len() ==> (#[trigger] entries@[i]).flags & 0x01 == 0;
        let mut k: usize = 0;
        proof {
            assert(es.take(0) =~= Seq::<IndexEntryView>::empty());
            assert(listings_of(results@).skip(old(results)@.len() as int) =~= Seq::<(MftReference, FileNameView)>::empty());
        }
        while k < n
            invariant
                n == entries@.len(),
                k <= n,
                es == entries_of(entries@),
                self.wf(),
                *self == *old(self),
                depth <= MAX_BTREE_DEPTH,
                1 <= block_size <= 0x1_0000_0000,
                all_leaf == forall|i: int| 0 <= i < entries@.len() ==> (#[trigger] entries@[i]).flags & 0x01 == 0,
                all_leaf ==> listings_of(results@) == start + leaf_listing(es.take(k as int)),
                extends(old(results)@, results@),
                walked(*old(self), *dir_entry, block_size, es.take(k as int), depth,
                    listings_of(results@).skip(old(results)@.len() as int)),
            decreases n - k,
        {
            let entry = &entries[k];
            let ghost before = listings_of(results@);
            let ghost before_r = results@;
            let ghost mut mid_r = results@;
            let ghost mut ces: Seq<IndexEntryView> = Seq::empty();
            if entry.has_child_node() {
                match entry.child_vcn {
                    Some(vcn) => {
                        match self.walk_indx_block(vcn, dir_entry, block_size, results, depth + 1) {
                            Ok(()) => {},
                            Err(e) => {
                                return Err(e);
                            },
                        }
                        proof {
                            mid_r = results@;
                            ces = choose|c: Seq<IndexEntryView>| #[trigger] block_entries(*old(self), *dir_entry, block_size, vcn, c)
                                && walked(*old(self), *dir_entry, block_size, c, (depth + 1) as u32,
                                    listings_of(mid_r).skip(before_r.len() as int));
                        }
                    },
                    None => {},
                }
            }
            if !entry.is_last() {
                match &entry.file_name {
                    Some(f) => {
                        results.push(DirectoryListing { child_ref: entry.child_ref, file_name: copy_file_name(f) });
                    },
                    None => {},
                }
            }
            proof {
                let v0 = *old(self);
                let l0 = old(results)@.len() as int;
                let b = before_r.len() as int;
                let m = mid_r.len() as int;
                let e = entries@[k as int]@;
                let all = listings_of(results@);
                assert(es[k as int] == e);
                let eo = all.skip(b);
                assert(eo.skip(m - b) =~= leaf_item(e));
                if e.flags & 0x01 != 0 && e.child_vcn is Some {
                    assert(eo.take(m - b) =~= listings_of(mid_r).skip(b));
                    assert(cut_below(eo, m - b, ces));
                } else {
                    assert(m == b);
                    assert(eo =~= leaf_item(e));
                }
                assert(entry_walked(v0, *dir_entry, block_size, e, depth, eo));
                let t = es.take(k as int + 1);
                assert(t.drop_last() =~= es.take(k as int));
                assert(t.last() == e);
                let out = all.skip(l0);
                assert(out.take(b - l0) =~= before.skip(l0));
                assert(out.skip(b - l0) =~= eo);
                assert(cut_at(out, b - l0));
                assert(walked(v0, *dir_entry, block_size, t, depth, out));
                if all_leaf {
                    assert(entries@[k as int].flags & 0x01 == 0);
                    assert(es.take(k as int + 1).drop_last() =~= es.take(k as int));
                    assert(es.take(k as int + 1).last() == entries@[k as int]@);
                    assert(listings_of(results@) =~= before + leaf_item(entries@[k as int]@));
                    assert(start + leaf_listing(es.take(k as int + 1)) =~= (start + leaf_listing(es.take(k as int))) + leaf_item(entries@[k as int]@));
                }
            }
            k = k + 1;
        }
        proof {
            assert(es.take(n as int) =~= es);
        }
        Ok(())
    }

    /// Reads the INDX block at `vcn` of the directory's `$INDEX_ALLOCATION` and
    /// walks its entries.
    fn walk_indx_block(
        &mut self,
        vcn: u64,
        dir_entry: &MftEntry,
        block_size: u64,
        results: &mut Vec<DirectoryListing>,
        depth: u32,
    ) -> (r: Result<(), VolumeError>)
        requires
            old(self).wf(),
            1 <= depth <= MAX_BTREE_DEPTH + 1,
            1 <= block_size <= 0x1_0000_0000,
        ensures
            final(self).wf(),
            *final(self) == *old(self),
            extends(old(results)@, final(results)@),
            index_alloc_runs(*dir_entry) matches Err(x) ==> r == Err::<(), VolumeError>(x),
            index_alloc_runs(*dir_entry) matches Ok(runs) ==> {
                &&& vcn * block_size > u64::MAX
                    ==> r == Err::<(), VolumeError>(VolumeError::IndexVcnOutOfRange { virtual_offset: u64::MAX })
                &&& vcn * block_size <= u64::MAX && !located(runs, old(self).spec_cluster_size(), vcn * block_size)
                    ==> r == Err::<(), VolumeError>(VolumeError::IndexVcnOutOfRange { virtual_offset: (vcn * block_size) as u64 })
            },
            depth > MAX_BTREE_DEPTH ==> r is Err,
            r matches Err(x) ==> walk_error(*dir_entry, x),
            r is Ok ==> exists|ces: Seq<IndexEntryView>| #[trigger] block_entries(*old(self), *dir_entry, block_size, vcn, ces)
                && walked(*old(self), *dir_entry, block_size, ces, depth, listings_of(final(results)@).skip(old(results)@.len() as int)),
        decreases MAX_BTREE_DEPTH + 2 - depth, 1int,
    {
        let first_off = dir_entry.header.first_attribute_offset as usize;
        let alloc_attr = match find_attribute(dir_entry.data.as_slice(), first_off, AttributeType::IndexAllocation) {
            Some(a) => a,
            None => {
                return Err(VolumeError::IndexAllocationMissing);
            },
        };
        proof {
            crate::attributes::lemma_find_in_bounds(dir_entry.data@, first_off as int, AttributeType::IndexAllocation);
        }
        let runlist_offset = match &alloc_attr.header {
            AttributeHeader::NonResident { non_resident, .. } => non_resident.runlist_offset as usize,
            _ => {
                return Err(VolumeError::IndexAllocationNotNonResident);
            },
        };
        let alen = alloc_attr.raw.len();
        if runlist_offset >= alen {
            return Err(VolumeError::Runlist(RunlistError::BufferTooSmall { got: alen }));
        }
        let rl_bytes = slice_subrange(alloc_attr.raw, runlist_offset, alen);
        proof {
            let off = alloc_attr.offset_in_entry as int;
            assert(rl_bytes@ =~= dir_entry.data@.subrange(off + runlist_offset, off + alloc_attr.header.spec_length()));
        }
        let runs = match parse_runlist(rl_bytes) {
            Ok(r) => r,
            Err(e) => {
                return Err(VolumeError::Runlist(e));
            },
        };
        proof {
            assert(index_alloc_runs(*dir_entry) == Ok::<Seq<Run>, VolumeError>(runs@));
        }
        let virtual_offset = match vcn.checked_mul(block_size) {
            Some(v) => v,
            None => {
                return Err(VolumeError::IndexVcnOutOfRange { virtual_offset: u64::MAX });
            },
        };
        let (lcn, byte_in_cluster) = match self.virtual_to_physical_in_runs(runs.as_slice(), virtual_offset) {
            Ok(p) => p,
            Err(e) => {
                return Err(e);
            },
        };
        let cs = self.cluster_size;
        let c0 = (byte_in_cluster + block_size + cs - 1) / cs;
        let clusters_to_read = if c0 < 1 { 1 } else { c0 };
        let ghost f0 = self.read_clusters;
        let raw = match (self.read_clusters)(lcn, clusters_to_read) {
            Ok(d) => d,
            Err(e) => {
                return Err(VolumeError::Io(e));
            },
        };
        proof {
            assert(reads(f0, lcn, clusters_to_read, raw@));
        }
        let bs = block_size as usize;
        let start = byte_in_cluster as usize;
        let rlen = raw.len();
        if start > rlen || bs > rlen - start {
            return Err(VolumeError::Io(short_read("INDX block read incomplete")));
        }
        let block_bytes = slice_subrange(raw.as_slice(), start, start + bs);
        let sector_size = self.boot_sector.bytes_per_sector;
        let indx = match parse_indx_block(block_bytes, sector_size) {
            Ok(b) => b,
            Err(e) => {
                return Err(VolumeError::Index(e));
            },
        };
        let first = indx.node_header.first_entry_offset as usize;
        let end_off = indx.node_header.end_of_entries_offset as usize;
        let node_hdr_abs = indx.node_header_offset;
        let s_abs = if first > usize::MAX - node_hdr_abs { usize::MAX } else { node_hdr_abs + first };
        let e_abs = if end_off > usize::MAX - node_hdr_abs { usize::MAX } else { node_hdr_abs + end_off };
        let dlen = indx.data.len();
        if e_abs > dlen || s_abs > e_abs {
            return Err(VolumeError::IndexVcnOutOfRange { virtual_offset });
        }
        let node = slice_subrange(indx.data.as_slice(), s_abs, e_abs);
        let entries = match parse_entries_in_node(node) {
            Ok(v) => v,
            Err(e) => {
                return Err(VolumeError::Index(e));
            },
        };
        proof {
            let v0 = *old(self);
            let runs_v = runs@;
            assert(index_alloc_runs(*dir_entry) == Ok::<Seq<Run>, VolumeError>(runs_v));
            assert(virtual_offset == vcn * block_size);
            let (l, o) = locate(runs_v, cs, vcn * block_size)->Some_0;
            assert(l == lcn && o == byte_in_cluster);
            assert(clusters_to_read == block_clusters(o, block_size as int, cs as int));
            assert(block_bytes@ == raw@.subrange(o, o + (block_size as usize)));
            assert(f0 == v0.reader());
            assert(sector_size == v0.spec_boot_sector().bytes_per_sector);
            let bb = block_bytes@;
            assert(bb.len() >= 0x28);
            assert(bb.subrange(0, 4) == MAGIC@);
            let (fixed, err) = spec_apply_fixup(bb, u16_at(bb, 4), u16_at(bb, 6), sector_size);
            assert(err is None);
            assert(indx.data@ == fixed);
            assert(indx.node_header == spec_node_header(fixed, 0x18));
            assert(node@ == fixed.subrange(s_abs as int, e_abs as int));
            assert(indx_entries(block_bytes@, sector_size, entries_of(entries@)));
            let cl = block_clusters(o, block_size as int, v0.spec_cluster_size() as int);
            assert(reads(v0.reader(), l as u64, cl as u64, raw@));
            assert(o + (block_size as usize) <= raw@.len());
            assert(indx_entries(raw@.subrange(o, o + (block_size as usize)), v0.spec_boot_sector().bytes_per_sector, entries_of(entries@)));
            assert(block_entries(v0, *dir_entry, block_size, vcn, entries_of(entries@)));
        }
        self.walk_entries(entries, dir_entry, block_size, results, depth)
    }

    /// Maps a virtual offset of an index allocation to its cluster and the
    /// offset within it; a sparse run or an offset past the end is refused.
    fn virtual_to_physical_in_runs(&self, runs: &[Run], virtual_offset: u64) -> (r: Result<(u64, u64), VolumeError>)
        requires
            self.wf(),
        ensures
            located(runs@, self.spec_cluster_size(), virtual_offset as int)
                ==> (r matches Ok((l, o)) && (l as int, o as int) == locate(runs@, self.spec_cluster_size(), virtual_offset as int)->Some_0
                    && o < self.spec_cluster_size()),
            !located(runs@, self.spec_cluster_size(), virtual_offset as int)
                ==> (r matches Err(VolumeError::IndexVcnOutOfRange { virtual_offset: vo }) && vo == virtual_offset),
    {
        match locate_in_runs(runs, self.cluster_size, virtual_offset) {
            Some(p) => Ok(p),
            None => Err(VolumeError::IndexVcnOutOfRange { virtual_offset }),
        }
    }

    /// The full path of MFT record `record_index`, resolved without a shared cache.
    pub fn full_path(&mut self, record_index: u64) -> (r: Result<String, VolumeError>)
        requires
            old(self).wf(),
        ensures
            final(self).wf(),
            *final(self) == *old(self),
            record_index == 5 ==> (r matches Ok(p) && p@ == crate::path::root_path()),
            r matches Ok(p) ==> crate::path::is_absolute(p@),
            r matches Ok(p) ==> crate::path::resolves_to(*old(self), crate::path::fresh_paths(), record_index, 0, p@),
            r matches Err(x) ==> crate::path::resolve_failure(*old(self), x),
    {
        let mut resolver = crate::path::PathResolver::new();
        proof {
            assert(resolver.paths() =~= crate::path::fresh_paths());
        }
        resolver.resolve(record_index, self)
    }

    /// Iterator over every file of the volume.
    pub fn iter_files(&mut self) -> (r: crate::file::NtfsFileIterator<'_, F>)
        requires
            old(self).wf(),
        ensures
            r.wf(),
            r.current() == 0,
            r.volume() == *old(self),
    {
        crate::file::NtfsFileIterator::new(self)
    }

    /// The file of one MFT record (`Ok(None)` when it has no `$FILE_NAME`).
    pub fn build_file(&mut self, record_index: u64) -> (r: Result<Option<crate::file::NtfsFile>, VolumeError>)
        requires
            old(self).wf(),
        ensures
            final(self).wf(),
            *final(self) == *old(self),
            record_index >= old(self).spec_total_records() ==> (r matches Err(VolumeError::RecordIndexOutOfRange { index, total })
                && index == record_index && total == old(self).spec_total_records()),
            r is Ok ==> exists|e: MftEntry| #![trigger record_read(*old(self), record_index, e)]
                record_read(*old(self), record_index, e) && match crate::attributes::file_name::best_name(
                    crate::attributes::file_name::name_candidates(e.data@, e.header.first_attribute_offset as int)) {
                    None => r matches Ok(None),
                    Some(v) => r matches Ok(Some(f)) && crate::file::file_matches(f, e, record_index, v),
                },
            r matches Ok(Some(f)) ==> crate::file::record_path(f.path@, *old(self), crate::path::fresh_paths(), record_index, f.name@),
            r matches Err(x) ==> record_read_error(*old(self), record_index, x) || exists|e: MftEntry| #![trigger record_read(*old(self), record_index, e)]
                record_read(*old(self), record_index, e)
                && crate::attributes::file_name::best_name(
                    crate::attributes::file_name::name_candidates(e.data@, e.header.first_attribute_offset as int)) is Some
                && crate::file::main_stream_error(crate::attributes::data::streams_from(e.data@, e.header.first_attribute_offset as int)) == Some(x),
    {
        let mut resolver = crate::path::PathResolver::new();
        proof {
            assert(resolver.paths() =~= crate::path::fresh_paths());
        }
        crate::file::build_file_for_record(self, record_index, &mut resolver)
    }

    /// The bytes of a file's main stream: the held bytes when resident, the
    /// runs read and cut to `real_size` when not, nothing when absent.
    pub fn read_file_content(&mut self, file: &crate::file::NtfsFile) -> (r: Result<Vec<u8>, VolumeError>)
        requires
            old(self).wf(),
        ensures
            final(self).wf(),
            *final(self) == *old(self),
            file.content matches crate::file::FileContentRef::Resident(b) ==> r matches Ok(v) && v@ == b@,
            file.content matches crate::file::FileContentRef::NoData ==> r matches Ok(v) && v@.len() == 0,
            file.content matches crate::file::FileContentRef::NonResident { real_size, runs } ==> (r matches Ok(v) ==> exists|chunks: Seq<Seq<u8>>| #![trigger crate::attributes::runlist::assembled(runs@, old(self).spec_cluster_size(), chunks)] {
                &&& chunks.len() == runs@.len()
                &&& forall|i: int| 0 <= i < runs@.len() && (#[trigger] runs@[i]).lcn is Some
                    ==> crate::attributes::runlist::read_gives(old(self).reader(), runs@[i], chunks[i])
                &&& v@ == crate::attributes::runlist::cut(crate::attributes::runlist::assembled(runs@, old(self).spec_cluster_size(), chunks), real_size as int)
            }),
    {
        match &file.content {
            crate::file::FileContentRef::Resident(bytes) => Ok(bytes.clone()),
            crate::file::FileContentRef::NonResident { real_size, runs } => {
                let cluster_size = self.cluster_size;
                let ghost f0 = self.read_clusters;
                let res = crate::attributes::runlist::read_runs(runs.as_slice(), cluster_size, *real_size, &mut self.read_clusters);
                proof {
                    assert(f0 == old(self).reader());
                    assert(self.read_clusters == f0);
                    assert(cluster_size == old(self).spec_cluster_size());
                    assert(res matches Ok(v) ==> exists|chunks: Seq<Seq<u8>>| #![trigger crate::attributes::runlist::assembled(runs@, cluster_size, chunks)] {
                        &&& chunks.len() == runs@.len()
                        &&& forall|i: int| 0 <= i < runs@.len() && (#[trigger] runs@[i]).lcn is Some
                            ==> crate::attributes::runlist::read_gives(f0, runs@[i], chunks[i])
                        &&& v@ == crate::attributes::runlist::cut(crate::attributes::runlist::assembled(runs@, cluster_size, chunks), *real_size as int)
                    });
                }
                match res {
                    Ok(v) => Ok(v),
                    Err(e) => Err(VolumeError::Runlist(e)),
                }
            },
            crate::file::FileContentRef::NoData => Ok(Vec::new()),
        }
    }

    /// Iterator over all MFT records in order, failures included.
    pub fn iter_records(&mut self) -> (r: NtfsMftIterator<'_, F>)
        requires
            old(self).wf(),
        ensures
            r.current() == 0,
            r.volume() == *old(self),
    {
        NtfsMftIterator { volume: self, current: 0 }
    }
}

/// The sum of the runs' byte lengths, each saturating as in [`Run::byte_length`].
fn sum_byte_lengths(runs: &[Run], cluster_size: u64) -> (r: u128)
    ensures
        r == total_bytes(runs@, cluster_size),
{
    let n = runs.len();
    let mut total: u128 = 0;
    let mut i: usize = 0;
    while i < n
        invariant
            n == runs@.len(),
            i <= n,
            total == total_bytes(runs@.take(i as int), cluster_size),
            total <= i * 0xFFFF_FFFF_FFFF_FFFFu64,
        decreases n - i,
    {
        proof {
            assert(runs@.take(i as int + 1).drop_last() =~= runs@.take(i as int));
        }
        let bl = runs[i].byte_length(cluster_size);
        total = total + bl as u128;
        i = i + 1;
    }
    proof {
        assert(runs@.take(n as int) =~= runs@);
    }
    total
}

/// Finds the cluster and in-cluster offset of virtual byte `vo` in `runs`.
fn locate_in_runs(runs: &[Run], cs: u64, vo: u64) -> (r: Option<(u64, u64)>)
    requires
        cs >= 1,
    ensures
        located(runs@, cs, vo as int) ==> (r matches Some((l, o)) && (l as int, o as int) == locate(runs@, cs, vo as int)->Some_0 && o < cs),
        !located(runs@, cs, vo as int) ==> r is None,
{
    let n = runs.len();
    let mut cumulative: u128 = 0;
    let mut i: usize = 0;
    proof {
        assert(runs@.subrange(0, n as int) =~= runs@);
    }
    while i < n
        invariant
            n == runs@.len(),
            i <= n,
            cs >= 1,
            cumulative <= vo,
            locate(runs@, cs, vo as int) == locate(runs@.subrange(i as int, n as int), cs, vo - cumulative),
        decreases n - i,
    {
        let run = runs[i];
        let run_bytes = run.byte_length(cs) as u128;
        proof {
            assert(runs@.subrange(i as int, n as int)[0] == run);
            assert(runs@.subrange(i as int, n as int).subrange(1, n - i) =~= runs@.subrange(i + 1, n as int));
        }
        if (vo as u128) < cumulative + run_bytes {
            let in_run = (vo as u128 - cumulative) as u64;
            match run.lcn {
                Some(base) => {
                    let q = in_run / cs;
                    proof {
                        vstd::arithmetic::div_mod::lemma_mod_pos_bound(in_run as int, cs as int);
                    }
                    match base.checked_add(q) {
                        Some(l) => {
                            return Some((l, in_run % cs));
                        },
                        None => {
                            return None;
                        },
                    }
                },
                None => {
                    return None;
                },
            }
        }
        cumulative = cumulative + run_bytes;
        i = i + 1;
    }
    proof {
        assert(runs@.subrange(n as int, n as int) =~= Seq::<Run>::empty());
    }
    None
}

/// The bytes left in the run that holds `vo`, from `vo` on (see
/// [`run_left`]).
fn left_in_runs(runs: &[Run], cs: u64, vo: u64) -> (r: u64)
    ensures
        r == run_left(runs@, cs, vo as int),
{
    let n = runs.len();
    let mut cumulative: u128 = 0;
    let mut i: usize = 0;
    proof {
        assert(runs@.subrange(0, n as int) =~= runs@);
    }
    while i < n
        invariant
            n == runs@.len(),
            i <= n,
            cumulative <= vo,
            run_left(runs@, cs, vo as int) == run_left(runs@.subrange(i as int, n as int), cs, vo - cumulative),
        decreases n - i,
    {
        let run = runs[i];
        let run_bytes = run.byte_length(cs) as u128;
        proof {
            assert(runs@.subrange(i as int, n as int)[0] == run);
            assert(runs@.subrange(i as int, n as int).subrange(1, n - i) =~= runs@.subrange(i + 1, n as int));
        }
        if (vo as u128) < cumulative + run_bytes {
            return (cumulative + run_bytes - vo as u128) as u64;
        }
        cumulative = cumulative + run_bytes;
        i = i + 1;
    }
    proof {
        assert(runs@.subrange(n as int, n as int) =~= Seq::<Run>::empty());
    }
    0
}

/// Where `vo` is located, bytes are left in its run.
proof fn lemma_located_left(runs: Seq<Run>, cs: u64, vo: int)
    requires
        vo >= 0,
        located(runs, cs, vo),
    ensures
        run_left(runs, cs, vo) > 0,
    decreases runs.len(),
{
    if runs.len() > 0 {
        let len = sat_mul(runs[0].length_clusters, cs) as int;
        if vo >= len {
            lemma_located_left(runs.subrange(1, runs.len() as int), cs, vo - len);
        }
    }
}

proof fn lemma_records_bound(runs: Seq<Run>, cs: u64, rs: int, index: int)
    requires
        rs >= 1,
        0 <= index < records_in(total_bytes(runs, cs), rs),
    ensures
        index * rs + rs <= total_bytes(runs, cs),
        index * rs + rs <= u64::MAX,
{
    let t0 = total_bytes(runs, cs);
    crate::attributes::runlist::lemma_total_bytes_bound(runs, cs);
    let t = if t0 > u64::MAX { u64::MAX as int } else { t0 };
    assert(index < t / rs);
    assert(index * rs + rs <= (t / rs) * rs) by (nonlinear_arith)
        requires index < t / rs, rs >= 1;
    assert((t / rs) * rs <= t) by (nonlinear_arith)
        requires rs >= 1, t >= 0;
}

/// Iterator over all MFT records, deleted and unused ones included; a record
/// that fails to read or parse is handed out as an error and the walk goes on.
pub struct NtfsMftIterator<'a, F> {
    volume: &'a mut NtfsVolume<F>,
    current: u64,
}

impl<'a, F: FnMut(u64, u64) -> Result<Vec<u8>, std::io::Error>> NtfsMftIterator<'a, F> {
    pub closed spec fn current(&self) -> u64 {
        self.current
    }

    pub closed spec fn volume(&self) -> NtfsVolume<F> {
        *self.volume
    }

    /// The next record index with its record (or the failure to read it);
    /// `None` after the last record.
    pub fn next(&mut self) -> (r: Option<(u64, Result<MftEntry, VolumeError>)>)
        requires
            old(self).volume().wf(),
        ensures
            final(self).volume() == old(self).volume(),
            old(self).current() >= old(self).volume().spec_total_records() ==> r is None && final(self).current() == old(self).current(),
            old(self).current() < old(self).volume().spec_total_records() ==> (r matches Some((i, _)) && i == old(self).current()
                && final(self).current() == old(self).current() + 1),
            r matches Some((i, Ok(e))) ==> record_read(old(self).volume(), i, e),
            r matches Some((i, Err(x))) ==> record_read_error(old(self).volume(), i, x),
    {
        if self.current >= self.volume.total_records {
            return None;
        }
        let idx = self.current;
        self.current = self.current + 1;
        let rec = self.volume.read_record(idx);
        Some((idx, rec))
    }
}

} // verus!
