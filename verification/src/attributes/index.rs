//! Directory indexes: `$INDEX_ROOT` (0x90) contents, INDX blocks of
//! `$INDEX_ALLOCATION` (0xA0), and the entries of one B+ tree node.

use vstd::prelude::*;
use crate::attributes::file_name::{parse_file_name, spec_parse_file_name, spec_mft_reference, FileName, FileNameError, FileNameView, MftReference};
use crate::attributes::slice_subrange;
use crate::fixup::{apply_fixup, spec_apply_fixup, FixupError};
use crate::le::{read_u16, read_u32, read_u64};
use crate::mft::{u16_at, u32_at, u64_at};

verus! {

pub const STD_HDR: usize = 16;
pub const NODE_HDR: usize = 16;
pub const INDX_HDR: usize = 0x18;
pub const INDX_PREFIX: usize = 0x28;
pub const ENTRY_HDR: usize = 16;
pub const FN_TYPE: u32 = 0x30;
pub const F_CHILD: u32 = 0x01;
pub const F_LAST: u32 = 0x02;
/// `INDX`.
pub const MAGIC: [u8; 4] = [0x49, 0x4E, 0x44, 0x58];

#[allow(inconsistent_fields)]
#[derive(Debug, Clone)]
pub enum IndexError {
    BufferTooSmall { got: usize, need: usize },
    InvalidIndxMagic { got: [u8; 4] },
    UnsupportedIndexType { got: u32 },
    EntryLengthZero,
    EntryLengthExceedsBuffer { length: u16, remaining: usize },
    FileName(FileNameError),
    Fixup(FixupError),
}

/// The 16-byte node header shared by `$INDEX_ROOT` and INDX blocks.
#[derive(Debug, Clone, Copy, PartialEq, Eq, Structural)]
pub struct IndexNodeHeader {
    pub first_entry_offset: u32,
    pub end_of_entries_offset: u32,
    pub end_of_buffer_offset: u32,
    /// Bit 0: the node has children (INDX blocks in `$INDEX_ALLOCATION`).
    pub flags: u8,
}

impl IndexNodeHeader {
    pub fn has_children(&self) -> (r: bool)
        ensures
            r == (self.flags & 0x01 != 0),
    {
        self.flags & 0x01 != 0
    }
}

/// The content of an `$INDEX_ROOT`; `node_body` starts at the first entry slot.
#[derive(Debug)]
pub struct IndexRoot<'a> {
    pub index_type: u32,
    pub collation_rule: u32,
    pub bytes_per_index_record: u32,
    pub clusters_per_index_record: i8,
    pub node_header: IndexNodeHeader,
    pub node_body: &'a [u8],
}

/// One INDX block of `$INDEX_ALLOCATION`, fixup applied.
#[derive(Debug)]
pub struct IndxBlock {
    pub vcn: u64,
    pub node_header: IndexNodeHeader,
    /// The whole block after the fixup.
    pub data: Vec<u8>,
    /// Where the node header starts in `data` (always 0x18).
    pub node_header_offset: usize,
}

impl IndxBlock {
    /// The entries area right after the node header.
    pub fn node_body(&self) -> (r: &[u8])
        requires
            self.node_header_offset + 16 <= self.data@.len(),
        ensures
            r@ == self.data@.subrange(self.node_header_offset + 16, self.data@.len() as int),
    {
        let n = self.data.len();
        slice_subrange(self.data.as_slice(), self.node_header_offset + NODE_HDR, n)
    }
}

/// One index entry; the last entry of a node carries no file name.
#[derive(Debug, Clone)]
pub struct IndexEntry {
    pub child_ref: MftReference,
    pub entry_length: u16,
    pub flags: u32,
    pub file_name: Option<FileName>,
    /// VCN of the child INDX block, when the entry has one.
    pub child_vcn: Option<u64>,
}

pub struct IndexEntryView {
    pub child_ref: MftReference,
    pub entry_length: u16,
    pub flags: u32,
    pub file_name: Option<FileNameView>,
    pub child_vcn: Option<u64>,
}

impl View for IndexEntry {
    type V = IndexEntryView;

    open spec fn view(&self) -> IndexEntryView {
        IndexEntryView {
            child_ref: self.child_ref,
            entry_length: self.entry_length,
            flags: self.flags,
            file_name: match self.file_name {
                Some(f) => Some(f@),
                None => None,
            },
            child_vcn: self.child_vcn,
        }
    }
}

impl IndexEntry {
    /// The last entry of its node (no file name; B+ tree navigation only).
    pub fn is_last(&self) -> (r: bool)
        ensures
            r == (self.flags & 0x02 != 0),
    {
        self.flags & F_LAST != 0
    }

    /// Whether the entry points to a child INDX block.
    pub fn has_child_node(&self) -> (r: bool)
        ensures
            r == (self.flags & 0x01 != 0),
    {
        self.flags & F_CHILD != 0
    }
}

pub open spec fn spec_node_header(b: Seq<u8>, o: int) -> IndexNodeHeader {
    IndexNodeHeader {
        first_entry_offset: u32_at(b, o),
        end_of_entries_offset: u32_at(b, o + 4),
        end_of_buffer_offset: u32_at(b, o + 8),
        flags: b[o + 12],
    }
}

fn parse_index_node_header(bytes: &[u8], o: usize) -> (r: IndexNodeHeader)
    requires
        o + 16 <= bytes@.len(),
    ensures
        r == spec_node_header(bytes@, o as int),
{
    let _n = bytes.len();
    IndexNodeHeader {
        first_entry_offset: read_u32(bytes, o),
        end_of_entries_offset: read_u32(bytes, o + 4),
        end_of_buffer_offset: read_u32(bytes, o + 8),
        flags: bytes[o + 12],
    }
}

/// Parses the content of an `$INDEX_ROOT`. Only `$FILE_NAME` indexes (type
/// 0x30) are accepted.
pub fn parse_index_root(bytes: &[u8]) -> (r: Result<IndexRoot<'_>, IndexError>)
    ensures
        bytes@.len() < 32 ==> (r matches Err(IndexError::BufferTooSmall { got, need }) && got == bytes@.len() && need == 32),
        bytes@.len() >= 32 && u32_at(bytes@, 0) != 0x30 ==> (r matches Err(IndexError::UnsupportedIndexType { got }) && got == u32_at(bytes@, 0)),
        bytes@.len() >= 32 && u32_at(bytes@, 0) == 0x30 ==> (r matches Ok(ir) && {
            &&& ir.index_type == 0x30
            &&& ir.collation_rule == u32_at(bytes@, 4)
            &&& ir.bytes_per_index_record == u32_at(bytes@, 8)
            &&& ir.clusters_per_index_record == bytes@[12] as i8
            &&& ir.node_header == spec_node_header(bytes@, 16)
            &&& ir.node_body@ == bytes@.subrange(32, bytes@.len() as int)
        }),
{
    let n = bytes.len();
    if n < STD_HDR + NODE_HDR {
        return Err(IndexError::BufferTooSmall { got: n, need: STD_HDR + NODE_HDR });
    }
    let index_type = read_u32(bytes, 0);
    if index_type != FN_TYPE {
        return Err(IndexError::UnsupportedIndexType { got: index_type });
    }
    let node_header = parse_index_node_header(bytes, STD_HDR);
    Ok(IndexRoot {
        index_type,
        collation_rule: read_u32(bytes, 4),
        bytes_per_index_record: read_u32(bytes, 8),
        clusters_per_index_record: bytes[12] as i8,
        node_header,
        node_body: slice_subrange(bytes, STD_HDR + NODE_HDR, n),
    })
}

/// Parses a whole INDX block, applying its fixup with `sector_size`-byte sectors.
pub fn parse_indx_block(bytes: &[u8], sector_size: u16) -> (r: Result<IndxBlock, IndexError>)
    ensures
        bytes@.len() < 0x28 ==> (r matches Err(IndexError::BufferTooSmall { got, need }) && got == bytes@.len() && need == 0x28),
        bytes@.len() >= 0x28 && bytes@.subrange(0, 4) != MAGIC@ ==> (r matches Err(IndexError::InvalidIndxMagic { got }) && got@ == bytes@.subrange(0, 4)),
        bytes@.len() >= 0x28 && bytes@.subrange(0, 4) == MAGIC@ ==> ({
            let (fixed, e) = spec_apply_fixup(bytes@, u16_at(bytes@, 4), u16_at(bytes@, 6), sector_size);
            match e {
                Some(err) => r matches Err(IndexError::Fixup(f)) && f == err,
                None => r matches Ok(blk) && {
                    &&& blk.vcn == u64_at(bytes@, 0x10)
                    &&& blk.data@ == fixed
                    &&& blk.node_header == spec_node_header(fixed, 0x18)
                    &&& blk.node_header_offset == 0x18
                },
            }
        }),
{
    let n = bytes.len();
    if n < INDX_PREFIX {
        return Err(IndexError::BufferTooSmall { got: n, need: INDX_PREFIX });
    }
    let magic: [u8; 4] = [bytes[0], bytes[1], bytes[2], bytes[3]];
    if !(magic[0] == MAGIC[0] && magic[1] == MAGIC[1] && magic[2] == MAGIC[2] && magic[3] == MAGIC[3]) {
        proof {
            assert(!(bytes@.subrange(0, 4) =~= MAGIC@));
            assert(magic@ =~= bytes@.subrange(0, 4));
        }
        return Err(IndexError::InvalidIndxMagic { got: magic });
    }
    proof {
        assert(bytes@.subrange(0, 4) =~= MAGIC@);
    }
    let usa_offset = read_u16(bytes, 4);
    let usa_size = read_u16(bytes, 6);
    let vcn = read_u64(bytes, 0x10);
    let mut data = vstd::slice::slice_to_vec(bytes);
    match apply_fixup(data.as_mut_slice(), usa_offset, usa_size, sector_size) {
        Ok(()) => {},
        Err(e) => {
            return Err(IndexError::Fixup(e));
        },
    }
    proof {
        crate::fixup::lemma_fixup_len(bytes@, usa_offset, usa_size, sector_size);
    }
    let node_header = parse_index_node_header(data.as_slice(), INDX_HDR);
    Ok(IndxBlock { vcn, node_header, data, node_header_offset: INDX_HDR })
}

/// Prefixes an entry to the outcome of decoding the rest of the node.
pub open spec fn entry_chain(e: IndexEntryView, rest: Result<Seq<IndexEntryView>, IndexError>) -> Result<Seq<IndexEntryView>, IndexError> {
    match rest {
        Ok(s) => Ok(seq![e] + s),
        Err(err) => Err(err),
    }
}

/// The entries of the node `b` from offset `c` on, up to and including the
/// entry flagged last.
pub open spec fn entries_from(b: Seq<u8>, c: int) -> Result<Seq<IndexEntryView>, IndexError>
    decreases b.len() - c,
{
    if c < 0 || c + 16 > b.len() {
        Err(IndexError::BufferTooSmall { got: (b.len() - c) as usize, need: 16 })
    } else {
        let elen = u16_at(b, c + 8);
        let fn_len = u16_at(b, c + 10);
        let flags = u32_at(b, c + 12);
        if elen == 0 {
            Err(IndexError::EntryLengthZero)
        } else if c + elen > b.len() {
            Err(IndexError::EntryLengthExceedsBuffer { length: elen, remaining: (b.len() - c) as usize })
        } else {
            let is_last = flags & 0x02 != 0;
            let has_child = flags & 0x01 != 0;
            let name: Result<Option<FileNameView>, IndexError> = if !is_last && fn_len > 0 {
                if c + 16 + fn_len > c + elen {
                    Err(IndexError::EntryLengthExceedsBuffer {
                        length: fn_len,
                        remaining: if elen >= 16 { (elen - 16) as usize } else { 0 },
                    })
                } else {
                    match spec_parse_file_name(b.subrange(c + 16, c + 16 + fn_len)) {
                        Ok(v) => Ok(Some(v)),
                        Err(e) => Err(IndexError::FileName(e)),
                    }
                }
            } else {
                Ok(None)
            };
            match name {
                Err(e) => Err(e),
                Ok(file_name) => {
                    let entry = IndexEntryView {
                        child_ref: spec_mft_reference(u64_at(b, c)),
                        entry_length: elen,
                        flags,
                        file_name,
                        child_vcn: if has_child && elen >= 8 { Some(u64_at(b, c + elen - 8)) } else { None },
                    };
                    if is_last {
                        Ok(seq![entry])
                    } else {
                        entry_chain(entry, entries_from(b, c + elen))
                    }
                },
            }
        }
    }
}

pub open spec fn entries_of(v: Seq<IndexEntry>) -> Seq<IndexEntryView> {
    v.map_values(|e: IndexEntry| e@)
}

/// Appends what has been decoded so far to the outcome for the rest.
pub open spec fn entries_prefixed(p: Seq<IndexEntryView>, rest: Result<Seq<IndexEntryView>, IndexError>) -> Result<Seq<IndexEntryView>, IndexError> {
    match rest {
        Ok(s) => Ok(p + s),
        Err(e) => Err(e),
    }
}

/// Decodes the entries of one node in order, the last-flagged entry included;
/// bytes after it are ignored.
pub fn parse_entries_in_node(node_body: &[u8]) -> (r: Result<Vec<IndexEntry>, IndexError>)
    ensures
        match r {
            Ok(v) => entries_from(node_body@, 0) == Ok::<Seq<IndexEntryView>, IndexError>(entries_of(v@)),
            Err(e) => entries_from(node_body@, 0) == Err::<Seq<IndexEntryView>, IndexError>(e),
        },
{
    let n = node_body.len();
    let mut entries: Vec<IndexEntry> = Vec::new();
    let mut cursor: usize = 0;
    proof {
        assert(entries_prefixed(entries_of(entries@), entries_from(node_body@, 0)) == entries_from(node_body@, 0)) by {
            if entries_from(node_body@, 0) is Ok {
                assert(entries_of(entries@) + entries_from(node_body@, 0)->Ok_0 =~= entries_from(node_body@, 0)->Ok_0);
            }
        }
    }
    loop
        invariant
            n == node_body@.len(),
            cursor <= n,
            entries_from(node_body@, 0) == entries_prefixed(entries_of(entries@), entries_from(node_body@, cursor as int)),
        decreases n - cursor,
    {
        let ghost c = cursor as int;
        if n - cursor < ENTRY_HDR {
            return Err(IndexError::BufferTooSmall { got: n - cursor, need: ENTRY_HDR });
        }
        let child_raw = read_u64(node_body, cursor);
        let elen_u16 = read_u16(node_body, cursor + 8);
        let fn_len = read_u16(node_body, cursor + 10);
        let flags = read_u32(node_body, cursor + 12);
        if elen_u16 == 0 {
            return Err(IndexError::EntryLengthZero);
        }
        let elen = elen_u16 as usize;
        if elen > n - cursor {
            return Err(IndexError::EntryLengthExceedsBuffer { length: elen_u16, remaining: n - cursor });
        }
        let is_last = flags & F_LAST != 0;
        let has_child = flags & F_CHILD != 0;
        let file_name = if !is_last && fn_len > 0 {
            let fl = fn_len as usize;
            if ENTRY_HDR + fl > elen {
                let remaining = if elen >= ENTRY_HDR { elen - ENTRY_HDR } else { 0 };
                return Err(IndexError::EntryLengthExceedsBuffer { length: fn_len, remaining });
            }
            match parse_file_name(slice_subrange(node_body, cursor + ENTRY_HDR, cursor + ENTRY_HDR + fl)) {
                Ok(f) => Some(f),
                Err(e) => {
                    return Err(IndexError::FileName(e));
                },
            }
        } else {
            None
        };
        let child_vcn = if has_child && elen >= 8 {
            Some(read_u64(node_body, cursor + elen - 8))
        } else {
            None
        };
        let entry = IndexEntry {
            child_ref: MftReference::from_raw(child_raw),
            entry_length: elen_u16,
            flags,
            file_name,
            child_vcn,
        };
        let ghost prev = entries_of(entries@);
        entries.push(entry);
        cursor = cursor + elen;
        proof {
            assert(entries_of(entries@) =~= prev + seq![entry@]);
        }
        if is_last {
            proof {
                assert(entries_from(node_body@, c) == Ok::<Seq<IndexEntryView>, IndexError>(seq![entry@]));
            }
            return Ok(entries);
        }
        proof {
            assert(entries_from(node_body@, c) == entry_chain(entry@, entries_from(node_body@, cursor as int)));
            let rest = entries_from(node_body@, cursor as int);
            if rest is Ok {
                assert(prev + (seq![entry@] + rest->Ok_0) =~= entries_of(entries@) + rest->Ok_0);
            }
        }
    }
}

} // verus!
