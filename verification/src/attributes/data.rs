//! `$DATA` (type 0x80) parser: the bytes of a resident stream, the runlist
//! location of a non-resident one, and the stream's name and flags.

use vstd::prelude::*;
use crate::attribute::{AttributeCommonHeader, AttributeHeader, AttributeType};
use crate::attributes::{AttributeIterator, WalkStep, walk_step, slice_subrange};
use crate::attributes::file_name::{from_utf16, utf16_decode, utf16_units};

verus! {

pub const FLAG_COMPRESSED: u16 = 0x0001;
pub const FLAG_ENCRYPTED: u16 = 0x4000;
pub const FLAG_SPARSE: u16 = 0x8000;

/// The content of a `$DATA` attribute: the bytes themselves when resident,
/// where the runlist lies when not.
#[derive(Debug, Clone)]
pub enum DataContent<'a> {
    Resident { bytes: &'a [u8], size: u32 },
    NonResident {
        real_size: u64,
        allocated_size: u64,
        starting_vcn: u64,
        last_vcn: u64,
        runlist_offset_in_attr: usize,
        attribute_raw: &'a [u8],
    },
}

/// [`DataContent`] with its byte slices as sequences.
pub enum DataContentView {
    Resident { bytes: Seq<u8>, size: u32 },
    NonResident {
        real_size: u64,
        allocated_size: u64,
        starting_vcn: u64,
        last_vcn: u64,
        runlist_offset_in_attr: usize,
        attribute_raw: Seq<u8>,
    },
}

impl<'a> View for DataContent<'a> {
    type V = DataContentView;

    open spec fn view(&self) -> DataContentView {
        match self {
            DataContent::Resident { bytes, size } => DataContentView::Resident { bytes: bytes@, size: *size },
            DataContent::NonResident { real_size, allocated_size, starting_vcn, last_vcn, runlist_offset_in_attr, attribute_raw } =>
                DataContentView::NonResident {
                    real_size: *real_size,
                    allocated_size: *allocated_size,
                    starting_vcn: *starting_vcn,
                    last_vcn: *last_vcn,
                    runlist_offset_in_attr: *runlist_offset_in_attr,
                    attribute_raw: attribute_raw@,
                },
        }
    }
}

impl<'a> DataContent<'a> {
    pub fn is_resident(&self) -> (r: bool)
        ensures
            r == (self@ is Resident),
    {
        match self {
            DataContent::Resident { .. } => true,
            _ => false,
        }
    }

    pub fn is_non_resident(&self) -> (r: bool)
        ensures
            r == (self@ is NonResident),
    {
        !self.is_resident()
    }

    /// The logical size: `content_size` when resident, `real_size` otherwise.
    pub fn size(&self) -> (r: u64)
        ensures
            r == match self@ {
                DataContentView::Resident { size, .. } => size as u64,
                DataContentView::NonResident { real_size, .. } => real_size,
            },
    {
        match self {
            DataContent::Resident { size, .. } => *size as u64,
            DataContent::NonResident { real_size, .. } => *real_size,
        }
    }
}

/// One `$DATA` stream: the unnamed main stream (empty name) or an alternate
/// data stream.
#[derive(Debug, Clone)]
pub struct DataStream<'a> {
    pub name: String,
    pub content: DataContent<'a>,
    pub is_compressed: bool,
    pub is_encrypted: bool,
    pub is_sparse: bool,
}

pub struct DataStreamView {
    pub name: Seq<char>,
    pub content: DataContentView,
    pub is_compressed: bool,
    pub is_encrypted: bool,
    pub is_sparse: bool,
}

impl<'a> View for DataStream<'a> {
    type V = DataStreamView;

    open spec fn view(&self) -> DataStreamView {
        DataStreamView {
            name: self.name@,
            content: self.content@,
            is_compressed: self.is_compressed,
            is_encrypted: self.is_encrypted,
            is_sparse: self.is_sparse,
        }
    }
}

#[derive(Debug, Clone, PartialEq, Eq, Structural)]
pub enum DataError {
    ResidentBufferTooSmall,
    InvalidContentOffset { offset: u16 },
    InvalidStreamName,
}

/// The name of the attribute with bytes `raw` and common header `h`.
pub open spec fn spec_attribute_name(raw: Seq<u8>, h: AttributeCommonHeader) -> Result<Seq<char>, DataError> {
    if h.name_length == 0 {
        Ok(Seq::empty())
    } else {
        let off = h.name_offset as int;
        let end = off + 2 * h.name_length;
        if end > raw.len() {
            Err(DataError::InvalidStreamName)
        } else {
            match utf16_decode(utf16_units(raw, off, h.name_length as int)) {
                Some(name) => Ok(name),
                None => Err(DataError::InvalidStreamName),
            }
        }
    }
}

fn extract_attribute_name(raw: &[u8], h: &AttributeCommonHeader) -> (r: Result<String, DataError>)
    ensures
        match r {
            Ok(s) => spec_attribute_name(raw@, *h) == Ok::<Seq<char>, DataError>(s@),
            Err(e) => spec_attribute_name(raw@, *h) == Err::<Seq<char>, DataError>(e),
        },
{
    if h.name_length == 0 {
        return Ok(String::new());
    }
    let off = h.name_offset as usize;
    let units = h.name_length as usize;
    let n = raw.len();
    if off > n || 2 * units > n - off {
        return Err(DataError::InvalidStreamName);
    }
    let mut u: Vec<u16> = Vec::new();
    let mut i: usize = 0;
    while i < units
        invariant
            n == raw@.len(),
            i <= units,
            off + 2 * units <= n,
            u@ == utf16_units(raw@, off as int, i as int),
        decreases units - i,
    {
        let lo = raw[off + 2 * i] as u16;
        let hi = raw[off + 2 * i + 1] as u16;
        u.push(lo + 256 * hi);
        i = i + 1;
        proof {
            assert(u@ =~= utf16_units(raw@, off as int, i as int));
        }
    }
    match from_utf16(u.as_slice()) {
        Some(s) => Ok(s),
        None => Err(DataError::InvalidStreamName),
    }
}

/// The stream that the `$DATA` attribute with bytes `raw` and header `h` holds.
pub open spec fn spec_data_stream(raw: Seq<u8>, h: AttributeHeader) -> Result<DataStreamView, DataError> {
    match h.spec_common() {
        None => Err(DataError::ResidentBufferTooSmall),
        Some(c) => {
            if c.attribute_type != AttributeType::Data {
                Err(DataError::ResidentBufferTooSmall)
            } else {
                match spec_attribute_name(raw, c) {
                    Err(e) => Err(e),
                    Ok(name) => {
                        let content = match h {
                            AttributeHeader::Resident { resident, .. } => {
                                let s = resident.content_offset as int;
                                let e = s + resident.content_size as int;
                                if s > raw.len() {
                                    Err(DataError::InvalidContentOffset { offset: resident.content_offset })
                                } else if e > raw.len() {
                                    Err(DataError::ResidentBufferTooSmall)
                                } else {
                                    Ok(DataContentView::Resident { bytes: raw.subrange(s, e), size: resident.content_size })
                                }
                            },
                            AttributeHeader::NonResident { non_resident, .. } => Ok(DataContentView::NonResident {
                                real_size: non_resident.real_size,
                                allocated_size: non_resident.allocated_size,
                                starting_vcn: non_resident.starting_vcn,
                                last_vcn: non_resident.last_vcn,
                                runlist_offset_in_attr: non_resident.runlist_offset as usize,
                                attribute_raw: raw,
                            }),
                            AttributeHeader::End => Err(DataError::ResidentBufferTooSmall),
                        };
                        match content {
                            Err(e) => Err(e),
                            Ok(content) => Ok(DataStreamView {
                                name,
                                content,
                                is_compressed: c.flags & 0x0001 != 0,
                                is_encrypted: c.flags & 0x4000 != 0,
                                is_sparse: c.flags & 0x8000 != 0,
                            }),
                        }
                    },
                }
            }
        },
    }
}

/// Builds the stream of one `$DATA` attribute from its bytes and header.
pub fn parse_data_stream<'a>(attr_raw: &'a [u8], header: &AttributeHeader) -> (r: Result<DataStream<'a>, DataError>)
    ensures
        match r {
            Ok(s) => spec_data_stream(attr_raw@, *header) == Ok::<DataStreamView, DataError>(s@),
            Err(e) => spec_data_stream(attr_raw@, *header) == Err::<DataStreamView, DataError>(e),
        },
{
    let c = match header.common() {
        Some(c) => c,
        None => {
            return Err(DataError::ResidentBufferTooSmall);
        },
    };
    if c.attribute_type != AttributeType::Data {
        return Err(DataError::ResidentBufferTooSmall);
    }
    let name = match extract_attribute_name(attr_raw, c) {
        Ok(n) => n,
        Err(e) => {
            return Err(e);
        },
    };
    let n = attr_raw.len();
    let content = match header {
        AttributeHeader::Resident { resident, .. } => {
            let s = resident.content_offset as usize;
            if s > n {
                return Err(DataError::InvalidContentOffset { offset: resident.content_offset });
            }
            let cs = resident.content_size as usize;
            if cs > n - s {
                return Err(DataError::ResidentBufferTooSmall);
            }
            DataContent::Resident { bytes: slice_subrange(attr_raw, s, s + cs), size: resident.content_size }
        },
        AttributeHeader::NonResident { non_resident, .. } => DataContent::NonResident {
            real_size: non_resident.real_size,
            allocated_size: non_resident.allocated_size,
            starting_vcn: non_resident.starting_vcn,
            last_vcn: non_resident.last_vcn,
            runlist_offset_in_attr: non_resident.runlist_offset as usize,
            attribute_raw: attr_raw,
        },
        AttributeHeader::End => {
            return Err(DataError::ResidentBufferTooSmall);
        },
    };
    Ok(DataStream {
        name,
        content,
        is_compressed: c.flags & FLAG_COMPRESSED != 0,
        is_encrypted: c.flags & FLAG_ENCRYPTED != 0,
        is_sparse: c.flags & FLAG_SPARSE != 0,
    })
}

/// The streams that the `$DATA` attributes met by the walk from `cursor` hold,
/// in order; attributes that do not parse as a stream are passed over.
pub open spec fn streams_from(data: Seq<u8>, cursor: int) -> Seq<DataStreamView>
    decreases data.len() - cursor,
{
    match walk_step(data, cursor) {
        WalkStep::Item(h, length) => {
            let raw = data.subrange(cursor, cursor + length);
            let here = if h.spec_attribute_type() == AttributeType::Data {
                match spec_data_stream(raw, h) {
                    Ok(v) => seq![v],
                    Err(_) => Seq::empty(),
                }
            } else {
                Seq::empty()
            };
            if length > 0 {
                here + streams_from(data, cursor + length)
            } else {
                here
            }
        },
        _ => Seq::empty(),
    }
}

pub open spec fn streams_of<'a>(v: Seq<DataStream<'a>>) -> Seq<DataStreamView> {
    v.map_values(|s: DataStream<'a>| s@)
}

/// Every `$DATA` stream of an MFT entry, in attribute order.
pub fn extract_all_data_streams<'a>(entry_data: &'a [u8], first_attribute_offset: usize) -> (r: Vec<DataStream<'a>>)
    ensures
        streams_of(r@) == streams_from(entry_data@, first_attribute_offset as int),
{
    let mut out: Vec<DataStream<'a>> = Vec::new();
    let mut it = AttributeIterator::new(entry_data, first_attribute_offset);
    loop
        invariant_except_break
            !it.done(),
            streams_of(out@) + streams_from(entry_data@, it.cursor()) == streams_from(entry_data@, first_attribute_offset as int),
        invariant
            it.data() == entry_data@,
            0 <= it.cursor(),
        ensures
            streams_of(out@) == streams_from(entry_data@, first_attribute_offset as int),
        decreases entry_data@.len() - it.cursor(),
    {
        let ghost c = it.cursor();
        let ghost before = streams_of(out@);
        match it.next() {
            None => {
                proof {
                    assert(before + Seq::<DataStreamView>::empty() =~= before);
                }
                break;
            },
            Some(Err(_)) => {
                proof {
                    assert(before + Seq::<DataStreamView>::empty() =~= before);
                }
                break;
            },
            Some(Ok(a)) => {
                let ghost here = if a.header.spec_attribute_type() == AttributeType::Data {
                    match spec_data_stream(a.raw@, a.header) {
                        Ok(v) => seq![v],
                        Err(_) => Seq::<DataStreamView>::empty(),
                    }
                } else {
                    Seq::<DataStreamView>::empty()
                };
                if a.header.attribute_type() == AttributeType::Data {
                    match parse_data_stream(a.raw, &a.header) {
                        Ok(s) => {
                            out.push(s);
                        },
                        Err(_) => {},
                    }
                }
                proof {
                    assert(streams_of(out@) =~= before + here);
                    assert(streams_from(entry_data@, c) == here + streams_from(entry_data@, it.cursor()));
                    assert(before + (here + streams_from(entry_data@, it.cursor()))
                        =~= streams_of(out@) + streams_from(entry_data@, it.cursor()));
                }
            },
        }
    }
    out
}

/// Index of the first stream with an empty name, if any.
pub open spec fn first_unnamed(s: Seq<DataStreamView>) -> Option<int>
    decreases s.len(),
{
    if s.len() == 0 {
        None
    } else {
        match first_unnamed(s.drop_last()) {
            Some(i) => Some(i),
            None => if s.last().name.len() == 0 { Some(s.len() - 1) } else { None },
        }
    }
}

pub proof fn lemma_first_unnamed(s: Seq<DataStreamView>)
    ensures
        match first_unnamed(s) {
            Some(i) => 0 <= i < s.len() && s[i].name.len() == 0 && forall|j: int| 0 <= j < i ==> (#[trigger] s[j]).name.len() != 0,
            None => forall|j: int| 0 <= j < s.len() ==> (#[trigger] s[j]).name.len() != 0,
        },
    decreases s.len(),
{
    if s.len() > 0 {
        lemma_first_unnamed(s.drop_last());
        assert forall|j: int| 0 <= j < s.len() - 1 implies s.drop_last()[j] == s[j] by {}
    }
}

/// The unnamed (main) `$DATA` stream of an MFT entry.
pub fn extract_main_data_stream<'a>(entry_data: &'a [u8], first_attribute_offset: usize) -> (r: Option<DataStream<'a>>)
    ensures
        match first_unnamed(streams_from(entry_data@, first_attribute_offset as int)) {
            Some(i) => r matches Some(s) && s@ == streams_from(entry_data@, first_attribute_offset as int)[i],
            None => r is None,
        },
{
    let mut all = extract_all_data_streams(entry_data, first_attribute_offset);
    let ghost sv = streams_of(all@);
    proof {
        lemma_first_unnamed(sv);
    }
    let n = all.len();
    let mut i: usize = 0;
    while i < n
        invariant
            n == all@.len(),
            sv == streams_of(all@),
            sv == streams_from(entry_data@, first_attribute_offset as int),
            i <= n,
            forall|j: int| 0 <= j < i ==> (#[trigger] sv[j]).name.len() != 0,
        decreases n - i,
    {
        if all[i].name.as_str().is_empty() {
            proof {
                assert(sv[i as int] == all@[i as int]@);
                lemma_first_unnamed(sv);
            }
            let s = all.remove(i);
            return Some(s);
        }
        proof {
            assert(sv[i as int] == all@[i as int]@);
        }
        i = i + 1;
    }
    proof {
        lemma_first_unnamed(sv);
    }
    None
}

} // verus!
