//! One owned value per NTFS file or directory: name, path, timestamps,
//! attributes and where its main `$DATA` lies, built from one MFT record.

use vstd::prelude::*;
use vstd::string::StringExecFns;
use crate::attribute::{AttributeHeader, AttributeType};
use crate::attributes::{find_attribute, slice_subrange, spec_find};
use crate::attributes::data::{extract_all_data_streams, streams_from, streams_of, first_unnamed, DataContent, DataContentView, DataStreamView};
use crate::attributes::file_name::{find_best_file_name, best_name, name_candidates, FileName, FileNameView, MftReference};
use crate::attributes::runlist::{parse_runlist, spec_parse_runlist, Run, RunlistError};
use crate::attributes::standard_information::{parse_standard_information, spec_standard_information, filetime_unix_parts, FileAttributes, FileTime, StandardInformation};
use crate::mft::MftEntry;
use crate::path::{PathResolver, is_absolute, resolves_to, root_path};
use crate::time::{UtcTime, chrono_accepts};
use crate::volume::{NtfsVolume, VolumeError, record_read, record_read_error};

verus! {

/// Where the bytes of a file's main stream are: held here when resident,
/// described by runs when not, or absent.
#[derive(Debug, Clone)]
pub enum FileContentRef {
    Resident(Vec<u8>),
    NonResident { real_size: u64, runs: Vec<Run> },
    /// No `$DATA` attribute (directories, some metafiles).
    NoData,
}

impl FileContentRef {
    pub fn is_resident(&self) -> (r: bool)
        ensures
            r == (*self is Resident),
    {
        match self {
            FileContentRef::Resident(_) => true,
            _ => false,
        }
    }

    /// The logical size: the byte count when resident, `real_size` when not, 0 when absent.
    pub fn size(&self) -> (r: u64)
        ensures
            r == match *self {
                FileContentRef::Resident(b) => b@.len() as u64,
                FileContentRef::NonResident { real_size, .. } => real_size,
                FileContentRef::NoData => 0,
            },
    {
        match self {
            FileContentRef::Resident(bytes) => bytes.len() as u64,
            FileContentRef::NonResident { real_size, .. } => *real_size,
            FileContentRef::NoData => 0,
        }
    }
}

/// One NTFS file or directory.
#[derive(Debug, Clone)]
pub struct NtfsFile {
    pub record_index: u64,
    /// Full NTFS path such as `\dir\file.txt`; the root is `\`.
    pub path: String,
    pub name: String,
    pub parent: MftReference,
    pub is_directory: bool,
    pub is_deleted: bool,
    pub created: Option<UtcTime>,
    pub modified: Option<UtcTime>,
    pub accessed: Option<UtcTime>,
    pub mft_modified: Option<UtcTime>,
    pub file_attributes: FileAttributes,
    pub has_alternate_streams: bool,
    pub is_compressed: bool,
    pub is_encrypted: bool,
    pub is_sparse: bool,
    pub content: FileContentRef,
    /// Size of the main stream; 0 without one.
    pub size: u64,
}

/// What `str::to_lowercase` gives for a text.
pub uninterp spec fn lowercase_of(s: Seq<char>) -> Seq<char>;

/// Calls `str::to_lowercase`, which maps every character to its Unicode
/// lowercase; the text is a function of the input.
#[verifier::external_body]
fn to_lowercase(s: &str) -> (r: String)
    ensures
        r@ == lowercase_of(s@),
{
    s.to_lowercase()
}

/// Index of the last `c` in `s`.
pub open spec fn last_index_of(s: Seq<char>, c: char) -> Option<int>
    decreases s.len(),
{
    if s.len() == 0 {
        None
    } else if s.last() == c {
        Some(s.len() - 1)
    } else {
        last_index_of(s.drop_last(), c)
    }
}

pub proof fn lemma_last_index_of(s: Seq<char>, c: char)
    ensures
        match last_index_of(s, c) {
            Some(i) => 0 <= i < s.len() && s[i] == c && forall|j: int| i < j < s.len() ==> s[j] != c,
            None => forall|j: int| 0 <= j < s.len() ==> s[j] != c,
        },
    decreases s.len(),
{
    if s.len() > 0 && s.last() != c {
        lemma_last_index_of(s.drop_last(), c);
        assert forall|j: int| 0 <= j < s.len() - 1 implies s.drop_last()[j] == s[j] by {}
    }
}

/// The lowercase extension of a name: the text after its last dot.
pub open spec fn extension_of(name: Seq<char>) -> Option<Seq<char>> {
    match last_index_of(name, '.') {
        Some(i) => Some(lowercase_of(name.subrange(i + 1, name.len() as int))),
        None => None,
    }
}

impl NtfsFile {
    /// The root directory (MFT record 5).
    pub fn is_root(&self) -> (r: bool)
        ensures
            r == (self.record_index == 5),
    {
        self.record_index == 5
    }

    /// A system metafile: MFT records 0 to 23 are reserved.
    pub fn is_system_metafile(&self) -> (r: bool)
        ensures
            r == (self.record_index < 24),
    {
        self.record_index < 24
    }

    /// A user file (deleted or not): neither a directory nor a metafile.
    pub fn is_user_file(&self) -> (r: bool)
        ensures
            r == (!self.is_directory && self.record_index >= 24),
    {
        !self.is_directory && !self.is_system_metafile()
    }

    /// The lowercase text after the last dot of the name, if there is a dot.
    pub fn extension(&self) -> (r: Option<String>)
        ensures
            match extension_of(self.name@) {
                Some(e) => r matches Some(s) && s@ == e,
                None => r is None,
            },
    {
        let s = self.name.as_str();
        let n = s.unicode_len();
        let mut i = n;
        proof {
            lemma_last_index_of(self.name@, '.');
        }
        while i > 0
            invariant
                n == s@.len(),
                s@ == self.name@,
                i <= n,
                forall|j: int| i <= j < n ==> s@[j] != '.',
            decreases i,
        {
            if s.get_char(i - 1) == '.' {
                proof {
                    assert(last_index_of(s@, '.') == Some((i - 1) as int)) by {
                        lemma_last_index_of(s@, '.');
                    }
                }
                let ext = s.substring_char(i, n);
                return Some(to_lowercase(ext));
            }
            i = i - 1;
        }
        proof {
            lemma_last_index_of(s@, '.');
        }
        None
    }

    /// Deleted user file stored plainly (neither compressed nor encrypted):
    /// the simplest case to recover.
    pub fn is_simple_deleted_user_file(&self) -> (r: bool)
        ensures
            r == (self.is_deleted && !self.is_directory && self.record_index >= 24 && !self.is_compressed
                && !self.is_encrypted),
    {
        self.is_deleted && self.is_user_file() && !self.is_compressed && !self.is_encrypted
    }

    /// Whether the name starts with `$` (system files, and recycle bin items).
    pub fn has_system_name_prefix(&self) -> (r: bool)
        ensures
            r == (self.name@.len() > 0 && self.name@[0] == '$'),
    {
        let s = self.name.as_str();
        s.unicode_len() > 0 && s.get_char(0) == '$'
    }
}

/// The instant of a FILETIME as seconds and nanoseconds, when chrono has it.
pub open spec fn filetime_instant(ft: u64) -> Option<(i64, u32)> {
    match filetime_unix_parts(ft) {
        Some((s, n)) => if chrono_accepts(s, n) { Some((s, n)) } else { None },
        None => None,
    }
}

/// The seconds and nanoseconds of an optional instant.
pub open spec fn instant_of(t: Option<UtcTime>) -> Option<(i64, u32)> {
    match t {
        Some(u) => Some((u.secs(), u.nanos())),
        None => None,
    }
}

/// The `$STANDARD_INFORMATION` of a record, when it has a resident one that parses.
pub open spec fn record_si(e: MftEntry) -> Option<StandardInformation> {
    match spec_find(e.data@, e.header.first_attribute_offset as int, AttributeType::StandardInformation) {
        Some((h, off)) => match h {
            AttributeHeader::Resident { resident, .. } => {
                let raw = e.data@.subrange(off, off + h.spec_length());
                let co = resident.content_offset as int;
                let ce = co + resident.content_size as int;
                if ce > raw.len() || ce - co < 48 {
                    None
                } else {
                    Some(spec_standard_information(raw.subrange(co, ce)))
                }
            },
            _ => None,
        },
        None => None,
    }
}

/// Created, modified, accessed, MFT-modified instants and the attribute bits:
/// from `$STANDARD_INFORMATION`, else from the `$FILE_NAME`.
pub open spec fn stamps_of(e: MftEntry, f: FileNameView) -> (Option<(i64, u32)>, Option<(i64, u32)>, Option<(i64, u32)>, Option<(i64, u32)>, u32) {
    match record_si(e) {
        Some(si) => (
            filetime_instant(si.created.0),
            filetime_instant(si.modified.0),
            filetime_instant(si.accessed.0),
            filetime_instant(si.mft_modified.0),
            si.file_attributes.0,
        ),
        None => (
            filetime_instant(f.created),
            filetime_instant(f.modified),
            filetime_instant(f.accessed),
            filetime_instant(f.mft_modified),
            f.file_attributes,
        ),
    }
}

fn to_instant(ft: FileTime) -> (r: Option<UtcTime>)
    ensures
        instant_of(r) == filetime_instant(ft.0),
{
    ft.to_datetime()
}

/// The timestamps and attribute bits of a record, `$STANDARD_INFORMATION`
/// first and the `$FILE_NAME` stamps when it is missing or damaged.
fn extract_si_or_fallback(entry: &MftEntry, first_attr_offset: usize, fn_: &FileName)
    -> (r: (Option<UtcTime>, Option<UtcTime>, Option<UtcTime>, Option<UtcTime>, FileAttributes))
    requires
        first_attr_offset == entry.header.first_attribute_offset,
    ensures
        (instant_of(r.0), instant_of(r.1), instant_of(r.2), instant_of(r.3), r.4.0) == stamps_of(*entry, fn_@),
{
    let fallback = (
        to_instant(fn_.created),
        to_instant(fn_.modified),
        to_instant(fn_.accessed),
        to_instant(fn_.mft_modified),
        FileAttributes(fn_.file_attributes.0),
    );
    let si_attr = match find_attribute(entry.data.as_slice(), first_attr_offset, AttributeType::StandardInformation) {
        Some(a) => a,
        None => {
            return fallback;
        },
    };
    proof {
        crate::attributes::lemma_find_in_bounds(entry.data@, first_attr_offset as int, AttributeType::StandardInformation);
    }
    let (co, cs) = match &si_attr.header {
        AttributeHeader::Resident { resident, .. } => (resident.content_offset as usize, resident.content_size as usize),
        _ => {
            return fallback;
        },
    };
    let alen = si_attr.raw.len();
    if co > alen || cs > alen - co {
        return fallback;
    }
    match parse_standard_information(slice_subrange(si_attr.raw, co, co + cs)) {
        Ok(si) => (
            to_instant(si.created),
            to_instant(si.modified),
            to_instant(si.accessed),
            to_instant(si.mft_modified),
            si.file_attributes,
        ),
        Err(_) => fallback,
    }
}

/// The main-stream facts of a record: content, size, and the compressed,
/// encrypted and sparse flags; `None` when the runlist of a non-resident main
/// stream does not decode.
pub open spec fn main_stream_of(streams: Seq<DataStreamView>) -> Option<(ContentView, u64, bool, bool, bool)> {
    match first_unnamed(streams) {
        None => Some((ContentView::NoData, 0, false, false, false)),
        Some(i) => {
            let s = streams[i];
            match s.content {
                DataContentView::Resident { bytes, size } => Some((ContentView::Resident(bytes), size as u64, s.is_compressed, s.is_encrypted, s.is_sparse)),
                DataContentView::NonResident { real_size, runlist_offset_in_attr, attribute_raw, .. } => {
                    if runlist_offset_in_attr > attribute_raw.len() {
                        None
                    } else {
                        match spec_parse_runlist(attribute_raw.subrange(runlist_offset_in_attr as int, attribute_raw.len() as int)) {
                            Ok(runs) => Some((ContentView::NonResident { real_size, runs }, real_size, s.is_compressed, s.is_encrypted, s.is_sparse)),
                            Err(_) => None,
                        }
                    }
                },
            }
        },
    }
}

/// Why the main data stream of a record cannot be taken: its runlist offset
/// lies past the attribute, or its runlist does not decode.
pub open spec fn main_stream_error(streams: Seq<DataStreamView>) -> Option<VolumeError> {
    match first_unnamed(streams) {
        None => None,
        Some(i) => match streams[i].content {
            DataContentView::Resident { .. } => None,
            DataContentView::NonResident { runlist_offset_in_attr, attribute_raw, .. } => {
                if runlist_offset_in_attr > attribute_raw.len() {
                    Some(VolumeError::Runlist(RunlistError::BufferTooSmall { got: attribute_raw.len() as usize }))
                } else {
                    match spec_parse_runlist(attribute_raw.subrange(runlist_offset_in_attr as int, attribute_raw.len() as int)) {
                        Ok(_) => None,
                        Err(x) => Some(VolumeError::Runlist(x)),
                    }
                }
            },
        },
    }
}

/// [`FileContentRef`] with its vectors as sequences.
pub enum ContentView {
    Resident(Seq<u8>),
    NonResident { real_size: u64, runs: Seq<Run> },
    NoData,
}

pub open spec fn content_view(c: FileContentRef) -> ContentView {
    match c {
        FileContentRef::Resident(b) => ContentView::Resident(b@),
        FileContentRef::NonResident { real_size, runs } => ContentView::NonResident { real_size, runs: runs@ },
        FileContentRef::NoData => ContentView::NoData,
    }
}

/// Whether some stream has a name.
pub open spec fn has_named(streams: Seq<DataStreamView>) -> bool {
    exists|i: int| 0 <= i < streams.len() && (#[trigger] streams[i]).name.len() != 0
}

/// The file that record `e` (number `idx`) describes, given the best name
/// `v` of the record: everything but the path, which depends on the parents.
pub open spec fn file_matches(f: NtfsFile, e: MftEntry, idx: u64, v: FileNameView) -> bool {
    let streams = streams_from(e.data@, e.header.first_attribute_offset as int);
    let stamps = stamps_of(e, v);
    &&& f.record_index == idx
    &&& f.name@ == v.filename
    &&& f.parent == v.parent_directory
    &&& f.is_deleted == (e.header.flags & 0x0001 == 0)
    &&& f.is_directory == (e.header.flags & 0x0002 != 0)
    &&& is_absolute(f.path@)
    &&& (idx == 5 ==> f.path@ == root_path())
    &&& instant_of(f.created) == stamps.0
    &&& instant_of(f.modified) == stamps.1
    &&& instant_of(f.accessed) == stamps.2
    &&& instant_of(f.mft_modified) == stamps.3
    &&& f.file_attributes.0 == stamps.4
    &&& f.has_alternate_streams == has_named(streams)
    &&& main_stream_of(streams) == Some((content_view(f.content), f.size, f.is_compressed, f.is_encrypted, f.is_sparse))
}

/// The times and attribute bits of a built file come from the record's
/// resident `$STANDARD_INFORMATION` when it holds at least 48 bytes of
/// content: created, modified, MFT-modified and accessed are the FILETIMEs at
/// offsets 0x00, 0x08, 0x10 and 0x18 of that content, and the attribute bits
/// the 32-bit value at 0x20.
pub proof fn lemma_file_times_from_si(f: NtfsFile, e: MftEntry, idx: u64, v: FileNameView, h: AttributeHeader, off: int)
    requires
        file_matches(f, e, idx, v),
        spec_find(e.data@, e.header.first_attribute_offset as int, AttributeType::StandardInformation) == Some((h, off)),
        h is Resident,
        h->resident.content_offset + h->resident.content_size <= h.spec_length(),
        h->resident.content_size >= 48,
    ensures
        ({
            let raw = e.data@.subrange(off, off + h.spec_length());
            let c = raw.subrange(h->resident.content_offset as int, h->resident.content_offset + h->resident.content_size);
            &&& instant_of(f.created) == filetime_instant(crate::attributes::standard_information::u64_at(c, 0x00))
            &&& instant_of(f.modified) == filetime_instant(crate::attributes::standard_information::u64_at(c, 0x08))
            &&& instant_of(f.mft_modified) == filetime_instant(crate::attributes::standard_information::u64_at(c, 0x10))
            &&& instant_of(f.accessed) == filetime_instant(crate::attributes::standard_information::u64_at(c, 0x18))
            &&& f.file_attributes.0 == crate::attributes::standard_information::u32_at(c, 0x20)
        }),
{
    crate::attributes::lemma_find_in_bounds(e.data@, e.header.first_attribute_offset as int, AttributeType::StandardInformation);
}

/// A record without a `$STANDARD_INFORMATION` gives its file the times and
/// attribute bits of its best `$FILE_NAME`.
pub proof fn lemma_file_times_from_name(f: NtfsFile, e: MftEntry, idx: u64, v: FileNameView)
    requires
        file_matches(f, e, idx, v),
        spec_find(e.data@, e.header.first_attribute_offset as int, AttributeType::StandardInformation) is None,
    ensures
        instant_of(f.created) == filetime_instant(v.created),
        instant_of(f.modified) == filetime_instant(v.modified),
        instant_of(f.mft_modified) == filetime_instant(v.mft_modified),
        instant_of(f.accessed) == filetime_instant(v.accessed),
        f.file_attributes.0 == v.file_attributes,
{
}

/// The main-stream facts of a record and whether it has named streams.
fn main_stream(entry: &MftEntry, first_attr_offset: usize) -> (r: Result<(FileContentRef, u64, bool, bool, bool, bool), VolumeError>)
    requires
        first_attr_offset == entry.header.first_attribute_offset,
    ensures
        ({
            let streams = streams_from(entry.data@, first_attr_offset as int);
            match main_stream_of(streams) {
                Some((c, size, comp, enc, sparse)) => r matches Ok((content, sz, cm, en, sp, alt))
                    && content_view(content) == c && sz == size && cm == comp && en == enc && sp == sparse
                    && alt == has_named(streams),
                None => r is Err,
            }
        }),
        r matches Err(e) ==> main_stream_error(streams_from(entry.data@, first_attr_offset as int)) == Some(e),
{
    let data_streams = extract_all_data_streams(entry.data.as_slice(), first_attr_offset);
    let ghost sv = streams_of(data_streams@);
    let n = data_streams.len();
    let mut main_index: Option<usize> = None;
    let mut has_alternate_streams = false;
    let mut i: usize = 0;
    while i < n
        invariant
            n == data_streams@.len(),
            sv == streams_of(data_streams@),
            i <= n,
            has_alternate_streams == exists|j: int| 0 <= j < i && (#[trigger] sv[j]).name.len() != 0,
            match main_index {
                Some(m) => m < i && sv[m as int].name.len() == 0 && forall|j: int| 0 <= j < m ==> (#[trigger] sv[j]).name.len() != 0,
                None => forall|j: int| 0 <= j < i ==> (#[trigger] sv[j]).name.len() != 0,
            },
        decreases n - i,
    {
        proof {
            assert(sv[i as int] == data_streams@[i as int]@);
        }
        if data_streams[i].name.as_str().is_empty() {
            if main_index.is_none() {
                main_index = Some(i);
            }
        } else {
            has_alternate_streams = true;
        }
        i = i + 1;
    }
    proof {
        crate::attributes::data::lemma_first_unnamed(sv);
    }
    match main_index {
        Some(m) => {
            let stream = &data_streams[m];
            proof {
                assert(sv[m as int] == stream@);
            }
            let (content, size) = match &stream.content {
                DataContent::Resident { bytes, size } => (FileContentRef::Resident(vstd::slice::slice_to_vec(*bytes)), *size as u64),
                DataContent::NonResident { real_size, runlist_offset_in_attr, attribute_raw, .. } => {
                    let alen = attribute_raw.len();
                    if *runlist_offset_in_attr > alen {
                        return Err(VolumeError::Runlist(RunlistError::BufferTooSmall { got: alen }));
                    }
                    let runs = match parse_runlist(slice_subrange(*attribute_raw, *runlist_offset_in_attr, alen)) {
                        Ok(r) => r,
                        Err(e) => {
                            return Err(VolumeError::Runlist(e));
                        },
                    };
                    (FileContentRef::NonResident { real_size: *real_size, runs }, *real_size)
                },
            };
            Ok((content, size, stream.is_compressed, stream.is_encrypted, stream.is_sparse, has_alternate_streams))
        },
        None => Ok((FileContentRef::NoData, 0, false, false, false, has_alternate_streams)),
    }
}

/// `p` is the path given to record `idx` named `name` with the resolver's
/// cached paths `c`: `\` for the root, else a path the record resolves to,
/// else, when it is not cached, `\` and the name.
pub open spec fn record_path<F: FnMut(u64, u64) -> Result<Vec<u8>, std::io::Error>>(
    p: Seq<char>,
    v: NtfsVolume<F>,
    c: Map<u64, Seq<char>>,
    idx: u64,
    name: Seq<char>,
) -> bool {
    if idx == 5 {
        p == root_path()
    } else {
        resolves_to(v, c, idx, 0, p) || (!c.contains_key(idx) && p == root_path() + name)
    }
}

/// The path of record `record_index` named `name`: `\` for the root, else
/// the resolved path, else `\` and the name.
fn path_for<F: FnMut(u64, u64) -> Result<Vec<u8>, std::io::Error>>(
    record_index: u64,
    name: &String,
    volume: &mut NtfsVolume<F>,
    resolver: &mut PathResolver,
) -> (r: String)
    requires
        old(volume).wf(),
        old(resolver).wf(),
    ensures
        final(volume).wf(),
        *final(volume) == *old(volume),
        final(resolver).wf(),
        is_absolute(r@),
        record_index == 5 ==> r@ == root_path(),
        record_path(r@, *old(volume), old(resolver).paths(), record_index, name@),
{
    proof {
        reveal_strlit("\\");
    }
    if record_index == 5 {
        String::from_str("\\")
    } else {
        match resolver.resolve(record_index, volume) {
            Ok(p) => {
                assert(resolves_to(*old(volume), old(resolver).paths(), record_index, 0, p@));
                p
            },
            Err(_) => {
                let mut p = String::from_str("\\");
                p.append(name.as_str());
                proof {
                    assert(!old(resolver).paths().contains_key(record_index));
                    assert(p@ == root_path() + name@);
                }
                p
            },
        }
    }
}

/// Builds the [`NtfsFile`] of MFT record `record_index`: `Ok(None)` when the
/// record has no `$FILE_NAME`. A path that cannot be resolved (the parents of
/// a deleted file may be reused) falls back to `\` and the name.
pub fn build_file_for_record<F: FnMut(u64, u64) -> Result<Vec<u8>, std::io::Error>>(
    volume: &mut NtfsVolume<F>,
    record_index: u64,
    resolver: &mut PathResolver,
) -> (r: Result<Option<NtfsFile>, VolumeError>)
    requires
        old(volume).wf(),
        old(resolver).wf(),
    ensures
        final(volume).wf(),
        *final(volume) == *old(volume),
        final(resolver).wf(),
        record_index >= old(volume).spec_total_records() ==> (r matches Err(VolumeError::RecordIndexOutOfRange { index, total })
            && index == record_index && total == old(volume).spec_total_records()),
        r is Ok ==> exists|e: MftEntry| #![trigger record_read(*old(volume), record_index, e)]
            record_read(*old(volume), record_index, e) && match best_name(name_candidates(e.data@, e.header.first_attribute_offset as int)) {
                None => r matches Ok(None),
                Some(v) => r matches Ok(Some(f)) && file_matches(f, e, record_index, v),
            },
        r matches Ok(Some(f)) ==> record_path(f.path@, *old(volume), old(resolver).paths(), record_index, f.name@),
        r matches Err(x) ==> record_read_error(*old(volume), record_index, x) || exists|e: MftEntry| #![trigger record_read(*old(volume), record_index, e)]
            record_read(*old(volume), record_index, e)
            && best_name(name_candidates(e.data@, e.header.first_attribute_offset as int)) is Some
            && main_stream_error(streams_from(e.data@, e.header.first_attribute_offset as int)) == Some(x),
{
    let entry = match volume.read_record(record_index) {
        Ok(e) => e,
        Err(e) => {
            return Err(e);
        },
    };
    let first_attr_offset = entry.header.first_attribute_offset as usize;
    let fn_ = match find_best_file_name(entry.data.as_slice(), first_attr_offset) {
        Some(f) => f,
        None => {
            return Ok(None);
        },
    };
    let is_deleted = entry.header.is_deleted();
    let is_directory = entry.header.is_directory();
    let parent = fn_.parent_directory;
    let name = fn_.filename.clone();
    let path = path_for(record_index, &name, volume, resolver);
    let (created, modified, accessed, mft_modified, file_attrs) = extract_si_or_fallback(&entry, first_attr_offset, &fn_);
    let (content, size, is_compressed, is_encrypted, is_sparse, has_alternate_streams) =
        match main_stream(&entry, first_attr_offset) {
            Ok(t) => t,
            Err(e) => {
                return Err(e);
            },
        };
    let file = NtfsFile {
        record_index,
        path,
        name,
        parent,
        is_directory,
        is_deleted,
        created,
        modified,
        accessed,
        mft_modified,
        file_attributes: file_attrs,
        has_alternate_streams,
        is_compressed,
        is_encrypted,
        is_sparse,
        content,
        size,
    };
    proof {
        assert(file_matches(file, entry, record_index, fn_@));
    }
    Ok(Some(file))
}

/// Record `idx` of `v` reads as an entry without a `$FILE_NAME`, so it gives
/// no file.
pub open spec fn nameless_record<F: FnMut(u64, u64) -> Result<Vec<u8>, std::io::Error>>(v: NtfsVolume<F>, idx: u64) -> bool {
    exists|e: MftEntry| #![trigger record_read(v, idx, e)]
        record_read(v, idx, e) && best_name(name_candidates(e.data@, e.header.first_attribute_offset as int)) is None
}

/// What the iterator hands out for record `idx` of `v`: a file built from the
/// entry read for that record and its best name, or an error.
pub open spec fn handed_out<F: FnMut(u64, u64) -> Result<Vec<u8>, std::io::Error>>(
    v: NtfsVolume<F>,
    idx: u64,
    x: Result<NtfsFile, VolumeError>,
) -> bool {
    x matches Ok(f) ==> exists|e: MftEntry| #![trigger record_read(v, idx, e)]
        record_read(v, idx, e) && (best_name(name_candidates(e.data@, e.header.first_attribute_offset as int)) matches Some(n)
            && file_matches(f, e, idx, n))
}

/// Iterator over all files of a volume: records without `$FILE_NAME` are
/// skipped, a record that fails is handed out as an error and the walk goes on.
/// One path resolver serves the whole walk.
pub struct NtfsFileIterator<'a, F> {
    volume: &'a mut NtfsVolume<F>,
    current: u64,
    resolver: PathResolver,
}

impl<'a, F: FnMut(u64, u64) -> Result<Vec<u8>, std::io::Error>> NtfsFileIterator<'a, F> {
    pub closed spec fn current(&self) -> u64 {
        self.current
    }

    pub closed spec fn volume(&self) -> NtfsVolume<F> {
        *self.volume
    }

    /// The iterator's invariant: a well-formed volume and resolver.
    pub closed spec fn wf(&self) -> bool {
        self.volume.wf() && self.resolver.wf()
    }

    /// An iterator from record 0 to the last record of `volume`.
    pub fn new(volume: &'a mut NtfsVolume<F>) -> (r: Self)
        requires
            old(volume).wf(),
        ensures
            r.wf(),
            r.current() == 0,
            r.volume() == *old(volume),
    {
        NtfsFileIterator { volume, current: 0, resolver: PathResolver::new() }
    }

    /// The next file, or the failure of the next record; `None` once every
    /// record has been visited. The records passed over on the way have no
    /// `$FILE_NAME`; the one handed out is the record just before the new
    /// position.
    pub fn next(&mut self) -> (r: Option<Result<NtfsFile, VolumeError>>)
        requires
            old(self).wf(),
        ensures
            final(self).wf(),
            final(self).volume() == old(self).volume(),
            final(self).current() >= old(self).current(),
            r is None ==> final(self).current() >= old(self).volume().spec_total_records()
                && (old(self).current() < old(self).volume().spec_total_records()
                    ==> final(self).current() == old(self).volume().spec_total_records())
                && forall|i: u64| old(self).current() <= i < final(self).current()
                    ==> #[trigger] nameless_record(old(self).volume(), i),
            r matches Some(x) ==> old(self).current() < final(self).current() <= old(self).volume().spec_total_records()
                && handed_out(old(self).volume(), (final(self).current() - 1) as u64, x)
                && forall|i: u64| old(self).current() <= i < final(self).current() - 1
                    ==> #[trigger] nameless_record(old(self).volume(), i),
    {
        let ghost v0 = self.volume();
        let ghost c0 = self.current();
        loop
            invariant
                self.wf(),
                self.volume() == v0,
                v0 == old(self).volume(),
                c0 == old(self).current(),
                self.current() >= c0,
                self.current() > c0 ==> self.current() <= v0.spec_total_records(),
                forall|i: u64| c0 <= i < self.current() ==> #[trigger] nameless_record(v0, i),
            decreases self.volume().spec_total_records() - self.current(),
        {
            if self.current >= self.volume.total_records() {
                return None;
            }
            let idx = self.current;
            self.current = self.current + 1;
            match build_file_for_record(self.volume, idx, &mut self.resolver) {
                Ok(Some(file)) => {
                    return Some(Ok(file));
                },
                Ok(None) => {
                    proof {
                        assert(nameless_record(v0, idx));
                    }
                },
                Err(e) => {
                    return Some(Err(e));
                },
            }
        }
    }
}

} // verus!
