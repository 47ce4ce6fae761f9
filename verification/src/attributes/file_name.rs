//! `$FILE_NAME` (type 0x30) content parser: the UTF-16LE name, the parent
//! directory reference, the namespace and the four timestamps.

use vstd::prelude::*;
use crate::attribute::{AttributeHeader, AttributeType};
use crate::attributes::standard_information::{FileAttributes, FileTime, u32_at, u64_at};
use crate::attributes::{AttributeIterator, WalkStep, walk_step, slice_subrange};
use crate::le::{read_u32, read_u64};

verus! {

pub const MIN_SIZE: usize = 66;
pub const NAME_OFFSET: usize = 0x42;
pub const ROOT_ENTRY_NUMBER: u64 = 5;

/// The namespace of a `$FILE_NAME`; Win32 and Win32AndDos carry the long name.
#[derive(Debug, Clone, Copy, PartialEq, Eq, Structural)]
pub enum FileNameNamespace {
    Posix,
    Win32,
    Dos,
    Win32AndDos,
}

pub open spec fn spec_namespace_from_raw(value: u8) -> Option<FileNameNamespace> {
    if value == 0 {
        Some(FileNameNamespace::Posix)
    } else if value == 1 {
        Some(FileNameNamespace::Win32)
    } else if value == 2 {
        Some(FileNameNamespace::Dos)
    } else if value == 3 {
        Some(FileNameNamespace::Win32AndDos)
    } else {
        None
    }
}

impl FileNameNamespace {
    /// Converts the raw byte; unknown values give `None`.
    pub fn from_raw(value: u8) -> (r: Option<Self>)
        ensures
            r == spec_namespace_from_raw(value),
    {
        match value {
            0 => Some(FileNameNamespace::Posix),
            1 => Some(FileNameNamespace::Win32),
            2 => Some(FileNameNamespace::Dos),
            3 => Some(FileNameNamespace::Win32AndDos),
            _ => None,
        }
    }

    /// Whether the name suits display: every namespace but DOS.
    pub fn is_preferred_for_display(&self) -> (r: bool)
        ensures
            r == !(*self is Dos),
    {
        match self {
            FileNameNamespace::Dos => false,
            _ => true,
        }
    }
}

/// An MFT reference: 48-bit entry number and 16-bit sequence number.
#[derive(Debug, Clone, Copy, PartialEq, Eq, Structural)]
pub struct MftReference {
    pub entry_number: u64,
    pub sequence_number: u16,
}

impl MftReference {
    /// Splits a raw 8-byte reference: the low 48 bits are the entry number,
    /// the high 16 bits the sequence number.
    pub fn from_raw(raw: u64) -> (r: Self)
        ensures
            r.entry_number == raw % 0x1_0000_0000_0000,
            r.sequence_number == raw / 0x1_0000_0000_0000,
    {
        let e = raw & 0x0000_FFFF_FFFF_FFFF;
        let s = ((raw >> 48) & 0xFFFF) as u16;
        assert(raw & 0x0000_FFFF_FFFF_FFFF == raw % 0x1_0000_0000_0000) by (bit_vector);
        assert((raw >> 48) & 0xFFFF == raw / 0x1_0000_0000_0000) by (bit_vector);
        MftReference { entry_number: e, sequence_number: s }
    }

    /// Whether this is the root directory (entry 5).
    pub fn is_root_directory(&self) -> (r: bool)
        ensures
            r == (self.entry_number == 5),
    {
        self.entry_number == ROOT_ENTRY_NUMBER
    }
}

/// The reference that the raw 8 bytes encode.
pub open spec fn spec_mft_reference(raw: u64) -> MftReference {
    MftReference { entry_number: (raw % 0x1_0000_0000_0000) as u64, sequence_number: (raw / 0x1_0000_0000_0000) as u16 }
}

/// The content of a `$FILE_NAME` attribute. The sizes are a snapshot taken
/// when the name was written; the real size is in `$DATA`.
#[derive(Debug, Clone)]
pub struct FileName {
    pub parent_directory: MftReference,
    pub created: FileTime,
    pub modified: FileTime,
    pub mft_modified: FileTime,
    pub accessed: FileTime,
    pub allocated_size: u64,
    pub real_size: u64,
    pub file_attributes: FileAttributes,
    pub namespace: FileNameNamespace,
    pub filename: String,
}

/// A `$FILE_NAME` with its name as a sequence of characters.
pub struct FileNameView {
    pub parent_directory: MftReference,
    pub created: u64,
    pub modified: u64,
    pub mft_modified: u64,
    pub accessed: u64,
    pub allocated_size: u64,
    pub real_size: u64,
    pub file_attributes: u32,
    pub namespace: FileNameNamespace,
    pub filename: Seq<char>,
}

impl View for FileName {
    type V = FileNameView;

    open spec fn view(&self) -> FileNameView {
        FileNameView {
            parent_directory: self.parent_directory,
            created: self.created.0,
            modified: self.modified.0,
            mft_modified: self.mft_modified.0,
            accessed: self.accessed.0,
            allocated_size: self.allocated_size,
            real_size: self.real_size,
            file_attributes: self.file_attributes.0,
            namespace: self.namespace,
            filename: self.filename@,
        }
    }
}

#[allow(inconsistent_fields)]
#[derive(Debug, Clone, PartialEq, Eq, Structural)]
pub enum FileNameError {
    BufferTooSmall { got: usize },
    FilenameBufferTooSmall { declared: u8, got: usize },
    InvalidNamespace { got: u8 },
    InvalidUtf16,
}

/// The UTF-16 decoding of the code units: a unit outside the surrogates is
/// its own character, a high surrogate (D800-DBFF) followed by a low one
/// (DC00-DFFF) is the character of the pair; `None` when a surrogate is
/// unpaired.
pub open spec fn utf16_decode(u: Seq<u16>) -> Option<Seq<char>>
    decreases u.len(),
{
    if u.len() == 0 {
        Some(Seq::empty())
    } else if u[0] < 0xD800 || u[0] > 0xDFFF {
        match utf16_decode(u.skip(1)) {
            Some(rest) => Some(seq![(u[0] as u32) as char] + rest),
            None => None,
        }
    } else if u[0] <= 0xDBFF && u.len() >= 2 && 0xDC00 <= u[1] && u[1] <= 0xDFFF {
        let c = 0x10000 + (u[0] - 0xD800) * 0x400 + (u[1] - 0xDC00);
        match utf16_decode(u.skip(2)) {
            Some(rest) => Some(seq![(c as u32) as char] + rest),
            None => None,
        }
    } else {
        None
    }
}

/// Calls `String::from_utf16`, which decodes UTF-16 and fails on invalid data
/// (an unpaired surrogate); see [`utf16_decode`].
#[verifier::external_body]
pub(crate) fn from_utf16(units: &[u16]) -> (r: Option<String>)
    ensures
        match r {
            Some(s) => utf16_decode(units@) == Some(s@),
            None => utf16_decode(units@) is None,
        },
{
    String::from_utf16(units).ok()
}

/// The `n` little-endian code units at `o`.
pub open spec fn utf16_units(b: Seq<u8>, o: int, n: int) -> Seq<u16> {
    Seq::new(n as nat, |i: int| (b[o + 2 * i] as int + 256 * b[o + 2 * i + 1] as int) as u16)
}

/// The `$FILE_NAME` content `b` holds.
pub open spec fn spec_parse_file_name(b: Seq<u8>) -> Result<FileNameView, FileNameError> {
    if b.len() < 66 {
        Err(FileNameError::BufferTooSmall { got: b.len() as usize })
    } else {
        let units = b[0x40];
        match spec_namespace_from_raw(b[0x41]) {
            None => Err(FileNameError::InvalidNamespace { got: b[0x41] }),
            Some(namespace) => {
                if b.len() < 0x42 + 2 * units {
                    Err(FileNameError::FilenameBufferTooSmall { declared: units, got: (b.len() - 0x42) as usize })
                } else {
                    match utf16_decode(utf16_units(b, 0x42, units as int)) {
                        None => Err(FileNameError::InvalidUtf16),
                        Some(name) => Ok(FileNameView {
                            parent_directory: spec_mft_reference(u64_at(b, 0x00)),
                            created: u64_at(b, 0x08),
                            modified: u64_at(b, 0x10),
                            mft_modified: u64_at(b, 0x18),
                            accessed: u64_at(b, 0x20),
                            allocated_size: u64_at(b, 0x28),
                            real_size: u64_at(b, 0x30),
                            file_attributes: u32_at(b, 0x38),
                            namespace,
                            filename: name,
                        }),
                    }
                }
            },
        }
    }
}

/// Parses the content (header excluded) of a `$FILE_NAME` attribute; the name
/// is decoded from UTF-16LE, surrogate pairs included.
pub fn parse_file_name(bytes: &[u8]) -> (r: Result<FileName, FileNameError>)
    ensures
        match r {
            Ok(f) => spec_parse_file_name(bytes@) == Ok::<FileNameView, FileNameError>(f@),
            Err(e) => spec_parse_file_name(bytes@) == Err::<FileNameView, FileNameError>(e),
        },
{
    let n = bytes.len();
    if n < MIN_SIZE {
        return Err(FileNameError::BufferTooSmall { got: n });
    }
    let filename_len_units = bytes[0x40];
    let namespace_raw = bytes[0x41];
    let namespace = match FileNameNamespace::from_raw(namespace_raw) {
        Some(ns) => ns,
        None => {
            return Err(FileNameError::InvalidNamespace { got: namespace_raw });
        },
    };
    let units = filename_len_units as usize;
    if n < NAME_OFFSET + 2 * units {
        return Err(FileNameError::FilenameBufferTooSmall { declared: filename_len_units, got: n - NAME_OFFSET });
    }
    let mut utf16: Vec<u16> = Vec::new();
    let mut i: usize = 0;
    while i < units
        invariant
            n == bytes@.len(),
            i <= units,
            NAME_OFFSET + 2 * units <= n,
            utf16@ == utf16_units(bytes@, 0x42, i as int),
        decreases units - i,
    {
        let lo = bytes[NAME_OFFSET + 2 * i] as u16;
        let hi = bytes[NAME_OFFSET + 2 * i + 1] as u16;
        utf16.push(lo + 256 * hi);
        i = i + 1;
        proof {
            assert(utf16@ =~= utf16_units(bytes@, 0x42, i as int));
        }
    }
    let filename = match from_utf16(utf16.as_slice()) {
        Some(s) => s,
        None => {
            return Err(FileNameError::InvalidUtf16);
        },
    };
    let parent_raw = read_u64(bytes, 0x00);
    Ok(FileName {
        parent_directory: MftReference::from_raw(parent_raw),
        created: FileTime(read_u64(bytes, 0x08)),
        modified: FileTime(read_u64(bytes, 0x10)),
        mft_modified: FileTime(read_u64(bytes, 0x18)),
        accessed: FileTime(read_u64(bytes, 0x20)),
        allocated_size: read_u64(bytes, 0x28),
        real_size: read_u64(bytes, 0x30),
        file_attributes: FileAttributes(read_u32(bytes, 0x38)),
        namespace,
        filename,
    })
}

/// The `$FILE_NAME` that an attribute with header `h` and bytes `raw` yields
/// as a candidate: a resident `$FILE_NAME` whose content lies inside the
/// attribute and parses.
pub open spec fn name_candidate(h: AttributeHeader, raw: Seq<u8>) -> Option<FileNameView> {
    if h.spec_attribute_type() != AttributeType::FileName {
        None
    } else {
        match h {
            AttributeHeader::Resident { resident, .. } => {
                let co = resident.content_offset as int;
                let ce = co + resident.content_size as int;
                if ce <= raw.len() {
                    match spec_parse_file_name(raw.subrange(co, ce)) {
                        Ok(v) => Some(v),
                        Err(_) => None,
                    }
                } else {
                    None
                }
            },
            _ => None,
        }
    }
}

/// The `$FILE_NAME` candidates met by the attribute walk from `cursor`, in order.
pub open spec fn name_candidates(data: Seq<u8>, cursor: int) -> Seq<FileNameView>
    decreases data.len() - cursor,
{
    match walk_step(data, cursor) {
        WalkStep::Item(h, length) => {
            let here = match name_candidate(h, data.subrange(cursor, cursor + length)) {
                Some(v) => seq![v],
                None => Seq::empty(),
            };
            if length > 0 {
                here + name_candidates(data, cursor + length)
            } else {
                here
            }
        },
        _ => Seq::empty(),
    }
}

/// The views of a sequence of names.
pub open spec fn names_of(v: Seq<FileName>) -> Seq<FileNameView> {
    v.map_values(|f: FileName| f@)
}

/// The namespaces that each pass of the choice accepts: long names (Win32,
/// Win32AndDos), then POSIX, then DOS.
pub open spec fn in_pass(v: FileNameView, pass: u8) -> bool {
    if pass == 0 {
        v.namespace is Win32 || v.namespace is Win32AndDos
    } else if pass == 1 {
        v.namespace is Posix
    } else {
        v.namespace is Dos
    }
}

/// Index of the first candidate that pass `pass` accepts, if any.
pub open spec fn first_index(c: Seq<FileNameView>, pass: u8) -> Option<int>
    decreases c.len(),
{
    if c.len() == 0 {
        None
    } else {
        match first_index(c.drop_last(), pass) {
            Some(i) => Some(i),
            None => if in_pass(c.last(), pass) { Some(c.len() - 1) } else { None },
        }
    }
}

/// The name best suited for display among `c`: the first Win32 (or
/// Win32AndDos) name, else the first POSIX name, else the first DOS name.
pub open spec fn best_name(c: Seq<FileNameView>) -> Option<FileNameView> {
    match first_index(c, 0) {
        Some(i) => Some(c[i]),
        None => match first_index(c, 1) {
            Some(i) => Some(c[i]),
            None => match first_index(c, 2) {
                Some(i) => Some(c[i]),
                None => None,
            },
        },
    }
}

proof fn lemma_first_index(c: Seq<FileNameView>, pass: u8)
    ensures
        match first_index(c, pass) {
            Some(i) => 0 <= i < c.len() && in_pass(c[i], pass) && forall|j: int| 0 <= j < i ==> !in_pass(#[trigger] c[j], pass),
            None => forall|j: int| 0 <= j < c.len() ==> !in_pass(#[trigger] c[j], pass),
        },
    decreases c.len(),
{
    if c.len() > 0 {
        lemma_first_index(c.drop_last(), pass);
        assert forall|j: int| 0 <= j < c.len() - 1 implies c.drop_last()[j] == c[j] by {}
    }
}

/// How the best name is chosen among a record's `$FILE_NAME` candidates: a
/// Win32 or Win32-and-DOS name whenever there is one, else a POSIX name, and
/// a DOS (8.3) name only when every candidate is one; within its kind it is
/// the first candidate; and there is a best name exactly when there is a
/// candidate.
pub proof fn lemma_best_name_choice(c: Seq<FileNameView>)
    ensures
        best_name(c) is None <==> c.len() == 0,
        (exists|i: int| 0 <= i < c.len() && ((#[trigger] c[i]).namespace is Win32 || c[i].namespace is Win32AndDos))
            ==> (best_name(c) matches Some(n) && (n.namespace is Win32 || n.namespace is Win32AndDos)),
        best_name(c) matches Some(n) && n.namespace is Posix
            ==> forall|i: int| 0 <= i < c.len() ==> !((#[trigger] c[i]).namespace is Win32 || c[i].namespace is Win32AndDos),
        best_name(c) matches Some(n) && n.namespace is Dos
            ==> forall|i: int| 0 <= i < c.len() ==> (#[trigger] c[i]).namespace is Dos,
        best_name(c) matches Some(n) ==> exists|i: int| 0 <= i < c.len() && #[trigger] c[i] == n
            && forall|j: int| 0 <= j < i ==> {
                &&& (n.namespace is Win32 || n.namespace is Win32AndDos) ==> !((#[trigger] c[j]).namespace is Win32 || c[j].namespace is Win32AndDos)
                &&& n.namespace is Posix ==> !(c[j].namespace is Posix)
                &&& n.namespace is Dos ==> !(c[j].namespace is Dos)
            },
{
    lemma_first_index(c, 0);
    lemma_first_index(c, 1);
    lemma_first_index(c, 2);
    if c.len() > 0 && best_name(c) is None {
        assert(!in_pass(c[0], 0) && !in_pass(c[0], 1) && !in_pass(c[0], 2));
    }
    if best_name(c) is Some && best_name(c)->Some_0.namespace is Dos {
        assert forall|i: int| 0 <= i < c.len() implies (#[trigger] c[i]).namespace is Dos by {
            assert(!in_pass(c[i], 0) && !in_pass(c[i], 1));
        }
    }
    if exists|i: int| 0 <= i < c.len() && ((#[trigger] c[i]).namespace is Win32 || c[i].namespace is Win32AndDos) {
        let i = choose|i: int| 0 <= i < c.len() && ((#[trigger] c[i]).namespace is Win32 || c[i].namespace is Win32AndDos);
        assert(in_pass(c[i], 0));
    }
    if best_name(c) is Some {
        let n = best_name(c)->Some_0;
        if first_index(c, 0) is Some {
            let i = first_index(c, 0)->Some_0;
            assert(c[i] == n);
        } else if first_index(c, 1) is Some {
            let i = first_index(c, 1)->Some_0;
            assert(c[i] == n);
        } else {
            let i = first_index(c, 2)->Some_0;
            assert(c[i] == n);
        }
    }
}

/// Position of the first name in `v` that pass `pass` accepts.
fn find_first(v: &Vec<FileName>, pass: u8) -> (r: Option<usize>)
    ensures
        match first_index(names_of(v@), pass) {
            Some(i) => r matches Some(j) && j == i,
            None => r is None,
        },
{
    let ghost c = names_of(v@);
    proof {
        lemma_first_index(c, pass);
    }
    let n = v.len();
    let mut i: usize = 0;
    while i < n
        invariant
            n == v@.len(),
            c == names_of(v@),
            i <= n,
            forall|j: int| 0 <= j < i ==> !in_pass(#[trigger] c[j], pass),
        decreases n - i,
    {
        let ns = v[i].namespace;
        let hit = if pass == 0 {
            match ns {
                FileNameNamespace::Win32 | FileNameNamespace::Win32AndDos => true,
                _ => false,
            }
        } else if pass == 1 {
            match ns {
                FileNameNamespace::Posix => true,
                _ => false,
            }
        } else {
            match ns {
                FileNameNamespace::Dos => true,
                _ => false,
            }
        };
        assert(hit == in_pass(c[i as int], pass));
        if hit {
            proof {
                lemma_first_index(c, pass);
            }
            return Some(i);
        }
        i = i + 1;
    }
    proof {
        lemma_first_index(c, pass);
    }
    None
}

/// Picks, among the `$FILE_NAME` attributes of an entry, the name best suited
/// for display: Win32 or Win32AndDos first, then POSIX, then DOS. Only
/// resident attributes are considered.
pub fn find_best_file_name(entry_data: &[u8], first_attribute_offset: usize) -> (r: Option<FileName>)
    ensures
        match best_name(name_candidates(entry_data@, first_attribute_offset as int)) {
            Some(v) => r matches Some(f) && f@ == v,
            None => r is None,
        },
{
    let mut candidates: Vec<FileName> = Vec::new();
    let mut it = AttributeIterator::new(entry_data, first_attribute_offset);
    loop
        invariant_except_break
            !it.done(),
            names_of(candidates@) + name_candidates(entry_data@, it.cursor())
                == name_candidates(entry_data@, first_attribute_offset as int),
        invariant
            it.data() == entry_data@,
            0 <= it.cursor(),
        ensures
            names_of(candidates@) == name_candidates(entry_data@, first_attribute_offset as int),
        decreases entry_data@.len() - it.cursor(),
    {
        let ghost c = it.cursor();
        let ghost before = names_of(candidates@);
        match it.next() {
            None => {
                proof {
                    assert(before + Seq::<FileNameView>::empty() =~= before);
                }
                break;
            },
            Some(Err(_)) => {
                proof {
                    assert(before + Seq::<FileNameView>::empty() =~= before);
                }
                break;
            },
            Some(Ok(a)) => {
                let ghost length = a.raw@.len() as int;
                let mut found: Option<FileName> = None;
                if a.header.attribute_type() == AttributeType::FileName {
                    match &a.header {
                        AttributeHeader::Resident { resident, .. } => {
                            let co = resident.content_offset as usize;
                            let cs = resident.content_size as usize;
                            if co <= a.raw.len() && cs <= a.raw.len() - co {
                                let content = slice_subrange(a.raw, co, co + cs);
                                match parse_file_name(content) {
                                    Ok(f) => {
                                        found = Some(f);
                                    },
                                    Err(_) => {},
                                }
                            }
                        },
                        _ => {},
                    }
                }
                proof {
                    assert(a.raw@ == entry_data@.subrange(c, c + length));
                    assert(match name_candidate(a.header, a.raw@) {
                        Some(v) => found matches Some(f) && f@ == v,
                        None => found is None,
                    });
                }
                match found {
                    Some(f) => {
                        candidates.push(f);
                    },
                    None => {},
                }
                proof {
                    let now = names_of(candidates@);
                    let here = match name_candidate(a.header, a.raw@) {
                        Some(v) => seq![v],
                        None => Seq::<FileNameView>::empty(),
                    };
                    assert(now =~= before + here);
                    assert(name_candidates(entry_data@, c) == here + name_candidates(entry_data@, it.cursor()));
                    assert(before + (here + name_candidates(entry_data@, it.cursor()))
                        =~= now + name_candidates(entry_data@, it.cursor()));
                }
            },
        }
    }
    let ghost cv = names_of(candidates@);
    let p0 = find_first(&candidates, 0);
    let p1 = find_first(&candidates, 1);
    let p2 = find_first(&candidates, 2);
    proof {
        lemma_first_index(cv, 0);
        lemma_first_index(cv, 1);
        lemma_first_index(cv, 2);
    }
    let pick = match p0 {
        Some(i) => {
            assert(best_name(cv) == Some(cv[i as int]));
            Some(i)
        },
        None => match p1 {
            Some(i) => {
                assert(best_name(cv) == Some(cv[i as int]));
                Some(i)
            },
            None => {
                assert(p2 is Some ==> best_name(cv) == Some(cv[p2->Some_0 as int]));
                assert(p2 is None ==> best_name(cv) is None);
                p2
            },
        },
    };
    match pick {
        Some(i) => {
            let f = candidates.remove(i);
            proof {
                assert(f@ == cv[i as int]);
            }
            Some(f)
        },
        None => None,
    }
}

} // verus!
