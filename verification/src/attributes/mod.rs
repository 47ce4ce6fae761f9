//! Walking the attributes of an MFT entry, and the parsers of their contents.

pub mod runlist;
pub mod standard_information;
pub mod file_name;
pub mod data;
pub mod index;

use vstd::prelude::*;
use crate::attribute::{parse_attribute_header, spec_parse_attribute_header, AttributeError, AttributeHeader, AttributeType};

verus! {

/// One attribute inside an MFT entry: its header, all of its bytes (header
/// included) and where it starts in the entry.
pub struct AttributeRef<'a> {
    pub header: AttributeHeader,
    pub raw: &'a [u8],
    pub offset_in_entry: usize,
}

/// What one step of the attribute walk finds at `cursor`.
pub enum WalkStep {
    /// The walk is over: the end marker, or the cursor left the entry.
    Stop,
    /// A header that does not parse, or whose length leaves the entry.
    Fail(AttributeError),
    /// An attribute of `length` bytes with this header.
    Item(AttributeHeader, int),
}

/// The step of the walk over `data` at `cursor`.
pub open spec fn walk_step(data: Seq<u8>, cursor: int) -> WalkStep {
    if cursor < 0 || cursor >= data.len() {
        WalkStep::Stop
    } else {
        match spec_parse_attribute_header(data.subrange(cursor, data.len() as int)) {
            Ok(AttributeHeader::End) => WalkStep::Stop,
            Ok(h) => {
                let length = h.spec_length() as int;
                if length == 0 || cursor + length > data.len() {
                    WalkStep::Fail(AttributeError::InvalidLength { length: length as u32 })
                } else {
                    WalkStep::Item(h, length)
                }
            },
            Err(e) => WalkStep::Fail(e),
        }
    }
}

/// The first attribute of type `target` met by the walk from `cursor`, with its
/// offset; the walk gives up at the first failure.
pub open spec fn spec_find(data: Seq<u8>, cursor: int, target: AttributeType) -> Option<(AttributeHeader, int)>
    decreases data.len() - cursor,
{
    match walk_step(data, cursor) {
        WalkStep::Item(h, length) => {
            if h.spec_attribute_type() == target {
                Some((h, cursor))
            } else if length > 0 {
                spec_find(data, cursor + length, target)
            } else {
                None
            }
        },
        _ => None,
    }
}

/// What [`spec_find`] finds is an attribute that the walk meets: its bytes lie
/// inside the entry.
pub proof fn lemma_find_in_bounds(data: Seq<u8>, cursor: int, target: AttributeType)
    requires
        spec_find(data, cursor, target) is Some,
    ensures
        ({
            let (h, off) = spec_find(data, cursor, target)->Some_0;
            &&& 0 <= off
            &&& off + h.spec_length() <= data.len()
            &&& walk_step(data, off) == WalkStep::Item(h, h.spec_length() as int)
            &&& h.spec_attribute_type() == target
        }),
    decreases data.len() - cursor,
{
    match walk_step(data, cursor) {
        WalkStep::Item(h, length) => {
            if h.spec_attribute_type() != target && length > 0 {
                lemma_find_in_bounds(data, cursor + length, target);
            }
        },
        _ => {},
    }
}

/// Iterator over the attributes of an MFT entry. It stops at the end marker;
/// a parse failure is handed out once, after which it yields nothing.
pub struct AttributeIterator<'a> {
    entry_data: &'a [u8],
    cursor: usize,
    done: bool,
}

impl<'a> AttributeIterator<'a> {
    pub closed spec fn data(&self) -> Seq<u8> {
        self.entry_data@
    }

    pub closed spec fn cursor(&self) -> int {
        self.cursor as int
    }

    pub closed spec fn done(&self) -> bool {
        self.done
    }

    /// An iterator over `entry_data` starting at `first_attribute_offset`.
    pub fn new(entry_data: &'a [u8], first_attribute_offset: usize) -> (r: Self)
        ensures
            r.data() == entry_data@,
            r.cursor() == first_attribute_offset,
            !r.done(),
    {
        AttributeIterator { entry_data, cursor: first_attribute_offset, done: false }
    }

    /// The next attribute, a failure, or `None` once the walk is over.
    pub fn next(&mut self) -> (r: Option<Result<AttributeRef<'a>, AttributeError>>)
        ensures
            final(self).data() == old(self).data(),
            old(self).done() ==> r is None && *final(self) == *old(self),
            !old(self).done() ==> match walk_step(old(self).data(), old(self).cursor()) {
                WalkStep::Stop => r is None && final(self).done(),
                WalkStep::Fail(e) => r == Some(Err::<AttributeRef<'a>, AttributeError>(e)) && final(self).done(),
                WalkStep::Item(h, length) => {
                    &&& r matches Some(Ok(a))
                    &&& a.header == h
                    &&& a.offset_in_entry == old(self).cursor()
                    &&& a.raw@ == old(self).data().subrange(old(self).cursor(), old(self).cursor() + length)
                    &&& !final(self).done()
                    &&& final(self).cursor() == old(self).cursor() + length
                },
            },
    {
        let n = self.entry_data.len();
        if self.done {
            return None;
        }
        if self.cursor >= n {
            self.done = true;
            return None;
        }
        let rest = slice_subrange(self.entry_data, self.cursor, n);
        match parse_attribute_header(rest) {
            Ok(AttributeHeader::End) => {
                self.done = true;
                None
            },
            Ok(header) => {
                let length = header.length() as usize;
                if length == 0 || length > n - self.cursor {
                    self.done = true;
                    return Some(Err(AttributeError::InvalidLength { length: length as u32 }));
                }
                let raw = slice_subrange(self.entry_data, self.cursor, self.cursor + length);
                let r = AttributeRef { header, raw, offset_in_entry: self.cursor };
                self.cursor = self.cursor + length;
                Some(Ok(r))
            },
            Err(e) => {
                self.done = true;
                Some(Err(e))
            },
        }
    }
}

/// `s[from..to]`.
pub fn slice_subrange<'a>(s: &'a [u8], from: usize, to: usize) -> (r: &'a [u8])
    requires
        from <= to <= s@.len(),
    ensures
        r@ == s@.subrange(from as int, to as int),
{
    vstd::slice::slice_subrange(s, from, to)
}

/// The first attribute of `target_type` in the entry, skipping nothing but
/// other attributes; `None` when the walk ends or fails before one is found.
pub fn find_attribute<'a>(
    entry_data: &'a [u8],
    first_attribute_offset: usize,
    target_type: AttributeType,
) -> (r: Option<AttributeRef<'a>>)
    ensures
        match spec_find(entry_data@, first_attribute_offset as int, target_type) {
            Some((h, off)) => r matches Some(a) && a.header == h && a.offset_in_entry == off
                && a.raw@ == entry_data@.subrange(off, off + h.spec_length()),
            None => r is None,
        },
{
    let mut it = AttributeIterator::new(entry_data, first_attribute_offset);
    loop
        invariant
            it.data() == entry_data@,
            !it.done(),
            0 <= it.cursor(),
            spec_find(entry_data@, first_attribute_offset as int, target_type)
                == spec_find(entry_data@, it.cursor(), target_type),
        decreases entry_data@.len() - it.cursor(),
    {
        let ghost c = it.cursor();
        match it.next() {
            None => {
                return None;
            },
            Some(Err(_)) => {
                return None;
            },
            Some(Ok(a)) => {
                if a.header.attribute_type() == target_type {
                    return Some(a);
                }
                proof {
                    assert(it.cursor() > c);
                }
            },
        }
    }
}

} // verus!
