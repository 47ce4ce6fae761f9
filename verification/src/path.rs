//! Full path reconstruction: follows the parent references of `$FILE_NAME`
//! up to the root, caching the paths of the directories met on the way.

use vstd::prelude::*;
use vstd::string::StringExecFns;
use std::collections::HashMap;
use crate::attributes::file_name::{best_name, find_best_file_name, name_candidates};
use crate::mft::MftEntry;
use crate::volume::{record_read, record_read_error, NtfsVolume, VolumeError};

verus! {

broadcast use vstd::std_specs::hash::group_hash_axioms;

/// MFT record of the root directory.
pub const NTFS_ROOT_RECORD: u64 = 5;
/// Deepest parent chain followed before giving up (corruption or a cycle).
pub const MAX_PATH_DEPTH: u32 = 64;

/// The one-character path of the root, `\`.
pub open spec fn root_path() -> Seq<char> {
    seq!['\\']
}

/// An absolute NTFS path: it starts with `\`.
pub open spec fn is_absolute(p: Seq<char>) -> bool {
    p.len() >= 1 && p[0] == '\\'
}

/// The path of a child named `name` in the directory at `parent`.
pub open spec fn child_path(parent: Seq<char>, name: Seq<char>) -> Seq<char> {
    if parent == root_path() {
        root_path() + name
    } else {
        parent + root_path() + name
    }
}

/// The parent record that the best `$FILE_NAME` of `e` names.
pub open spec fn named_parent(e: MftEntry) -> u64 {
    best_name(name_candidates(e.data@, e.header.first_attribute_offset as int))->Some_0.parent_directory.entry_number
}

/// One step of resolving record `idx` of `v` at depth `d`: `e` is the entry
/// read for it, its best `$FILE_NAME` names a parent other than itself, and
/// `p` is the parent's path `pp` with the name appended.
pub open spec fn resolve_step<F: FnMut(u64, u64) -> Result<Vec<u8>, std::io::Error>>(
    v: NtfsVolume<F>,
    idx: u64,
    d: u32,
    e: MftEntry,
    pp: Seq<char>,
    p: Seq<char>,
) -> bool {
    let n = best_name(name_candidates(e.data@, e.header.first_attribute_offset as int));
    &&& d <= MAX_PATH_DEPTH
    &&& record_read(v, idx, e)
    &&& n is Some
    &&& n->Some_0.parent_directory.entry_number != idx
    &&& p == child_path(pp, n->Some_0.filename)
}

/// `p` is a path that record `idx` of `v` resolves to, starting from the
/// cached paths `c` at depth `d`: the cached path when there is one, else,
/// within [`MAX_PATH_DEPTH`], a [`resolve_step`] from a path that the named
/// parent resolves to one level deeper.
pub open spec fn resolves_to<F: FnMut(u64, u64) -> Result<Vec<u8>, std::io::Error>>(
    v: NtfsVolume<F>,
    c: Map<u64, Seq<char>>,
    idx: u64,
    d: u32,
    p: Seq<char>,
) -> bool
    decreases MAX_PATH_DEPTH + 1 - d,
{
    if c.contains_key(idx) {
        p == c[idx]
    } else if d > MAX_PATH_DEPTH {
        false
    } else {
        exists|e: MftEntry, pp: Seq<char>| #[trigger] resolve_step(v, idx, d, e, pp, p)
            && resolves_to(v, c, named_parent(e), (d + 1) as u32, pp)
    }
}

/// The shape of a resolved path: a record that is not cached resolves to
/// the path of the parent its best `$FILE_NAME` names, then `\`, then its
/// name; under the root, whose path is `\` alone, the separator is not
/// doubled.
pub proof fn lemma_resolved_path_shape<F: FnMut(u64, u64) -> Result<Vec<u8>, std::io::Error>>(
    v: NtfsVolume<F>,
    c: Map<u64, Seq<char>>,
    idx: u64,
    d: u32,
    p: Seq<char>,
)
    requires
        resolves_to(v, c, idx, d, p),
        !c.contains_key(idx),
    ensures
        exists|e: MftEntry, pp: Seq<char>| #![trigger record_read(v, idx, e), resolves_to(v, c, named_parent(e), (d + 1) as u32, pp)] {
            let name = best_name(name_candidates(e.data@, e.header.first_attribute_offset as int))->Some_0.filename;
            &&& record_read(v, idx, e)
            &&& best_name(name_candidates(e.data@, e.header.first_attribute_offset as int)) is Some
            &&& named_parent(e) != idx
            &&& resolves_to(v, c, named_parent(e), (d + 1) as u32, pp)
            &&& pp == seq!['\\'] ==> p == seq!['\\'] + name
            &&& pp != seq!['\\'] ==> p == pp + seq!['\\'] + name
        },
{
    let (e, pp) = choose|e: MftEntry, pp: Seq<char>| #[trigger] resolve_step(v, idx, d, e, pp, p)
        && resolves_to(v, c, named_parent(e), (d + 1) as u32, pp);
    assert(resolve_step(v, idx, d, e, pp, p));
    assert(record_read(v, idx, e));
}

/// A step through an uncached record gives a path it resolves to.
proof fn lemma_resolve_step<F: FnMut(u64, u64) -> Result<Vec<u8>, std::io::Error>>(
    v: NtfsVolume<F>,
    c: Map<u64, Seq<char>>,
    idx: u64,
    d: u32,
    e: MftEntry,
    pp: Seq<char>,
    p: Seq<char>,
)
    requires
        !c.contains_key(idx),
        resolve_step(v, idx, d, e, pp, p),
        resolves_to(v, c, named_parent(e), (d + 1) as u32, pp),
    ensures
        resolves_to(v, c, idx, d, p),
{
}

/// Why resolving a path in `v` can fail: a record of the chain cannot be
/// read (see [`record_read_error`]), reads without a `$FILE_NAME`
/// (`NoFileName`), names itself as its parent (`PathDepthExceeded` with that
/// record), or the chain is deeper than [`MAX_PATH_DEPTH`].
pub open spec fn resolve_failure<F: FnMut(u64, u64) -> Result<Vec<u8>, std::io::Error>>(v: NtfsVolume<F>, x: VolumeError) -> bool {
    match x {
        VolumeError::NoFileName { record_index: k } => reads_nameless(v, k),
        VolumeError::PathDepthExceeded { record_index: k, depth: d } => d == MAX_PATH_DEPTH + 1
            || (d <= MAX_PATH_DEPTH && reads_as_own_parent(v, k)),
        _ => exists|k: u64| #[trigger] record_read_error(v, k, x),
    }
}

/// Record `k` of `v` reads as an entry without a `$FILE_NAME`.
pub open spec fn reads_nameless<F: FnMut(u64, u64) -> Result<Vec<u8>, std::io::Error>>(v: NtfsVolume<F>, k: u64) -> bool {
    exists|e: MftEntry| #[trigger] record_read(v, k, e)
        && best_name(name_candidates(e.data@, e.header.first_attribute_offset as int)) is None
}

/// Record `k` of `v` reads as an entry whose best `$FILE_NAME` names `k`
/// itself as its parent.
pub open spec fn reads_as_own_parent<F: FnMut(u64, u64) -> Result<Vec<u8>, std::io::Error>>(v: NtfsVolume<F>, k: u64) -> bool {
    exists|e: MftEntry| #[trigger] record_read(v, k, e)
        && best_name(name_candidates(e.data@, e.header.first_attribute_offset as int)) is Some
        && named_parent(e) == k
}

/// A record that cannot be read is a failure to resolve.
proof fn lemma_read_failure<F: FnMut(u64, u64) -> Result<Vec<u8>, std::io::Error>>(v: NtfsVolume<F>, k: u64, x: VolumeError)
    requires
        record_read_error(v, k, x),
    ensures
        resolve_failure(v, x),
{
}

/// A record read without a `$FILE_NAME` is a `NoFileName` failure.
proof fn lemma_nameless_failure<F: FnMut(u64, u64) -> Result<Vec<u8>, std::io::Error>>(v: NtfsVolume<F>, k: u64, e: MftEntry)
    requires
        record_read(v, k, e),
        best_name(name_candidates(e.data@, e.header.first_attribute_offset as int)) is None,
    ensures
        resolve_failure(v, VolumeError::NoFileName { record_index: k }),
{
    assert(reads_nameless(v, k));
}

/// A record read as its own parent is a `PathDepthExceeded` failure.
proof fn lemma_own_parent_failure<F: FnMut(u64, u64) -> Result<Vec<u8>, std::io::Error>>(v: NtfsVolume<F>, k: u64, d: u32, e: MftEntry)
    requires
        d <= MAX_PATH_DEPTH,
        record_read(v, k, e),
        best_name(name_candidates(e.data@, e.header.first_attribute_offset as int)) is Some,
        named_parent(e) == k,
    ensures
        resolve_failure(v, VolumeError::PathDepthExceeded { record_index: k, depth: d }),
{
    assert(reads_as_own_parent(v, k));
}

/// The cached paths of a fresh resolver: the root only.
pub open spec fn fresh_paths() -> Map<u64, Seq<char>> {
    map![NTFS_ROOT_RECORD => root_path()]
}

/// Resolver from MFT record numbers to full paths, with a cache of the paths
/// already resolved (the root, `\`, from the start).
#[derive(Debug)]
pub struct PathResolver {
    pub cache: HashMap<u64, String>,
}

impl PathResolver {
    /// The cached paths, by record number.
    pub open spec fn paths(&self) -> Map<u64, Seq<char>> {
        self.cache@.map_values(|s: String| s@)
    }

    /// Every cached path is absolute.
    pub open spec fn wf(&self) -> bool {
        forall|k: u64| #[trigger] self.cache@.contains_key(k) ==> is_absolute(self.cache@[k]@)
    }

    /// A resolver whose cache holds the root only.
    pub fn new() -> (r: Self)
        ensures
            r.wf(),
            r.cache@.dom() == set![NTFS_ROOT_RECORD],
            r.cache@[NTFS_ROOT_RECORD]@ == root_path(),
    {
        let mut cache: HashMap<u64, String> = HashMap::new();
        let root = String::from_str("\\");
        proof {
            reveal_strlit("\\");
        }
        cache.insert(NTFS_ROOT_RECORD, root);
        proof {
            assert(cache@.dom() =~= set![NTFS_ROOT_RECORD]);
        }
        PathResolver { cache }
    }

    /// The full path of MFT record `record_index`; a cached path is returned
    /// at once, and the directories resolved on the way are cached.
    pub fn resolve<F: FnMut(u64, u64) -> Result<Vec<u8>, std::io::Error>>(
        &mut self,
        record_index: u64,
        volume: &mut NtfsVolume<F>,
    ) -> (r: Result<String, VolumeError>)
        requires
            old(self).wf(),
            old(volume).wf(),
        ensures
            final(self).wf(),
            final(volume).wf(),
            *final(volume) == *old(volume),
            old(self).cache@.contains_key(record_index) ==> (r matches Ok(p) && p@ == old(self).cache@[record_index]@
                && final(self).cache@ == old(self).cache@),
            r matches Ok(p) ==> is_absolute(p@) && final(self).cache@.contains_key(record_index)
                && final(self).cache@[record_index]@ == p@,
            r matches Ok(p) ==> resolves_to(*old(volume), old(self).paths(), record_index, 0, p@),
            r matches Err(x) ==> resolve_failure(*old(volume), x),
    {
        self.resolve_inner(record_index, volume, 0)
    }

    #[verifier::spinoff_prover]
    #[verifier::rlimit(80)]
    fn resolve_inner<F: FnMut(u64, u64) -> Result<Vec<u8>, std::io::Error>>(
        &mut self,
        record_index: u64,
        volume: &mut NtfsVolume<F>,
        depth: u32,
    ) -> (r: Result<String, VolumeError>)
        requires
            old(self).wf(),
            old(volume).wf(),
            depth <= MAX_PATH_DEPTH + 1,
        ensures
            final(self).wf(),
            final(volume).wf(),
            *final(volume) == *old(volume),
            old(self).cache@.contains_key(record_index) ==> (r matches Ok(p) && p@ == old(self).cache@[record_index]@
                && final(self).cache@ == old(self).cache@),
            !old(self).cache@.contains_key(record_index) && depth > MAX_PATH_DEPTH ==> (r matches Err(
                VolumeError::PathDepthExceeded { record_index: ri, depth: d },
            ) && ri == record_index && d == depth),
            r matches Ok(p) ==> is_absolute(p@) && final(self).cache@.contains_key(record_index)
                && final(self).cache@[record_index]@ == p@,
            r matches Ok(p) ==> resolves_to(*old(volume), old(self).paths(), record_index, depth, p@),
            r matches Err(x) ==> resolve_failure(*old(volume), x),
        decreases MAX_PATH_DEPTH + 1 - depth,
    {
        match self.cache.get(&record_index) {
            Some(cached) => {
                return Ok(cached.clone());
            },
            None => {},
        }
        if depth > MAX_PATH_DEPTH {
            return Err(VolumeError::PathDepthExceeded { record_index, depth });
        }
        let entry = match volume.read_record(record_index) {
            Ok(e) => e,
            Err(e) => {
                proof {
                    lemma_read_failure(*old(volume), record_index, e);
                }
                return Err(e);
            },
        };
        let file_name = match find_best_file_name(entry.data.as_slice(), entry.header.first_attribute_offset as usize) {
            Some(f) => f,
            None => {
                proof {
                    lemma_nameless_failure(*old(volume), record_index, entry);
                }
                return Err(VolumeError::NoFileName { record_index });
            },
        };
        let parent_index = file_name.parent_directory.entry_number;
        if parent_index == record_index {
            proof {
                lemma_own_parent_failure(*old(volume), record_index, depth, entry);
            }
            return Err(VolumeError::PathDepthExceeded { record_index, depth });
        }
        proof {
            assert(self.cache@ == old(self).cache@);
            assert(*volume == *old(volume));
        }
        let parent_path = match self.resolve_inner(parent_index, volume, depth + 1) {
            Ok(p) => p,
            Err(e) => {
                return Err(e);
            },
        };
        let my_path = join_path(&parent_path, &file_name.filename);
        proof {
            let n = best_name(name_candidates(entry.data@, entry.header.first_attribute_offset as int));
            assert(n == Some(file_name@));
            lemma_resolve_step(*old(volume), old(self).paths(), record_index, depth, entry, parent_path@, my_path@);
        }
        let stored = my_path.clone();
        self.cache.insert(record_index, stored);
        proof {
            assert forall|k: u64| #[trigger] self.cache@.contains_key(k) implies is_absolute(self.cache@[k]@) by {
                if k != record_index {
                    assert(old(self).cache@.contains_key(k) || true);
                }
            }
        }
        Ok(my_path)
    }

    /// Empties the cache but for the root.
    pub fn clear(&mut self)
        ensures
            final(self).wf(),
            final(self).cache@.dom() == set![NTFS_ROOT_RECORD],
            final(self).cache@[NTFS_ROOT_RECORD]@ == root_path(),
    {
        self.cache.clear();
        let root = String::from_str("\\");
        proof {
            reveal_strlit("\\");
        }
        self.cache.insert(NTFS_ROOT_RECORD, root);
        proof {
            assert(self.cache@.dom() =~= set![NTFS_ROOT_RECORD]);
        }
    }

    /// Number of cached paths.
    pub fn cache_size(&self) -> (r: usize)
        ensures
            r == self.cache@.len(),
    {
        self.cache.len()
    }

    /// The cached path of a record, without resolving anything.
    pub fn cached(&self, record_index: u64) -> (r: Option<&str>)
        ensures
            match r {
                Some(s) => self.cache@.contains_key(record_index) && s@ == self.cache@[record_index]@,
                None => !self.cache@.contains_key(record_index),
            },
    {
        match self.cache.get(&record_index) {
            Some(s) => Some(s.as_str()),
            None => None,
        }
    }
}

impl Default for PathResolver {
    fn default() -> (r: Self)
        ensures
            r.wf(),
            r.cache@.dom() == set![NTFS_ROOT_RECORD],
            r.cache@[NTFS_ROOT_RECORD]@ == root_path(),
    {
        PathResolver::new()
    }
}

/// Whether `s` is exactly `\`.
fn is_root_path(s: &String) -> (r: bool)
    ensures
        r == (s@ == root_path()),
{
    let t = s.as_str();
    if t.unicode_len() == 1 && t.get_char(0) == '\\' {
        assert(s@ =~= root_path());
        true
    } else {
        false
    }
}

/// The path of `name` inside the directory at `parent`.
fn join_path(parent: &String, name: &String) -> (r: String)
    ensures
        r@ == child_path(parent@, name@),
{
    proof {
        reveal_strlit("\\");
    }
    if is_root_path(parent) {
        let mut p = String::from_str("\\");
        p.append(name.as_str());
        p
    } else {
        let mut p = parent.clone();
        p.append("\\");
        p.append(name.as_str());
        p
    }
}

} // verus!
