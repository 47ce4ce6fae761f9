//! The recovery engine's decisions: where each file goes, under which name,
//! how a taken name is resolved, and how the outcomes are collected.

use vstd::prelude::*;
use std::path::PathBuf;
use crate::file::NtfsFile;
use crate::recovery::error::RecoveryError;
use crate::recovery::options::{default_options, ConflictStrategy, RecoveryOptions};
use crate::recovery::validation::ValidationResult;
use crate::report::error::io_error_text;
use crate::report::txt_customer::string_seqs;
use crate::recovery::report::{FailedEntry, RecoveredEntry, SkippedEntry};
use crate::recovery::sanitize::{insert_deleted_marker, is_plain_name, lemma_marked_plain, lemma_sanitized_plain, marked_name, sanitize_filename, sanitized};
use crate::text::{chars_of, decimal, push_decimal, push_str, string_of};
use sha2::Digest;

verus! {

/// Renames tried before giving up on a free name.
pub const MAX_RENAME_ATTEMPTS: u32 = 999;
/// Buffer size of the writer of recovered files (1 MiB).
pub const WRITE_BUFFER_BYTES: usize = 1048576;
/// Most worker threads used by a recovery run.
pub const MAX_WORKER_THREADS: usize = 4;

/// What a path buffer holds: its bytes as `OsStr::as_encoded_bytes` gives
/// them (the text of a UTF-8 path in UTF-8).
pub uninterp spec fn path_bytes(p: PathBuf) -> Seq<u8>;

/// What `Path::join` gives for a path with these bytes and the component
/// `seg`: the bytes of `base` with `seg` appended, with the target's
/// separator where one is needed.
pub uninterp spec fn path_joined(base: Seq<u8>, seg: Seq<char>) -> Seq<u8>;

/// What `Path::parent` gives for a path with these bytes; `None` when it
/// has no parent.
pub uninterp spec fn path_parent_of(p: Seq<u8>) -> Option<Seq<u8>>;

/// The bytes of the path that `PathBuf::from` makes of this text.
pub uninterp spec fn path_of_text(t: Seq<char>) -> Seq<u8>;

/// What `Path::file_stem` gives for a path with these bytes, as text;
/// `None` when there is none or it is not UTF-8.
pub uninterp spec fn path_stem_of(p: Seq<u8>) -> Option<Seq<char>>;

/// What `Path::extension` gives for a path with these bytes, as text;
/// `None` when there is none or it is not UTF-8.
pub uninterp spec fn path_extension_of(p: Seq<u8>) -> Option<Seq<char>>;

/// The text that `Path::display` shows for a path with these bytes (invalid
/// UTF-8 shown lossily).
pub uninterp spec fn path_display_of(p: Seq<u8>) -> Seq<char>;

/// An optional string as optional text.
pub open spec fn opt_text(o: Option<String>) -> Option<Seq<char>> {
    match o {
        Some(s) => Some(s@),
        None => None,
    }
}

/// Calls `Path::join`: `base` with `seg` appended as a component. Its result
/// depends on `base` and `seg` alone, and is named [`path_joined`].
#[verifier::external_body]
fn path_join(base: &PathBuf, seg: &str) -> (r: PathBuf)
    ensures
        path_bytes(r) == path_joined(path_bytes(*base), seg@),
{
    base.join(seg)
}

/// Calls `Path::exists`: whether something is on disk at `p` now. What is on
/// disk changes; nothing is stated of the answer.
#[verifier::external_body]
fn path_exists(p: &PathBuf) -> bool {
    p.exists()
}

/// Calls `Path::parent` and makes an owned path of what it gives. The
/// result depends on the path alone and is named [`path_parent_of`].
#[verifier::external_body]
fn path_parent(p: &PathBuf) -> (r: Option<PathBuf>)
    ensures
        match r {
            Some(q) => path_parent_of(path_bytes(*p)) == Some(path_bytes(q)),
            None => path_parent_of(path_bytes(*p)) is None,
        },
{
    match p.parent() {
        Some(q) => Some(q.to_path_buf()),
        None => None,
    }
}

/// Calls `PathBuf::from` on a text; the result depends on the text alone and
/// is named [`path_of_text`].
#[verifier::external_body]
fn path_from_text(t: &str) -> (r: PathBuf)
    ensures
        path_bytes(r) == path_of_text(t@),
{
    PathBuf::from(t)
}

/// Calls `Path::display` and turns it into a string. The text depends on
/// the path alone and is named [`path_display_of`].
#[verifier::external_body]
pub(crate) fn path_display_text(p: &PathBuf) -> (r: String)
    ensures
        r@ == path_display_of(path_bytes(*p)),
{
    p.display().to_string()
}

/// The directory that renames of a path go into: its parent, `.` when it has
/// none.
pub open spec fn rename_dir(p: Seq<u8>) -> Seq<u8> {
    match path_parent_of(p) {
        Some(q) => q,
        None => path_of_text("."@),
    }
}

/// Calls `Path::file_stem`; `None` when there is none or it is not UTF-8.
/// The result depends on the path alone and is named [`path_stem_of`].
#[verifier::external_body]
fn path_stem(p: &PathBuf) -> (r: Option<String>)
    ensures
        opt_text(r) == path_stem_of(path_bytes(*p)),
{
    match p.file_stem() {
        Some(s) => s.to_str().map(String::from),
        None => None,
    }
}

/// Calls `Path::extension`; `None` when there is none or it is not UTF-8.
/// The result depends on the path alone and is named [`path_extension_of`].
#[verifier::external_body]
fn path_extension(p: &PathBuf) -> (r: Option<String>)
    ensures
        opt_text(r) == path_extension_of(path_bytes(*p)),
{
    match p.extension() {
        Some(s) => s.to_str().map(String::from),
        None => None,
    }
}

/// The `n`-th name tried for `desired` when it is taken: in its parent
/// (`.` when it has none), its stem (`file` when it has none) with ` (n)` and its extension.
pub open spec fn unique_candidate(desired: Seq<u8>, n: u32) -> Seq<u8> {
    let stem = match path_stem_of(desired) {
        Some(s) => s,
        None => "file"@,
    };
    path_joined(rename_dir(desired), renamed(stem, path_extension_of(desired), n))
}

/// The bytes of `base` with each of `comps` joined on in turn.
pub open spec fn joined_all(base: Seq<u8>, comps: Seq<Seq<char>>) -> Seq<u8>
    decreases comps.len(),
{
    if comps.len() == 0 {
        base
    } else {
        path_joined(joined_all(base, comps.drop_last()), comps.last())
    }
}

/// The directory a file's output path starts from: the deleted or live
/// directory when the two are kept apart, else the base output directory.
pub open spec fn base_dir(config: RecoveryConfig, options: RecoveryOptions, legacy_output_dir: PathBuf, deleted: bool) -> PathBuf {
    if options.separate_live_and_deleted {
        if deleted { config.deleted_files_dir } else { config.live_files_dir }
    } else {
        legacy_output_dir
    }
}

/// The bytes of the output path planned for `f`: its base directory with the
/// planned components joined on (empty when the plan has none).
pub open spec fn planned_bytes(f: NtfsFile, config: RecoveryConfig, options: RecoveryOptions, legacy_output_dir: PathBuf) -> Seq<u8> {
    match spec_plan(f.path@, f.is_deleted && options.mark_deleted_in_filename, f.record_index) {
        Plan::Components(c) => joined_all(path_bytes(base_dir(config, options, legacy_output_dir, f.is_deleted)), c),
        _ => Seq::empty(),
    }
}

/// `p` is the output path planned for `f`.
pub open spec fn planned_path(p: PathBuf, f: NtfsFile, config: RecoveryConfig, options: RecoveryOptions, legacy_output_dir: PathBuf) -> bool {
    spec_plan(f.path@, f.is_deleted && options.mark_deleted_in_filename, f.record_index) is Components
        && path_bytes(p) == planned_bytes(f, config, options, legacy_output_dir)
}

/// An output path stays under its base directory: it is the base directory
/// (deleted, live, or the base output directory, by the options) with one or
/// more plain names joined on, none of them empty, `.`, `..`, or holding a
/// separator.
pub proof fn lemma_planned_path_under_base(
    p: PathBuf,
    f: NtfsFile,
    config: RecoveryConfig,
    options: RecoveryOptions,
    legacy_output_dir: PathBuf,
)
    requires
        planned_path(p, f, config, options, legacy_output_dir),
    ensures
        exists|c: Seq<Seq<char>>| #![trigger joined_all(path_bytes(base_dir(config, options, legacy_output_dir, f.is_deleted)), c)]
            c.len() > 0
            && (forall|j: int| 0 <= j < c.len() ==> is_plain_name(#[trigger] c[j]))
            && path_bytes(p) == joined_all(path_bytes(base_dir(config, options, legacy_output_dir, f.is_deleted)), c),
{
    lemma_plan_components_plain(f.path@, f.is_deleted && options.mark_deleted_in_filename, f.record_index);
    let c = spec_plan(f.path@, f.is_deleted && options.mark_deleted_in_filename, f.record_index)->Components_0;
    assert(path_bytes(p) == joined_all(path_bytes(base_dir(config, options, legacy_output_dir, f.is_deleted)), c));
}

/// Where recovered files go: live files and deleted files.
#[derive(Debug, Clone)]
pub struct RecoveryConfig {
    pub live_files_dir: PathBuf,
    pub deleted_files_dir: PathBuf,
}

impl RecoveryConfig {
    /// `output_dir/live` and `output_dir/deleted`.
    pub fn from_single_dir(output_dir: &PathBuf) -> (r: Self)
        ensures
            path_bytes(r.live_files_dir) == path_joined(path_bytes(*output_dir), "live"@),
            path_bytes(r.deleted_files_dir) == path_joined(path_bytes(*output_dir), "deleted"@),
    {
        RecoveryConfig { live_files_dir: path_join(output_dir, "live"), deleted_files_dir: path_join(output_dir, "deleted") }
    }

    /// The two directories as given.
    pub fn with_paths(live: &PathBuf, deleted: &PathBuf) -> (r: Self)
        ensures
            r.live_files_dir == *live,
            r.deleted_files_dir == *deleted,
    {
        RecoveryConfig { live_files_dir: live.clone(), deleted_files_dir: deleted.clone() }
    }
}

/// The recovery engine: its output directories and options. Nothing is ever
/// written outside the output directories.
pub struct RecoveryEngine {
    output_dir: PathBuf,
    config: RecoveryConfig,
    options: RecoveryOptions,
}

impl RecoveryEngine {
    pub closed spec fn spec_options(&self) -> RecoveryOptions {
        self.options
    }

    /// The base output directory.
    pub closed spec fn spec_output_dir(&self) -> PathBuf {
        self.output_dir
    }

    /// The live and deleted directories.
    pub closed spec fn spec_config(&self) -> RecoveryConfig {
        self.config
    }

    /// An engine over `output_dir` with the default options.
    pub fn new(output_dir: PathBuf) -> (r: Self)
        ensures
            r.spec_options() == default_options(),
            r.spec_output_dir() == output_dir,
            path_bytes(r.spec_config().live_files_dir) == path_joined(path_bytes(output_dir), "live"@),
            path_bytes(r.spec_config().deleted_files_dir) == path_joined(path_bytes(output_dir), "deleted"@),
    {
        RecoveryEngine::with_options(output_dir, RecoveryOptions::default())
    }

    /// An engine over `output_dir/live` and `output_dir/deleted`.
    pub fn with_options(output_dir: PathBuf, options: RecoveryOptions) -> (r: Self)
        ensures
            r.spec_options() == options,
            r.spec_output_dir() == output_dir,
            path_bytes(r.spec_config().live_files_dir) == path_joined(path_bytes(output_dir), "live"@),
            path_bytes(r.spec_config().deleted_files_dir) == path_joined(path_bytes(output_dir), "deleted"@),
    {
        let config = RecoveryConfig::from_single_dir(&output_dir);
        RecoveryEngine { output_dir, config, options }
    }

    /// An engine over explicit directories with the default options.
    pub fn with_config(config: RecoveryConfig) -> (r: Self)
        ensures
            r.spec_options() == default_options(),
            r.spec_config() == config,
            r.spec_output_dir() == config.live_files_dir,
    {
        RecoveryEngine::with_config_and_options(config, RecoveryOptions::default())
    }

    /// An engine over explicit directories; the live directory also serves as
    /// the base directory.
    pub fn with_config_and_options(config: RecoveryConfig, options: RecoveryOptions) -> (r: Self)
        ensures
            r.spec_options() == options,
            r.spec_config() == config,
            r.spec_output_dir() == config.live_files_dir,
    {
        RecoveryEngine { output_dir: config.live_files_dir.clone(), config, options }
    }

    /// The base output directory.
    pub fn output_dir(&self) -> (r: &PathBuf)
        ensures
            *r == self.spec_output_dir(),
    {
        &self.output_dir
    }

    /// The live and deleted directories.
    pub fn config(&self) -> (r: &RecoveryConfig)
        ensures
            *r == self.spec_config(),
    {
        &self.config
    }

    pub fn options(&self) -> (r: &RecoveryOptions)
        ensures
            *r == self.spec_options(),
    {
        &self.options
    }

    /// The output path of a file: its live or deleted directory, then its
    /// NTFS path components sanitized, the last one marked when deleted.
    pub fn build_output_path(&self, ntfs_file: &NtfsFile) -> (r: Result<PathBuf, RecoveryError>)
        ensures
            plan_matches(
                spec_plan(ntfs_file.path@, ntfs_file.is_deleted && self.spec_options().mark_deleted_in_filename, ntfs_file.record_index),
                r,
                ntfs_file.path@,
            ),
            r matches Ok(p) ==> planned_path(p, *ntfs_file, self.spec_config(), self.spec_options(), self.spec_output_dir()),
    {
        build_output_path_impl(&self.config, &self.options, &self.output_dir, ntfs_file)
    }

    /// A free path for `desired`: itself when nothing is there, else
    /// `stem (1).ext`, `stem (2).ext`, ... in its directory.
    pub fn find_unique_path(&self, desired: &PathBuf) -> (r: Result<PathBuf, RecoveryError>)
        ensures
            r matches Ok(p) ==> p == *desired || exists|n: u32| 1 <= n <= MAX_RENAME_ATTEMPTS
                && path_bytes(p) == #[trigger] unique_candidate(path_bytes(*desired), n),
            r matches Err(e) ==> e matches RecoveryError::UniqueFilenameExhausted { attempts } && attempts == 999,
    {
        find_unique_path_impl(desired)
    }
}

/// The state of splitting a path at `\`: the non-empty components done, and
/// the component being read.
pub open spec fn split_state(s: Seq<char>) -> (Seq<Seq<char>>, Seq<char>)
    decreases s.len(),
{
    if s.len() == 0 {
        (Seq::empty(), Seq::empty())
    } else {
        let (done, cur) = split_state(s.drop_last());
        if s.last() == '\\' {
            (if cur.len() > 0 { done.push(cur) } else { done }, Seq::empty())
        } else {
            (done, cur.push(s.last()))
        }
    }
}

/// The non-empty components of an NTFS path split at `\`.
pub open spec fn path_segments(s: Seq<char>) -> Seq<Seq<char>> {
    let (done, cur) = split_state(s);
    if cur.len() > 0 { done.push(cur) } else { done }
}

/// Whether a component holds `..` anywhere.
pub open spec fn has_dotdot(seg: Seq<char>) -> bool {
    exists|j: int| 0 <= j && j + 1 < seg.len() && seg[j] == '.' && #[trigger] seg[j + 1] == '.'
}

/// What planning an output path gives.
pub enum Plan {
    /// The sanitized components, the last one marked when asked.
    Components(Seq<Seq<char>>),
    /// A component holds `..`.
    Traversal,
    /// This text cannot be sanitized (the whole path when it has no component).
    Unsanitizable(Seq<char>),
}

/// Index of the first component, before the last, that sanitizing empties.
pub open spec fn first_bad(segs: Seq<Seq<char>>, upto: int) -> Option<int>
    decreases upto,
{
    if upto <= 0 {
        None
    } else {
        match first_bad(segs, upto - 1) {
            Some(i) => Some(i),
            None => if sanitized(segs[upto - 1]) is None { Some(upto - 1) } else { None },
        }
    }
}

/// The output components of an NTFS path: every component is checked for
/// `..` first, then each is sanitized in order; the last one gets the
/// deleted-file marker when `mark`.
pub open spec fn spec_plan(path: Seq<char>, mark: bool, record_index: u64) -> Plan {
    let segs = path_segments(path);
    let n = segs.len();
    if n == 0 {
        Plan::Unsanitizable(path)
    } else if exists|j: int| 0 <= j < n && has_dotdot(#[trigger] segs[j]) {
        Plan::Traversal
    } else {
        match first_bad(segs, n as int) {
            Some(i) => Plan::Unsanitizable(segs[i]),
            None => {
                let clean = Seq::new(n, |j: int| sanitized(segs[j])->Some_0);
                Plan::Components(if mark { clean.update(n - 1, marked_name(clean[n - 1], record_index)) } else { clean })
            },
        }
    }
}

/// An outcome agrees with a plan: the same error, or success exactly when the
/// plan has components.
pub open spec fn plan_matches<T>(p: Plan, r: Result<T, RecoveryError>, path: Seq<char>) -> bool {
    match p {
        Plan::Components(_) => r is Ok,
        Plan::Traversal => r matches Err(RecoveryError::PathTraversal { path: q }) && q@ == path,
        Plan::Unsanitizable(t) => r matches Err(RecoveryError::UnsanitizableFilename { original }) && original@ == t,
    }
}

/// Every component of a planned output path is a plain name (not empty, no
/// `\` or `/`, not `.` or `..`), so a recovered file lands inside the output
/// directory it was meant for.
pub proof fn lemma_plan_components_plain(path: Seq<char>, mark: bool, record_index: u64)
    ensures
        spec_plan(path, mark, record_index) matches Plan::Components(segs) ==> segs.len() > 0
            && forall|j: int| 0 <= j < segs.len() ==> is_plain_name(#[trigger] segs[j]),
{
    let segs0 = path_segments(path);
    let n = segs0.len();
    if n > 0 && !(exists|j: int| 0 <= j < n && has_dotdot(#[trigger] segs0[j])) && first_bad(segs0, n as int) is None {
        lemma_first_bad(segs0, n as int);
        let clean = Seq::new(n, |j: int| sanitized(segs0[j])->Some_0);
        assert forall|j: int| 0 <= j < n implies is_plain_name(#[trigger] clean[j]) by {
            lemma_sanitized_plain(segs0[j]);
        }
        if mark {
            lemma_marked_plain(clean[n - 1], record_index);
            let upd = clean.update(n - 1, marked_name(clean[n - 1], record_index));
            assert forall|j: int| 0 <= j < n implies is_plain_name(#[trigger] upd[j]) by {
                if j < n - 1 {
                    assert(upd[j] == clean[j]);
                }
            }
        }
    }
}

proof fn lemma_first_bad(segs: Seq<Seq<char>>, upto: int)
    requires
        0 <= upto <= segs.len(),
    ensures
        match first_bad(segs, upto) {
            Some(i) => 0 <= i < upto && sanitized(segs[i]) is None && forall|j: int| 0 <= j < i ==> sanitized(#[trigger] segs[j]) is Some,
            None => forall|j: int| 0 <= j < upto ==> sanitized(#[trigger] segs[j]) is Some,
        },
    decreases upto,
{
    if upto > 0 {
        lemma_first_bad(segs, upto - 1);
    }
}

/// Splits an NTFS path into its non-empty components.
fn split_path(path: &str) -> (r: Vec<Vec<char>>)
    ensures
        r@.map_values(|v: Vec<char>| v@) == path_segments(path@),
{
    let cs = chars_of(path);
    let n = cs.len();
    let mut done: Vec<Vec<char>> = Vec::new();
    let mut cur: Vec<char> = Vec::new();
    let mut i: usize = 0;
    while i < n
        invariant
            n == cs@.len(),
            cs@ == path@,
            i <= n,
            (done@.map_values(|v: Vec<char>| v@), cur@) == split_state(path@.take(i as int)),
        decreases n - i,
    {
        proof {
            assert(path@.take(i as int + 1).drop_last() =~= path@.take(i as int));
        }
        let c = cs[i];
        if c == '\\' {
            if cur.len() > 0 {
                let ghost before = done@.map_values(|v: Vec<char>| v@);
                done.push(cur);
                proof {
                    assert(done@.map_values(|v: Vec<char>| v@) =~= before.push(done@[done@.len() - 1]@));
                }
            }
            cur = Vec::new();
        } else {
            cur.push(c);
        }
        i = i + 1;
    }
    proof {
        assert(path@.take(n as int) =~= path@);
    }
    if cur.len() > 0 {
        let ghost before = done@.map_values(|v: Vec<char>| v@);
        done.push(cur);
        proof {
            assert(done@.map_values(|v: Vec<char>| v@) =~= before.push(done@[done@.len() - 1]@));
        }
    }
    done
}

fn has_dotdot_exec(seg: &Vec<char>) -> (r: bool)
    ensures
        r == has_dotdot(seg@),
{
    let n = seg.len();
    let mut j: usize = 0;
    while j < n
        invariant
            n == seg@.len(),
            j <= n,
            forall|k: int| 0 <= k < j && k + 1 < n ==> !(seg@[k] == '.' && #[trigger] seg@[k + 1] == '.'),
        decreases n - j,
    {
        if j + 1 < n && seg[j] == '.' && seg[j + 1] == '.' {
            return true;
        }
        j = j + 1;
    }
    false
}

/// The output components of an NTFS path (see [`spec_plan`]).
pub fn plan_output_path(path: &str, mark: bool, record_index: u64) -> (r: Result<Vec<String>, RecoveryError>)
    ensures
        plan_matches(spec_plan(path@, mark, record_index), r, path@),
        r matches Ok(v) ==> spec_plan(path@, mark, record_index) matches Plan::Components(c)
            && v@.len() == c.len() && forall|j: int| 0 <= j < c.len() ==> (#[trigger] v@[j])@ == c[j],
{
    let segs = split_path(path);
    let ghost sv = segs@.map_values(|v: Vec<char>| v@);
    let n = segs.len();
    proof {
        reveal_strlit("");
    }
    if n == 0 {
        return Err(RecoveryError::UnsanitizableFilename { original: String::from_str(path) });
    }
    let mut k: usize = 0;
    while k < n
        invariant
            n == segs@.len(),
            sv == segs@.map_values(|v: Vec<char>| v@),
            sv == path_segments(path@),
            k <= n,
            forall|j: int| 0 <= j < k ==> !has_dotdot(#[trigger] sv[j]),
        decreases n - k,
    {
        if has_dotdot_exec(&segs[k]) {
            proof {
                assert(has_dotdot(sv[k as int]));
            }
            return Err(RecoveryError::PathTraversal { path: String::from_str(path) });
        }
        k = k + 1;
    }
    proof {
        lemma_first_bad(sv, n as int);
    }
    let mut out: Vec<String> = Vec::new();
    let mut j: usize = 0;
    while j < n
        invariant
            n == segs@.len(),
            sv == segs@.map_values(|v: Vec<char>| v@),
            sv == path_segments(path@),
            forall|x: int| 0 <= x < n ==> !has_dotdot(#[trigger] sv[x]),
            j <= n,
            forall|x: int| 0 <= x < j ==> sanitized(#[trigger] sv[x]) is Some,
            out@.len() == j,
            forall|x: int| 0 <= x < j ==> (#[trigger] out@[x])@ == sanitized(sv[x])->Some_0,
            match first_bad(sv, n as int) {
                Some(i) => 0 <= i < n && sanitized(sv[i]) is None && forall|y: int| 0 <= y < i ==> sanitized(#[trigger] sv[y]) is Some,
                None => forall|y: int| 0 <= y < n ==> sanitized(#[trigger] sv[y]) is Some,
            },
        decreases n - j,
    {
        let text = string_of(segs[j].as_slice(), 0, segs[j].len());
        proof {
            assert(segs@[j as int]@.subrange(0, segs@[j as int]@.len() as int) =~= sv[j as int]);
        }
        match sanitize_filename(text.as_str()) {
            Ok(s) => {
                out.push(s);
            },
            Err(e) => {
                proof {
                    assert(first_bad(sv, n as int) == Some(j as int)) by {
                        if first_bad(sv, n as int) is None {
                            assert(sanitized(sv[j as int]) is Some);
                        }
                    }
                }
                return Err(e);
            },
        }
        j = j + 1;
    }
    proof {
        assert(first_bad(sv, n as int) is None) by {
            if let Some(i) = first_bad(sv, n as int) {
                assert(sanitized(sv[i]) is Some);
            }
        }
    }
    if mark {
        let last = out.pop().unwrap();
        let marked = insert_deleted_marker(last.as_str(), record_index);
        out.push(marked);
    }
    Ok(out)
}

/// The output path of a file (see [`RecoveryEngine::build_output_path`]): the
/// deleted or live directory when the options separate them, else the base
/// directory, followed by the planned components.
pub fn build_output_path_impl(
    config: &RecoveryConfig,
    options: &RecoveryOptions,
    legacy_output_dir: &PathBuf,
    ntfs_file: &NtfsFile,
) -> (r: Result<PathBuf, RecoveryError>)
    ensures
        plan_matches(
            spec_plan(ntfs_file.path@, ntfs_file.is_deleted && options.mark_deleted_in_filename, ntfs_file.record_index),
            r,
            ntfs_file.path@,
        ),
        r matches Ok(p) ==> planned_path(p, *ntfs_file, *config, *options, *legacy_output_dir),
{
    let mut path = if options.separate_live_and_deleted {
        if ntfs_file.is_deleted {
            config.deleted_files_dir.clone()
        } else {
            config.live_files_dir.clone()
        }
    } else {
        legacy_output_dir.clone()
    };
    let mark = ntfs_file.is_deleted && options.mark_deleted_in_filename;
    let parts = match plan_output_path(ntfs_file.path.as_str(), mark, ntfs_file.record_index) {
        Ok(p) => p,
        Err(e) => {
            return Err(e);
        },
    };
    let ghost base = path_bytes(path);
    let ghost comps = string_seqs(parts@);
    proof {
        let c = spec_plan(ntfs_file.path@, mark, ntfs_file.record_index)->Components_0;
        assert(comps =~= c);
    }
    let n = parts.len();
    let mut i: usize = 0;
    while i < n
        invariant
            n == parts@.len(),
            i <= n,
            comps == string_seqs(parts@),
            path_bytes(path) == joined_all(base, comps.take(i as int)),
        decreases n - i,
    {
        path = path_join(&path, parts[i].as_str());
        proof {
            assert(comps.take(i as int + 1).drop_last() =~= comps.take(i as int));
        }
        i = i + 1;
    }
    proof {
        assert(comps.take(n as int) =~= comps);
    }
    Ok(path)
}

/// The `n`-th rename of a name: `stem (n).ext`, or `stem (n)` without an extension.
pub open spec fn renamed(stem: Seq<char>, ext: Option<Seq<char>>, n: u32) -> Seq<char> {
    let base = stem + seq![' ', '('] + decimal(n as nat) + seq![')'];
    match ext {
        Some(e) => base + seq!['.'] + e,
        None => base,
    }
}

/// The `n`-th rename of a name (see [`renamed`]).
pub fn rename_candidate(stem: &str, ext: Option<&str>, n: u32) -> (r: String)
    ensures
        r@ == renamed(stem@, match ext {
            Some(e) => Some(e@),
            None => None,
        }, n),
{
    proof {
        reveal_strlit(" (");
        reveal_strlit(")");
        reveal_strlit(".");
    }
    let mut s = String::new();
    push_str(&mut s, stem);
    push_str(&mut s, " (");
    push_decimal(&mut s, n as u64);
    push_str(&mut s, ")");
    match ext {
        Some(e) => {
            push_str(&mut s, ".");
            push_str(&mut s, e);
        },
        None => {},
    }
    proof {
        assert(s@ =~= renamed(stem@, match ext {
            Some(e) => Some(e@),
            None => None,
        }, n));
    }
    s
}

/// The existence oracle answers that a path with the bytes of the `n`-th
/// rename of `d` is taken.
pub open spec fn rename_taken<F: Fn(&PathBuf) -> bool>(is_taken: F, d: Seq<u8>, n: u32) -> bool {
    exists|q: PathBuf| #[trigger] path_bytes(q) == unique_candidate(d, n) && call_ensures(is_taken, (&q,), true)
}

/// What a free-name search with the existence oracle `is_taken` may give for
/// `desired`: `desired` itself when the oracle says it is free; else, when it
/// is taken, the least rename `n` (1 to 999) that the oracle says is free
/// after every smaller one was taken; or exhaustion when all 999 are taken.
pub open spec fn unique_path_outcome<F: Fn(&PathBuf) -> bool>(is_taken: F, desired: PathBuf, r: Result<PathBuf, RecoveryError>) -> bool {
    let d = path_bytes(desired);
    match r {
        Ok(p) => (p == desired && call_ensures(is_taken, (&desired,), false)) || (call_ensures(is_taken, (&desired,), true)
            && exists|n: u32| 1 <= n <= MAX_RENAME_ATTEMPTS && path_bytes(p) == #[trigger] unique_candidate(d, n)
                && call_ensures(is_taken, (&p,), false)
                && forall|m: u32| 1 <= m < n ==> #[trigger] rename_taken(is_taken, d, m)),
        Err(e) => e matches RecoveryError::UniqueFilenameExhausted { attempts } && attempts == MAX_RENAME_ATTEMPTS
            && call_ensures(is_taken, (&desired,), true)
            && forall|m: u32| 1 <= m <= MAX_RENAME_ATTEMPTS ==> #[trigger] rename_taken(is_taken, d, m),
    }
}

/// A free path for `desired` by the existence oracle `is_taken`: `desired`
/// itself when it is free, else `stem (1).ext`, `stem (2).ext`, ... in its
/// directory, the first that is free; every rename up to
/// [`MAX_RENAME_ATTEMPTS`] is tried before giving up.
pub fn find_unique_path_with<F: Fn(&PathBuf) -> bool>(desired: &PathBuf, is_taken: F) -> (r: Result<PathBuf, RecoveryError>)
    requires
        forall|q: PathBuf| call_requires(is_taken, (&q,)),
    ensures
        unique_path_outcome(is_taken, *desired, r),
{
    if !is_taken(desired) {
        return Ok(desired.clone());
    }
    let parent = match path_parent(desired) {
        Some(q) => q,
        None => path_from_text("."),
    };
    proof {
        reveal_strlit("file");
    }
    let stem = match path_stem(desired) {
        Some(s) => s,
        None => String::from_str("file"),
    };
    let ext = path_extension(desired);
    let ghost d = path_bytes(*desired);
    let mut n: u32 = 1;
    while n <= MAX_RENAME_ATTEMPTS
        invariant
            1 <= n <= MAX_RENAME_ATTEMPTS + 1,
            d == path_bytes(*desired),
            path_bytes(parent) == rename_dir(d),
            stem@ == (match path_stem_of(d) {
                Some(s) => s,
                None => "file"@,
            }),
            opt_text(ext) == path_extension_of(d),
            forall|q: PathBuf| call_requires(is_taken, (&q,)),
            call_ensures(is_taken, (desired,), true),
            forall|m: u32| 1 <= m < n ==> #[trigger] rename_taken(is_taken, d, m),
        decreases MAX_RENAME_ATTEMPTS + 1 - n,
    {
        let name = match &ext {
            Some(e) => rename_candidate(stem.as_str(), Some(e.as_str()), n),
            None => rename_candidate(stem.as_str(), None, n),
        };
        let candidate = path_join(&parent, name.as_str());
        proof {
            assert(path_bytes(candidate) == unique_candidate(d, n));
        }
        if !is_taken(&candidate) {
            return Ok(candidate);
        }
        proof {
            assert(rename_taken(is_taken, d, n));
        }
        n = n + 1;
    }
    Err(RecoveryError::UniqueFilenameExhausted { attempts: MAX_RENAME_ATTEMPTS })
}

/// A free path for `desired`, asking the disk (see [`find_unique_path_with`]).
/// What is on disk can change between two questions, so the disk's answers
/// are not stated.
pub fn find_unique_path_impl(desired: &PathBuf) -> (r: Result<PathBuf, RecoveryError>)
    ensures
        r matches Ok(p) ==> p == *desired || exists|n: u32| 1 <= n <= MAX_RENAME_ATTEMPTS
            && path_bytes(p) == #[trigger] unique_candidate(path_bytes(*desired), n),
        r matches Err(e) ==> e matches RecoveryError::UniqueFilenameExhausted { attempts } && attempts == 999,
{
    find_unique_path_with(desired, |q: &PathBuf| path_exists(q))
}

/// Whether a file of the volume is recovered: a user file (not a metafile),
/// not a directory, and not excluded by the business exclusions
/// (`excluded`, the answer of the exclusion list for its path).
pub fn is_recovery_target(f: &NtfsFile, excluded: bool) -> (r: bool)
    ensures
        r == (!f.is_directory && f.record_index >= 24 && !excluded),
{
    f.is_user_file() && !f.is_directory && !excluded
}

/// The source id of an MFT record: `NTFS#<record>`.
pub fn source_id_of(record_index: u64) -> (r: String)
    ensures
        r@ == seq!['N', 'T', 'F', 'S', '#'] + decimal(record_index as nat),
{
    proof {
        reveal_strlit("NTFS#");
    }
    let mut s = String::new();
    push_str(&mut s, "NTFS#");
    push_decimal(&mut s, record_index);
    proof {
        assert(s@ =~= seq!['N', 'T', 'F', 'S', '#'] + decimal(record_index as nat));
    }
    s
}

/// Why a file is skipped for its size: `size S exceeds limit L` when a
/// limit is set and the file is larger; `None` otherwise.
pub fn size_skip_reason(size: u64, max_file_size_bytes: Option<u64>) -> (r: Option<String>)
    ensures
        match max_file_size_bytes {
            Some(max) => if size > max {
                r matches Some(s) && s@ == "size "@ + decimal(size as nat) + " exceeds limit "@ + decimal(max as nat)
            } else {
                r is None
            },
            None => r is None,
        },
{
    match max_file_size_bytes {
        Some(max) => {
            if size > max {
                let mut s = String::new();
                push_str(&mut s, "size ");
                push_decimal(&mut s, size);
                push_str(&mut s, " exceeds limit ");
                push_decimal(&mut s, max);
                proof {
                    assert(s@ =~= "size "@ + decimal(size as nat) + " exceeds limit "@ + decimal(max as nat));
                }
                Some(s)
            } else {
                None
            }
        },
        None => None,
    }
}

/// What processing one file gave.
pub enum ProcessedOutcome {
    Recovered(Box<RecoveredEntry>),
    Failed(FailedEntry),
    Skipped(SkippedEntry),
}

/// One file handed to a worker: the file, its source id, its content, and
/// whether (and how well) it matched the customer's wishes.
pub struct RecoveryTask {
    pub ntfs_file: NtfsFile,
    pub source_id: String,
    pub content: Vec<u8>,
    pub is_priority: bool,
    pub matched_wish_labels: Vec<String>,
    pub priority_score: u32,
}

/// Why a task stops before its file is written.
pub enum TaskStop {
    /// No output path: the NTFS path is refused, or no free name is left.
    Failed(RecoveryError),
    /// Under `Skip`, something is already at the output path.
    Exists(PathBuf),
}

/// The outcome of a task's free-name search as a plain result.
pub open spec fn stop_as_error(r: Result<PathBuf, TaskStop>) -> Result<PathBuf, RecoveryError> {
    match r {
        Ok(p) => Ok(p),
        Err(TaskStop::Failed(e)) => Err(e),
        Err(TaskStop::Exists(p)) => Ok(p),
    }
}

/// Where a task's file is written, with the existence oracle `is_taken`: its
/// planned output path, then by the conflict strategy the free name that
/// [`find_unique_path_with`] finds near it (`Rename`), the path itself
/// (`Overwrite`), or, when the oracle says the path is taken, no path at all
/// (`Skip`).
pub fn decide_output_path_with<F: Fn(&PathBuf) -> bool>(
    ntfs_file: &NtfsFile,
    config: &RecoveryConfig,
    options: &RecoveryOptions,
    legacy_output_dir: &PathBuf,
    is_taken: F,
) -> (r: Result<PathBuf, TaskStop>)
    requires
        forall|q: PathBuf| call_requires(is_taken, (&q,)),
    ensures
        match spec_plan(ntfs_file.path@, ntfs_file.is_deleted && options.mark_deleted_in_filename, ntfs_file.record_index) {
            Plan::Traversal => r matches Err(TaskStop::Failed(RecoveryError::PathTraversal { path: q }))
                && q@ == ntfs_file.path@,
            Plan::Unsanitizable(t) => r matches Err(TaskStop::Failed(RecoveryError::UnsanitizableFilename { original }))
                && original@ == t,
            Plan::Components(_) => exists|t: PathBuf| #[trigger] planned_path(t, *ntfs_file, *config, *options, *legacy_output_dir) && {
                &&& (options.conflict_strategy is Overwrite ==> r == Ok::<PathBuf, TaskStop>(t))
                &&& (options.conflict_strategy is Skip ==> (if call_ensures(is_taken, (&t,), true) && !call_ensures(is_taken, (&t,), false) {
                        r == Err::<PathBuf, TaskStop>(TaskStop::Exists(t))
                    } else if call_ensures(is_taken, (&t,), false) && !call_ensures(is_taken, (&t,), true) {
                        r == Ok::<PathBuf, TaskStop>(t)
                    } else {
                        r == Ok::<PathBuf, TaskStop>(t) || r == Err::<PathBuf, TaskStop>(TaskStop::Exists(t))
                    }))
                &&& (options.conflict_strategy is Rename ==> !(r matches Err(TaskStop::Exists(_)))
                    && unique_path_outcome(is_taken, t, stop_as_error(r)))
            },
        },
{
    let target = match build_output_path_impl(config, options, legacy_output_dir, ntfs_file) {
        Ok(p) => p,
        Err(e) => return Err(TaskStop::Failed(e)),
    };
    match options.conflict_strategy {
        ConflictStrategy::Rename => match find_unique_path_with(&target, is_taken) {
            Ok(p) => Ok(p),
            Err(e) => Err(TaskStop::Failed(e)),
        },
        ConflictStrategy::Overwrite => Ok(target),
        ConflictStrategy::Skip => {
            if is_taken(&target) {
                Err(TaskStop::Exists(target))
            } else {
                Ok(target)
            }
        },
    }
}

/// Where a task's file is written: its output path, then by the conflict
/// strategy a free name near it (`Rename`), the path itself (`Overwrite`),
/// or, when the path is taken, no path at all (`Skip`). The disk is asked
/// (see [`decide_output_path_with`]); what is on disk can change between two
/// questions, so its answers are not stated.
pub fn decide_output_path(
    ntfs_file: &NtfsFile,
    config: &RecoveryConfig,
    options: &RecoveryOptions,
    legacy_output_dir: &PathBuf,
) -> (r: Result<PathBuf, TaskStop>)
    ensures
        match spec_plan(ntfs_file.path@, ntfs_file.is_deleted && options.mark_deleted_in_filename, ntfs_file.record_index) {
            Plan::Traversal => r matches Err(TaskStop::Failed(RecoveryError::PathTraversal { path: q }))
                && q@ == ntfs_file.path@,
            Plan::Unsanitizable(t) => r matches Err(TaskStop::Failed(RecoveryError::UnsanitizableFilename { original }))
                && original@ == t,
            Plan::Components(_) => {
                &&& (options.conflict_strategy is Overwrite ==> r is Ok)
                &&& (options.conflict_strategy is Rename ==> (r is Ok || (r matches Err(TaskStop::Failed(e))
                    && e matches RecoveryError::UniqueFilenameExhausted { attempts } && attempts == 999)))
                &&& (options.conflict_strategy is Skip ==> (r is Ok || r matches Err(TaskStop::Exists(_))))
                &&& (!(options.conflict_strategy is Rename) ==> (r matches Ok(p) ==> planned_path(p, *ntfs_file, *config, *options, *legacy_output_dir)))
                &&& (options.conflict_strategy is Skip ==> (r matches Err(TaskStop::Exists(p)) ==> planned_path(p, *ntfs_file, *config, *options, *legacy_output_dir)))
                &&& (options.conflict_strategy is Rename ==> (r matches Ok(p) ==> {
                    let t = planned_bytes(*ntfs_file, *config, *options, *legacy_output_dir);
                    path_bytes(p) == t || exists|n: u32| 1 <= n <= MAX_RENAME_ATTEMPTS && path_bytes(p) == #[trigger] unique_candidate(t, n)
                }))
            },
        },
{
    decide_output_path_with(ntfs_file, config, options, legacy_output_dir, |q: &PathBuf| path_exists(q))
}

fn copy_strings(v: &Vec<String>) -> (r: Vec<String>)
    ensures
        string_seqs(r@) == string_seqs(v@),
{
    let mut out: Vec<String> = Vec::new();
    let n = v.len();
    let mut i: usize = 0;
    while i < n
        invariant
            n == v@.len(),
            i <= n,
            string_seqs(out@) == string_seqs(v@.take(i as int)),
        decreases n - i,
    {
        let ghost before = out@;
        let item = String::from_str(v[i].as_str());
        out.push(item);
        proof {
            assert(out@ == before.push(item));
            assert(string_seqs(out@) =~= string_seqs(before).push(v@[i as int]@));
            assert(string_seqs(v@.take(i as int + 1)) =~= string_seqs(v@.take(i as int)).push(v@[i as int]@));
        }
        i = i + 1;
    }
    proof {
        assert(v@.take(n as int) =~= v@);
    }
    out
}

/// The outcome of a task once its file was written to `final_path` (or the
/// write failed): a failure `I/O error: ...`, or the recovered entry with the
/// bytes written, the SHA-256 of the content when asked for, the validation
/// given, and the task's wish data.
pub fn finish_task(
    task: &RecoveryTask,
    final_path: PathBuf,
    written: Result<u64, std::io::Error>,
    validation: Option<ValidationResult>,
    options: &RecoveryOptions,
) -> (r: ProcessedOutcome)
    ensures
        written is Err ==> (r matches ProcessedOutcome::Failed(f)
            && f.source_id@ == task.source_id@
            && f.original_path@ == task.ntfs_file.path@
            && exists|cause: Seq<char>| f.error_message@ == "I/O error: "@ + cause),
        written matches Ok(n) ==> (r matches ProcessedOutcome::Recovered(e)
            && e.source_id@ == task.source_id@
            && e.original_path@ == task.ntfs_file.path@
            && e.output_path == final_path
            && e.bytes_written == n
            && e.priority_score == task.priority_score
            && e.is_deleted == task.ntfs_file.is_deleted
            && (options.compute_sha256 ==> (e.sha256 matches Some(h) && h@ == sha256_hex_of(task.content@)))
            && (!options.compute_sha256 ==> e.sha256 is None)
            && e.validation == validation
            && string_seqs(e.matched_wish_labels@) == string_seqs(task.matched_wish_labels@)
            && e.is_priority == task.is_priority),
{
    match written {
        Err(err) => {
            let mut msg = String::from_str("I/O error: ");
            let cause = io_error_text(&err);
            push_str(&mut msg, cause.as_str());
            ProcessedOutcome::Failed(FailedEntry {
                source_id: String::from_str(task.source_id.as_str()),
                original_path: String::from_str(task.ntfs_file.path.as_str()),
                error_message: msg,
            })
        },
        Ok(n) => {
            let sha256 = if options.compute_sha256 {
                Some(sha256_hex(task.content.as_slice()))
            } else {
                None
            };
            ProcessedOutcome::Recovered(Box::new(RecoveredEntry {
                source_id: String::from_str(task.source_id.as_str()),
                original_path: String::from_str(task.ntfs_file.path.as_str()),
                output_path: final_path,
                bytes_written: n,
                priority_score: task.priority_score,
                is_deleted: task.ntfs_file.is_deleted,
                sha256,
                validation,
                matched_wish_labels: copy_strings(&task.matched_wish_labels),
                is_priority: task.is_priority,
            }))
        },
    }
}

/// The recovered entries among `s`, in order.
pub open spec fn recovered_of(s: Seq<ProcessedOutcome>) -> Seq<RecoveredEntry>
    decreases s.len(),
{
    if s.len() == 0 {
        Seq::empty()
    } else {
        recovered_of(s.drop_last()) + match s.last() {
            ProcessedOutcome::Recovered(e) => seq![*e],
            _ => Seq::empty(),
        }
    }
}

/// The failures among `s`, in order.
pub open spec fn failed_of(s: Seq<ProcessedOutcome>) -> Seq<FailedEntry>
    decreases s.len(),
{
    if s.len() == 0 {
        Seq::empty()
    } else {
        failed_of(s.drop_last()) + match s.last() {
            ProcessedOutcome::Failed(f) => seq![f],
            _ => Seq::empty(),
        }
    }
}

/// The skipped files among `s`, in order.
pub open spec fn skipped_of(s: Seq<ProcessedOutcome>) -> Seq<SkippedEntry>
    decreases s.len(),
{
    if s.len() == 0 {
        Seq::empty()
    } else {
        skipped_of(s.drop_last()) + match s.last() {
            ProcessedOutcome::Skipped(k) => seq![k],
            _ => Seq::empty(),
        }
    }
}

/// Sorts outcomes into recovered, failed (after the failures found while
/// reading) and skipped, each in the order met.
pub fn collect_outcomes(outcomes: Vec<ProcessedOutcome>, producer_failures: Vec<FailedEntry>)
    -> (r: (Vec<RecoveredEntry>, Vec<FailedEntry>, Vec<SkippedEntry>))
    ensures
        r.0@ == recovered_of(outcomes@),
        r.1@ == producer_failures@ + failed_of(outcomes@),
        r.2@ == skipped_of(outcomes@),
        r.0@.len() + r.1@.len() + r.2@.len() == outcomes@.len() + producer_failures@.len(),
{
    let ghost os = outcomes@;
    let mut recovered: Vec<RecoveredEntry> = Vec::new();
    let mut failed = producer_failures;
    let ghost pf = failed@;
    let mut skipped: Vec<SkippedEntry> = Vec::new();
    let mut rest = outcomes;
    proof {
        lemma_outcome_total(os);
    }
    let n = rest.len();
    let mut i: usize = 0;
    proof {
        assert(os.skip(0) =~= os);
    }
    while i < n
        invariant
            n == os.len(),
            i <= n,
            rest@ == os.skip(i as int),
            recovered@ == recovered_of(os.take(i as int)),
            failed@ == pf + failed_of(os.take(i as int)),
            skipped@ == skipped_of(os.take(i as int)),
        decreases n - i,
    {
        proof {
            assert(os.take(i as int + 1).drop_last() =~= os.take(i as int));
        }
        let o = rest.remove(0);
        proof {
            assert(o == os[i as int]);
            assert(rest@ =~= os.skip(i as int + 1));
        }
        match o {
            ProcessedOutcome::Recovered(e) => {
                recovered.push(*e);
            },
            ProcessedOutcome::Failed(f) => {
                failed.push(f);
            },
            ProcessedOutcome::Skipped(s) => {
                skipped.push(s);
            },
        }
        i = i + 1;
    }
    proof {
        assert(os.take(n as int) =~= os);
    }
    (recovered, failed, skipped)
}

/// Every outcome is recovered, failed or skipped, and only one of them.
pub proof fn lemma_outcome_total(s: Seq<ProcessedOutcome>)
    ensures
        recovered_of(s).len() + failed_of(s).len() + skipped_of(s).len() == s.len(),
    decreases s.len(),
{
    if s.len() > 0 {
        lemma_outcome_total(s.drop_last());
    }
}

/// Calls the `sha2` crate: the SHA-256 digest of the bytes as 64 lowercase
/// hex digits; a function of the bytes.
#[verifier::external_body]
fn sha256_digest_hex(bytes: &[u8]) -> (r: String)
    ensures
        r@ == sha256_hex_of(bytes@),
{
    let mut hasher = sha2::Sha256::new();
    hasher.update(bytes);
    format!("{:x}", hasher.finalize())
}

/// The lowercase hex SHA-256 of some bytes, as the `sha2` crate computes it.
pub uninterp spec fn sha256_hex_of(bytes: Seq<u8>) -> Seq<char>;

/// SHA-256 of the bytes in lowercase hex.
pub fn sha256_hex(bytes: &[u8]) -> (r: String)
    ensures
        r@ == sha256_hex_of(bytes@),
{
    sha256_digest_hex(bytes)
}

} // verus!
