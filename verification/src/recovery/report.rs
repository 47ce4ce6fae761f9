//! The report of a recovery run: every file recovered, failed or skipped,
//! and the business figures drawn from them.

use vstd::prelude::*;
use std::path::PathBuf;
use crate::grouping::{group_by_key, groups_view, is_grouping, Group};
use crate::recovery::validation::{ValidationResult, ValidationStatus};
use crate::text::{chars_of, push_str, string_of};
use crate::time::UtcTime;

verus! {

/// What `(finished - started).num_milliseconds()` gives in chrono for two instants.
pub uninterp spec fn millis_between(s1: i64, n1: u32, s2: i64, n2: u32) -> i64;

/// The whole milliseconds in `d` nanoseconds, rounded toward zero.
pub open spec fn whole_millis(d: int) -> int {
    if d >= 0 { d / 1_000_000 } else { -((-d) / 1_000_000) }
}

/// Calls chrono: the whole milliseconds of `finished - started` (the
/// `TimeDelta` between the two dates); a function of the two instants. Away
/// from leap seconds (sub-second parts below one second) the difference is
/// the plain one, in nanoseconds, and its milliseconds are rounded toward
/// zero; chrono's leap-second rules are left to the name.
#[verifier::external_body]
fn chrono_millis(started: &UtcTime, finished: &UtcTime) -> (r: i64)
    ensures
        r == millis_between(started.secs(), started.nanos(), finished.secs(), finished.nanos()),
        started.nanos() < 1_000_000_000 && finished.nanos() < 1_000_000_000 ==> r == whole_millis(
            (finished.secs() - started.secs()) * 1_000_000_000 + finished.nanos() - started.nanos()),
{
    let a = chrono::DateTime::from_timestamp(started.timestamp(), started.timestamp_subsec_nanos());
    let b = chrono::DateTime::from_timestamp(finished.timestamp(), finished.timestamp_subsec_nanos());
    match (a, b) {
        (Some(a), Some(b)) => (b - a).num_milliseconds(),
        _ => 0,
    }
}

/// The outcome of one recovery run.
#[derive(Debug)]
pub struct RecoveryReport {
    pub started_at: UtcTime,
    pub finished_at: UtcTime,
    /// Files the run tried to recover.
    pub total_matched: usize,
    pub recovered: Vec<RecoveredEntry>,
    pub failed: Vec<FailedEntry>,
    pub skipped: Vec<SkippedEntry>,
    /// The labels of the customer's wishes, in order.
    pub wish_labels: Vec<String>,
}

/// Counts of one format.
#[derive(Debug, Default, Clone, PartialEq, Eq)]
pub struct FormatStats {
    pub valid: usize,
    pub invalid: usize,
    pub uncertain: usize,
    pub total: usize,
}

/// One recovered file.
#[derive(Debug, Clone)]
pub struct RecoveredEntry {
    /// `NTFS#<record>`.
    pub source_id: String,
    pub original_path: String,
    pub output_path: PathBuf,
    pub bytes_written: u64,
    pub priority_score: u32,
    pub is_deleted: bool,
    pub sha256: Option<String>,
    pub validation: Option<ValidationResult>,
    pub matched_wish_labels: Vec<String>,
    /// The file matched the customer's wishlist.
    pub is_priority: bool,
}

/// One file that could not be recovered.
#[derive(Debug, Clone)]
pub struct FailedEntry {
    pub source_id: String,
    pub original_path: String,
    pub error_message: String,
}

/// One file left out (over the size limit, or its name taken under `Skip`).
#[derive(Debug, Clone)]
pub struct SkippedEntry {
    pub source_id: String,
    pub original_path: String,
    pub reason: String,
}

/// A recovered file judged `Valid`.
pub open spec fn is_valid_entry(e: RecoveredEntry) -> bool {
    e.validation matches Some(v) && v.status is Valid
}

/// A recovered file judged `Invalid`.
pub open spec fn is_invalid_entry(e: RecoveredEntry) -> bool {
    e.validation matches Some(v) && v.status is Invalid
}

/// An entry whose validation is `Uncertain` or missing.
pub open spec fn is_uncertain_entry(e: RecoveredEntry) -> bool {
    e.validation is None || e.validation->Some_0.status is Uncertain
}

/// The three kinds of entries counted by the report.
pub open spec fn kind_holds(e: RecoveredEntry, kind: u8) -> bool {
    if kind == 0 {
        is_valid_entry(e)
    } else if kind == 1 {
        is_invalid_entry(e)
    } else if kind == 2 {
        is_uncertain_entry(e)
    } else {
        true
    }
}

/// Number of entries of `s` of kind `kind` (3: all), among the priority ones
/// only when `priority_only`.
pub open spec fn count_kind(s: Seq<RecoveredEntry>, kind: u8, priority_only: bool) -> nat
    decreases s.len(),
{
    if s.len() == 0 {
        0
    } else {
        count_kind(s.drop_last(), kind, priority_only)
            + if kind_holds(s.last(), kind) && (!priority_only || s.last().is_priority) { 1nat } else { 0nat }
    }
}

/// Sum of the bytes written for the entries of `s` (the priority ones only
/// when `priority_only`).
pub open spec fn bytes_sum(s: Seq<RecoveredEntry>, priority_only: bool) -> nat
    decreases s.len(),
{
    if s.len() == 0 {
        0
    } else {
        bytes_sum(s.drop_last(), priority_only) + if !priority_only || s.last().is_priority { s.last().bytes_written as nat } else { 0nat }
    }
}

proof fn lemma_count_bound(s: Seq<RecoveredEntry>, kind: u8, p: bool)
    ensures
        count_kind(s, kind, p) <= s.len(),
    decreases s.len(),
{
    if s.len() > 0 {
        lemma_count_bound(s.drop_last(), kind, p);
    }
}

/// Every recovered file is exactly one of valid, invalid and uncertain, so the
/// three counts add up to the number of recovered files; the same holds among
/// the priority files.
pub proof fn lemma_quality_partition(s: Seq<RecoveredEntry>, priority_only: bool)
    ensures
        count_kind(s, 0, priority_only) + count_kind(s, 1, priority_only) + count_kind(s, 2, priority_only)
            == count_kind(s, 3, priority_only),
    decreases s.len(),
{
    if s.len() > 0 {
        lemma_quality_partition(s.drop_last(), priority_only);
    }
}

/// The priority files are a part of all files, kind by kind.
pub proof fn lemma_priority_within(s: Seq<RecoveredEntry>, kind: u8)
    ensures
        count_kind(s, kind, true) <= count_kind(s, kind, false),
    decreases s.len(),
{
    if s.len() > 0 {
        lemma_priority_within(s.drop_last(), kind);
    }
}

/// The bytes of the priority files are part of all bytes written.
pub proof fn lemma_priority_bytes_within(s: Seq<RecoveredEntry>)
    ensures
        bytes_sum(s, true) <= bytes_sum(s, false),
    decreases s.len(),
{
    if s.len() > 0 {
        lemma_priority_bytes_within(s.drop_last());
    }
}

fn kind_of(e: &RecoveredEntry, kind: u8) -> (r: bool)
    ensures
        r == kind_holds(*e, kind),
{
    if kind >= 3 {
        return true;
    }
    match &e.validation {
        Some(v) => {
            if kind == 0 {
                v.status.is_valid()
            } else if kind == 1 {
                v.status.is_invalid()
            } else {
                v.status.is_uncertain()
            }
        },
        None => kind == 2,
    }
}

fn count_entries(s: &Vec<RecoveredEntry>, kind: u8, priority_only: bool) -> (r: usize)
    ensures
        r == count_kind(s@, kind, priority_only),
{
    let n = s.len();
    let mut c: usize = 0;
    let mut i: usize = 0;
    while i < n
        invariant
            n == s@.len(),
            i <= n,
            c == count_kind(s@.take(i as int), kind, priority_only),
        decreases n - i,
    {
        proof {
            assert(s@.take(i as int + 1).drop_last() =~= s@.take(i as int));
            lemma_count_bound(s@.take(i as int), kind, priority_only);
        }
        if kind_of(&s[i], kind) && (!priority_only || s[i].is_priority) {
            c = c + 1;
        }
        i = i + 1;
    }
    proof {
        assert(s@.take(n as int) =~= s@);
    }
    c
}

fn sum_bytes(s: &Vec<RecoveredEntry>, priority_only: bool) -> (r: u64)
    requires
        bytes_sum(s@, priority_only) <= u64::MAX,
    ensures
        r == bytes_sum(s@, priority_only),
{
    let n = s.len();
    let mut total: u64 = 0;
    let mut i: usize = 0;
    while i < n
        invariant
            n == s@.len(),
            i <= n,
            total == bytes_sum(s@.take(i as int), priority_only),
            bytes_sum(s@, priority_only) <= u64::MAX,
        decreases n - i,
    {
        proof {
            assert(s@.take(i as int + 1).drop_last() =~= s@.take(i as int));
            lemma_bytes_prefix(s@, priority_only, i as int + 1);
        }
        if !priority_only || s[i].is_priority {
            total = total + s[i].bytes_written;
        }
        i = i + 1;
    }
    proof {
        assert(s@.take(n as int) =~= s@);
    }
    total
}

proof fn lemma_bytes_prefix(s: Seq<RecoveredEntry>, p: bool, k: int)
    requires
        0 <= k <= s.len(),
    ensures
        bytes_sum(s.take(k), p) <= bytes_sum(s, p),
    decreases s.len() - k,
{
    if k < s.len() {
        lemma_bytes_prefix(s, p, k + 1);
        assert(s.take(k + 1).drop_last() =~= s.take(k));
    } else {
        assert(s.take(k) =~= s);
    }
}

/// The key of an entry in the format breakdown: its detected format,
/// `(未検出)` without one, `(検証なし)` when it was not checked.
pub open spec fn breakdown_key(e: RecoveredEntry) -> Seq<char> {
    match e.validation {
        None => "(検証なし)"@,
        Some(v) => match v.format_detected {
            Some(f) => f@,
            None => "(未検出)"@,
        },
    }
}

/// The counts of the entries of `s` at positions `members`.
pub open spec fn stats_of(s: Seq<RecoveredEntry>, members: Seq<usize>) -> FormatStats
    decreases members.len(),
{
    if members.len() == 0 {
        FormatStats { valid: 0, invalid: 0, uncertain: 0, total: 0 }
    } else {
        let prev = stats_of(s, members.drop_last());
        let e = s[members.last() as int];
        FormatStats {
            valid: (prev.valid + if is_valid_entry(e) { 1int } else { 0int }) as usize,
            invalid: (prev.invalid + if is_invalid_entry(e) { 1int } else { 0int }) as usize,
            uncertain: (prev.uncertain + if is_uncertain_entry(e) { 1int } else { 0int }) as usize,
            total: (prev.total + 1) as usize,
        }
    }
}

/// The breakdown keys of all entries.
pub open spec fn breakdown_keys(s: Seq<RecoveredEntry>) -> Seq<Seq<char>> {
    s.map_values(|e: RecoveredEntry| breakdown_key(e))
}

/// Each group's key with the counts of its entries.
pub open spec fn stats_per_group(s: Seq<RecoveredEntry>, groups: Seq<(Seq<char>, Seq<usize>)>) -> Seq<(Seq<char>, FormatStats)> {
    groups.map_values(|g: (Seq<char>, Seq<usize>)| (g.0, stats_of(s, g.1)))
}

pub open spec fn breakdown_view(v: Seq<(String, FormatStats)>) -> Seq<(Seq<char>, FormatStats)> {
    v.map_values(|p: (String, FormatStats)| (p.0@, p.1))
}

/// The reason key of an invalid entry: `format - first 20 characters of the
/// customer message`, `format - (詳細なし)` without a message, `その他`
/// without a format.
pub open spec fn reason_key(e: RecoveredEntry) -> Seq<char> {
    let v = e.validation->Some_0;
    match v.format_detected {
        Some(f) => match v.user_message_ja {
            Some(m) => f@ + " - "@ + (if m@.len() > 20 { m@.take(20) } else { m@ }),
            None => f@ + " - (詳細なし)"@,
        },
        None => "その他"@,
    }
}

/// Positions of the invalid entries of `s`, in order.
pub open spec fn invalid_positions(s: Seq<RecoveredEntry>) -> Seq<usize>
    decreases s.len(),
{
    if s.len() == 0 {
        Seq::empty()
    } else {
        invalid_positions(s.drop_last()) + if is_invalid_entry(s.last()) { seq![(s.len() - 1) as usize] } else { Seq::empty() }
    }
}

impl RecoveryReport {
    /// Milliseconds from start to finish.
    pub fn duration_ms(&self) -> (r: i64)
        ensures
            r == millis_between(self.started_at.secs(), self.started_at.nanos(), self.finished_at.secs(), self.finished_at.nanos()),
            self.started_at.nanos() < 1_000_000_000 && self.finished_at.nanos() < 1_000_000_000 ==> r == whole_millis(
                (self.finished_at.secs() - self.started_at.secs()) * 1_000_000_000 + self.finished_at.nanos() - self.started_at.nanos()),
    {
        chrono_millis(&self.started_at, &self.finished_at)
    }

    /// Bytes written for all recovered files.
    pub fn total_bytes_written(&self) -> (r: u64)
        requires
            bytes_sum(self.recovered@, false) <= u64::MAX,
        ensures
            r == bytes_sum(self.recovered@, false),
    {
        sum_bytes(&self.recovered, false)
    }

    /// Recovered files judged `Valid`.
    pub fn validated_count(&self) -> (r: usize)
        ensures
            r == count_kind(self.recovered@, 0, false),
    {
        count_entries(&self.recovered, 0, false)
    }

    /// Recovered files judged `Invalid`.
    pub fn invalid_count(&self) -> (r: usize)
        ensures
            r == count_kind(self.recovered@, 1, false),
    {
        count_entries(&self.recovered, 1, false)
    }

    /// Recovered files judged neither valid nor invalid, unvalidated ones included.
    pub fn uncertain_count(&self) -> (r: usize)
        ensures
            r == count_kind(self.recovered@, 2, false),
    {
        count_entries(&self.recovered, 2, false)
    }

    /// Recovered files that matched the wishlist.
    pub fn priority_count(&self) -> (r: usize)
        ensures
            r == count_kind(self.recovered@, 3, true),
    {
        count_entries(&self.recovered, 3, true)
    }

    pub fn priority_validated_count(&self) -> (r: usize)
        ensures
            r == count_kind(self.recovered@, 0, true),
    {
        count_entries(&self.recovered, 0, true)
    }

    pub fn priority_invalid_count(&self) -> (r: usize)
        ensures
            r == count_kind(self.recovered@, 1, true),
    {
        count_entries(&self.recovered, 1, true)
    }

    pub fn priority_uncertain_count(&self) -> (r: usize)
        ensures
            r == count_kind(self.recovered@, 2, true),
    {
        count_entries(&self.recovered, 2, true)
    }

    /// Bytes written for the priority files.
    pub fn priority_total_bytes(&self) -> (r: u64)
        requires
            bytes_sum(self.recovered@, true) <= u64::MAX,
        ensures
            r == bytes_sum(self.recovered@, true),
    {
        sum_bytes(&self.recovered, true)
    }

    /// The recovered files counted by format, formats in ascending order.
    pub fn format_breakdown(&self) -> (r: Vec<(String, FormatStats)>)
        ensures
            r@.len() == 0 <==> self.recovered@.len() == 0,
            exists|groups: Seq<(Seq<char>, Seq<usize>)>| #![trigger is_grouping(groups, breakdown_keys(self.recovered@))] {
                &&& is_grouping(groups, breakdown_keys(self.recovered@))
                &&& breakdown_view(r@) == stats_per_group(self.recovered@, groups)
            },
    {
        let n = self.recovered.len();
        let mut keys: Vec<Vec<char>> = Vec::new();
        let mut i: usize = 0;
        while i < n
            invariant
                n == self.recovered@.len(),
                i <= n,
                keys@.len() == i,
                forall|j: int| 0 <= j < i ==> (#[trigger] keys@[j])@ == breakdown_key(self.recovered@[j]),
            decreases n - i,
        {
            let e = &self.recovered[i];
            let k = match &e.validation {
                None => chars_of("(検証なし)"),
                Some(v) => match &v.format_detected {
                    Some(f) => chars_of(f.as_str()),
                    None => chars_of("(未検出)"),
                },
            };
            keys.push(k);
            i = i + 1;
        }
        let ghost ks = keys@.map_values(|k: Vec<char>| k@);
        proof {
            assert(ks =~= breakdown_keys(self.recovered@));
        }
        let groups = group_by_key(&keys);
        let gn = groups.len();
        let ghost gv = groups_view(groups@);
        let mut out: Vec<(String, FormatStats)> = Vec::new();
        let mut g: usize = 0;
        while g < gn
            invariant
                gn == groups@.len(),
                gv == groups_view(groups@),
                n == self.recovered@.len(),
                is_grouping(gv, ks),
                ks.len() == n,
                g <= gn,
                breakdown_view(out@) == stats_per_group(self.recovered@, gv.take(g as int)),
            decreases gn - g,
        {
            let grp = &groups[g];
            let mm = grp.members.len();
            proof {
                assert(gv[g as int].1 == grp.members@);
                assert forall|y: int| 0 <= y < mm implies (#[trigger] grp.members@[y]) < n by {
                    assert(gv[g as int].1[y] == grp.members@[y]);
                }
            }
            let mut st = FormatStats { valid: 0, invalid: 0, uncertain: 0, total: 0 };
            let mut x: usize = 0;
            while x < mm
                invariant
                    mm == grp.members@.len(),
                    gv[g as int].1 == grp.members@,
                    forall|y: int| 0 <= y < mm ==> (#[trigger] grp.members@[y]) < n,
                    n == self.recovered@.len(),
                    x <= mm,
                    st == stats_of(self.recovered@, grp.members@.take(x as int)),
                    st.total == x,
                    st.valid <= x && st.invalid <= x && st.uncertain <= x,
                decreases mm - x,
            {
                let idx = grp.members[x];
                let e = &self.recovered[idx];
                proof {
                    assert(grp.members@.take(x as int + 1).drop_last() =~= grp.members@.take(x as int));
                }
                match &e.validation {
                    None => {
                        st.uncertain = st.uncertain + 1;
                    },
                    Some(v) => {
                        if v.status.is_valid() {
                            st.valid = st.valid + 1;
                        } else if v.status.is_invalid() {
                            st.invalid = st.invalid + 1;
                        } else {
                            st.uncertain = st.uncertain + 1;
                        }
                    },
                }
                st.total = st.total + 1;
                x = x + 1;
            }
            proof {
                assert(grp.members@.take(mm as int) =~= grp.members@);
            }
            let key = string_of(grp.key.as_slice(), 0, grp.key.len());
            proof {
                assert(grp.key@.subrange(0, grp.key@.len() as int) =~= grp.key@);
            }
            let ghost before = breakdown_view(out@);
            out.push((key, st));
            proof {
                assert(breakdown_view(out@) =~= before.push((gv[g as int].0, stats_of(self.recovered@, gv[g as int].1))));
                assert(gv.take(g as int + 1) =~= gv.take(g as int).push(gv[g as int]));
                assert(stats_per_group(self.recovered@, gv.take(g as int + 1))
                    =~= stats_per_group(self.recovered@, gv.take(g as int)).push((gv[g as int].0, stats_of(self.recovered@, gv[g as int].1))));
            }
            g = g + 1;
        }
        proof {
            assert(gv.take(gn as int) =~= gv);
            if n > 0 {
                assert(crate::grouping::covered(gv, 0));
            }
            if gn > 0 {
                assert(gv[0].1.len() > 0);
                assert(gv[0].1[0] < ks.len());
            }
        }
        out
    }

    /// The invalid files grouped by `format - start of the customer message`,
    /// groups in ascending key order and files in report order.
    pub fn invalid_grouped_by_reason(&self) -> (r: Vec<(String, Vec<&RecoveredEntry>)>)
        ensures
            exists|groups: Seq<(Seq<char>, Seq<usize>)>| #![trigger is_grouping(groups, reason_keys(self.recovered@))] {
                &&& is_grouping(groups, reason_keys(self.recovered@))
                &&& r@.len() == groups.len()
                &&& forall|g: int| 0 <= g < groups.len() ==> (#[trigger] r@[g]).0@ == groups[g].0
                    && r@[g].1@.len() == groups[g].1.len()
                    && forall|x: int| 0 <= x < groups[g].1.len() ==>
                        *(#[trigger] r@[g].1@[x]) == self.recovered@[invalid_positions(self.recovered@)[groups[g].1[x] as int] as int]
            },
    {
        let n = self.recovered.len();
        let mut pos: Vec<usize> = Vec::new();
        let mut keys: Vec<Vec<char>> = Vec::new();
        let mut i: usize = 0;
        while i < n
            invariant
                n == self.recovered@.len(),
                i <= n,
                pos@ == invalid_positions(self.recovered@.take(i as int)),
                keys@.len() == pos@.len(),
                forall|j: int| 0 <= j < keys@.len() ==> (#[trigger] keys@[j])@ == reason_key(self.recovered@[pos@[j] as int]),
                forall|j: int| 0 <= j < pos@.len() ==> (#[trigger] pos@[j]) < i,
            decreases n - i,
        {
            proof {
                assert(self.recovered@.take(i as int + 1).drop_last() =~= self.recovered@.take(i as int));
            }
            let e = &self.recovered[i];
            match &e.validation {
                Some(v) => {
                    if v.status.is_invalid() {
                        let k = reason_key_of(v);
                        pos.push(i);
                        keys.push(k);
                    }
                },
                None => {},
            }
            i = i + 1;
            proof {
                assert(pos@ =~= invalid_positions(self.recovered@.take(i as int)));
            }
        }
        proof {
            assert(self.recovered@.take(n as int) =~= self.recovered@);
            assert(keys@.map_values(|k: Vec<char>| k@) =~= reason_keys(self.recovered@));
        }
        let groups = group_by_key(&keys);
        let ghost gv = groups_view(groups@);
        let gn = groups.len();
        let mut out: Vec<(String, Vec<&RecoveredEntry>)> = Vec::new();
        let mut g: usize = 0;
        while g < gn
            invariant
                gn == groups@.len(),
                gv == groups_view(groups@),
                is_grouping(gv, reason_keys(self.recovered@)),
                n == self.recovered@.len(),
                pos@ == invalid_positions(self.recovered@),
                keys@.len() == pos@.len(),
                forall|j: int| 0 <= j < pos@.len() ==> (#[trigger] pos@[j]) < n,
                g <= gn,
                out@.len() == g,
                forall|h: int| 0 <= h < g ==> (#[trigger] out@[h]).0@ == gv[h].0
                    && out@[h].1@.len() == gv[h].1.len()
                    && forall|x: int| 0 <= x < gv[h].1.len() ==>
                        *(#[trigger] out@[h].1@[x]) == self.recovered@[pos@[gv[h].1[x] as int] as int],
            decreases gn - g,
        {
            let grp = &groups[g];
            let mm = grp.members.len();
            proof {
                assert(gv[g as int].1 == grp.members@);
                assert forall|y: int| 0 <= y < mm implies (#[trigger] grp.members@[y]) < pos@.len() by {
                    assert(gv[g as int].1[y] == grp.members@[y]);
                }
            }
            let mut items: Vec<&RecoveredEntry> = Vec::new();
            let mut x: usize = 0;
            while x < mm
                invariant
                    mm == grp.members@.len(),
                    forall|y: int| 0 <= y < mm ==> (#[trigger] grp.members@[y]) < pos@.len(),
                    forall|j: int| 0 <= j < pos@.len() ==> (#[trigger] pos@[j]) < n,
                    n == self.recovered@.len(),
                    x <= mm,
                    items@.len() == x,
                    forall|y: int| 0 <= y < x ==> *(#[trigger] items@[y]) == self.recovered@[pos@[grp.members@[y] as int] as int],
                decreases mm - x,
            {
                let p = pos[grp.members[x]];
                items.push(&self.recovered[p]);
                x = x + 1;
            }
            let key = string_of(grp.key.as_slice(), 0, grp.key.len());
            proof {
                assert(grp.key@.subrange(0, grp.key@.len() as int) =~= grp.key@);
            }
            out.push((key, items));
            g = g + 1;
        }
        out
    }
}

/// The reason keys of the invalid entries of `s`, in order.
pub open spec fn reason_keys(s: Seq<RecoveredEntry>) -> Seq<Seq<char>> {
    invalid_positions(s).map_values(|p: usize| reason_key(s[p as int]))
}

/// The reason key of an invalid entry's validation result.
fn reason_key_of(v: &ValidationResult) -> (r: Vec<char>)
    ensures
        r@ == ({
            match v.format_detected {
                Some(f) => match v.user_message_ja {
                    Some(m) => f@ + " - "@ + (if m@.len() > 20 { m@.take(20) } else { m@ }),
                    None => f@ + " - (詳細なし)"@,
                },
                None => "その他"@,
            }
        }),
{
    match &v.format_detected {
        Some(f) => {
            let mut out = String::new();
            push_str(&mut out, f.as_str());
            match &v.user_message_ja {
                Some(m) => {
                    push_str(&mut out, " - ");
                    let mc = chars_of(m.as_str());
                    let take = if mc.len() > 20 { 20 } else { mc.len() };
                    let head = string_of(mc.as_slice(), 0, take);
                    push_str(&mut out, head.as_str());
                    proof {
                        assert(mc@.subrange(0, take as int) =~= (if m@.len() > 20 { m@.take(20) } else { m@ }));
                    }
                },
                None => {
                    push_str(&mut out, " - (詳細なし)");
                },
            }
            proof {
                assert(Seq::<char>::empty() + f@ =~= f@);
            }
            chars_of(out.as_str())
        },
        None => chars_of("その他"),
    }
}

} // verus!