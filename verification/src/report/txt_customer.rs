//! The two plain-text lists handed to the customer: files suspected damaged
//! and files that could not be validated automatically, grouped by folder in
//! ascending order.

use vstd::prelude::*;
use vstd::string::StringExecFns;
use crate::file::{last_index_of, lemma_last_index_of};
use crate::grouping::{group_by_key, groups_view, is_grouping, Group};
use crate::recovery::report::{is_invalid_entry, RecoveredEntry, RecoveryReport};
use crate::report::docx_customer::COMPANY_NAME;
use crate::text::{chars_of, push_char, push_decimal, push_str, string_of, decimal};
use crate::time::{chrono_accepts_exec, clock_since_epoch, local_ymd};

verus! {

/// `\dir1\dir2\file.txt` as its folder `\dir1\dir2` and file `file.txt`; the
/// folder is empty for a file right under the root or a path without `\`.
pub open spec fn split_folder(p: Seq<char>) -> (Seq<char>, Seq<char>) {
    match last_index_of(p, '\\') {
        Some(i) => if i == 0 {
            (Seq::empty(), p.subrange(1, p.len() as int))
        } else {
            (p.subrange(0, i), p.subrange(i + 1, p.len() as int))
        },
        None => (Seq::empty(), p),
    }
}

/// Splits a path at its last `\` into folder and file name.
pub fn split_folder_filename(path: &str) -> (r: (String, &str))
    ensures
        r.0@ == split_folder(path@).0,
        r.1@ == split_folder(path@).1,
{
    let n = path.unicode_len();
    let mut i = n;
    while i > 0
        invariant
            i <= n,
            n == path@.len(),
            forall|j: int| i <= j < n ==> path@[j] != '\\',
        decreases i,
    {
        if path.get_char(i - 1) == '\\' {
            proof {
                assert(last_index_of(path@, '\\') == Some((i - 1) as int)) by {
                    lemma_last_index_of(path@, '\\');
                }
            }
            if i == 1 {
                return (String::new(), path.substring_char(1, n));
            }
            let folder = path.substring_char(0, i - 1);
            return (String::from_str(folder), path.substring_char(i, n));
        }
        i = i - 1;
    }
    proof {
        lemma_last_index_of(path@, '\\');
        if let Some(k) = last_index_of(path@, '\\') {
            assert(path@[k] == '\\');
        }
    }
    (String::new(), path)
}

/// A recovered file whose validation says `Uncertain`.
pub open spec fn has_uncertain_status(e: RecoveredEntry) -> bool {
    e.validation matches Some(v) && v.status is Uncertain
}

/// The short reason shown for an uncertain file.
pub open spec fn uncertain_label_of(e: RecoveredEntry) -> Seq<char> {
    match e.validation->Some_0.uncertain_label {
        Some(l) => l@,
        None => "(理由不明)"@,
    }
}

/// The folders of the files suspected damaged, in report order.
pub open spec fn invalid_folders(s: Seq<RecoveredEntry>) -> Seq<Seq<char>>
    decreases s.len(),
{
    if s.len() == 0 {
        Seq::empty()
    } else {
        invalid_folders(s.drop_last())
            + if is_invalid_entry(s.last()) { seq![split_folder(s.last().original_path@).0] } else { Seq::empty() }
    }
}

/// The list lines (`  name`) of the files suspected damaged, in report order.
pub open spec fn invalid_lines(s: Seq<RecoveredEntry>) -> Seq<Seq<char>>
    decreases s.len(),
{
    if s.len() == 0 {
        Seq::empty()
    } else {
        invalid_lines(s.drop_last()) + if is_invalid_entry(s.last()) {
            seq!["  "@ + split_folder(s.last().original_path@).1 + "\n"@]
        } else {
            Seq::empty()
        }
    }
}

/// The folders of the uncertain files, in report order.
pub open spec fn uncertain_folders(s: Seq<RecoveredEntry>) -> Seq<Seq<char>>
    decreases s.len(),
{
    if s.len() == 0 {
        Seq::empty()
    } else {
        uncertain_folders(s.drop_last())
            + if has_uncertain_status(s.last()) { seq![split_folder(s.last().original_path@).0] } else { Seq::empty() }
    }
}

/// The list lines (`  name [reason]`) of the uncertain files, in report order.
pub open spec fn uncertain_lines(s: Seq<RecoveredEntry>) -> Seq<Seq<char>>
    decreases s.len(),
{
    if s.len() == 0 {
        Seq::empty()
    } else {
        uncertain_lines(s.drop_last()) + if has_uncertain_status(s.last()) {
            seq!["  "@ + split_folder(s.last().original_path@).1 + " ["@ + uncertain_label_of(s.last()) + "]\n"@]
        } else {
            Seq::empty()
        }
    }
}

/// Two lists of recovered files that agree in everything the customer's
/// lists use: the path, whether a validation exists, its status and the
/// reason label of an uncertain file.
pub open spec fn same_list_facts(a: Seq<RecoveredEntry>, b: Seq<RecoveredEntry>) -> bool {
    &&& a.len() == b.len()
    &&& forall|i: int| 0 <= i < a.len() ==> {
        &&& (#[trigger] a[i]).original_path@ == b[i].original_path@
        &&& (a[i].validation is Some <==> b[i].validation is Some)
        &&& (a[i].validation is Some ==> a[i].validation->Some_0.status == b[i].validation->Some_0.status)
        &&& (a[i].validation is Some ==> uncertain_label_of(a[i]) == uncertain_label_of(b[i]))
    }
}

/// The customer's lists show of a file only its path and, for an uncertain
/// one, the reason label: files that differ in anything else (messages,
/// staff notes, hashes, sizes, output paths) give the same lists.
pub proof fn lemma_lists_ignore_other_fields(a: Seq<RecoveredEntry>, b: Seq<RecoveredEntry>)
    requires
        same_list_facts(a, b),
    ensures
        invalid_folders(a) == invalid_folders(b),
        invalid_lines(a) == invalid_lines(b),
        uncertain_folders(a) == uncertain_folders(b),
        uncertain_lines(a) == uncertain_lines(b),
    decreases a.len(),
{
    if a.len() > 0 {
        assert(same_list_facts(a.drop_last(), b.drop_last())) by {
            assert forall|i: int| 0 <= i < a.drop_last().len() implies {
                &&& (#[trigger] a.drop_last()[i]).original_path@ == b.drop_last()[i].original_path@
                &&& (a.drop_last()[i].validation is Some <==> b.drop_last()[i].validation is Some)
                &&& (a.drop_last()[i].validation is Some ==> a.drop_last()[i].validation->Some_0.status == b.drop_last()[i].validation->Some_0.status)
                &&& (a.drop_last()[i].validation is Some ==> uncertain_label_of(a.drop_last()[i]) == uncertain_label_of(b.drop_last()[i]))
            } by {
                assert(a.drop_last()[i] == a[i]);
                assert(b.drop_last()[i] == b[i]);
            }
        }
        lemma_lists_ignore_other_fields(a.drop_last(), b.drop_last());
        assert(a.last() == a[a.len() - 1]);
        assert(b.last() == b[b.len() - 1]);
    }
}

/// The characters of each vector.
pub open spec fn char_seqs(v: Seq<Vec<char>>) -> Seq<Seq<char>> {
    v.map_values(|k: Vec<char>| k@)
}

/// The characters of each string.
pub open spec fn string_seqs(v: Seq<String>) -> Seq<Seq<char>> {
    v.map_values(|l: String| l@)
}

/// How a folder is headed: `(ルート)` for the root.
pub open spec fn folder_display(f: Seq<char>) -> Seq<char> {
    if f.len() == 0 || f == seq!['\\'] { "(ルート)"@ } else { f }
}

/// The lines of the given members, in order.
pub open spec fn member_lines(members: Seq<usize>, lines: Seq<Seq<char>>) -> Seq<char>
    decreases members.len(),
{
    if members.len() == 0 {
        Seq::empty()
    } else {
        member_lines(members.drop_last(), lines) + lines[members.last() as int]
    }
}

/// One block per folder: a heading, its files, an empty line.
pub open spec fn folder_blocks(groups: Seq<(Seq<char>, Seq<usize>)>, lines: Seq<Seq<char>>) -> Seq<char>
    decreases groups.len(),
{
    if groups.len() == 0 {
        Seq::empty()
    } else {
        folder_blocks(groups.drop_last(), lines) + "==== "@ + folder_display(groups.last().0) + " ====\n"@
            + member_lines(groups.last().1, lines) + seq!['\n']
    }
}

/// What follows the introduction: a friendly note when nothing is listed,
/// otherwise the folder blocks and the total; the company name last.
pub open spec fn listing_tail(folders: Seq<Seq<char>>, lines: Seq<Seq<char>>, groups: Seq<(Seq<char>, Seq<usize>)>) -> Seq<char> {
    if folders.len() == 0 {
        "(該当ファイルはありません)\n\n"@ + COMPANY_NAME@ + "\n"@
    } else {
        folder_blocks(groups, lines) + "合計: "@ + decimal(folders.len()) + " ファイル\n\n"@
            + "ご不明な点は、担当者までお問い合わせください。\n"@ + COMPANY_NAME@ + "\n"@
    }
}

/// The introduction of the list of files suspected damaged.
pub open spec fn invalid_intro(date: Seq<char>) -> Seq<char> {
    "=== 破損疑いファイル一覧 ===\n\n"@ + "作成日: "@ + date + "\n\n"@
        + "以下のファイルは復旧されましたが、自動品質確認で破損の疑いがありました。\n"@
        + "お開きになる前にお気をつけください。\n\n"@
}

/// The introduction of the list of files outside the automatic validation.
pub open spec fn uncertain_intro(date: Seq<char>) -> Seq<char> {
    "=== 自動確認対象外ファイル一覧 ===\n\n"@ + "作成日: "@ + date + "\n\n"@
        + "以下のファイルは復旧されていますが、自動品質確認の対象外でした。\n"@
        + "原因: 現在未対応もしくはファイル形式が特殊、ファイルサイズが大きすぎる\n"@
        + "      などで確認できませんでした\n\n"@
        + "お手元でお開きになってご確認ください。\n\n"@
}

fn push_folder_display(s: &mut String, key: &Vec<char>)
    ensures
        final(s)@ == old(s)@ + folder_display(key@),
{
    let n = key.len();
    if n == 0 || (n == 1 && key[0] == '\\') {
        proof {
            if n == 1 {
                assert(key@ =~= seq!['\\']);
            }
        }
        push_str(s, "(ルート)");
    } else {
        proof {
            if key@ == seq!['\\'] {
                assert(key@[0] == '\\');
            }
        }
        let t = string_of(key.as_slice(), 0, n);
        proof {
            assert(key@.subrange(0, n as int) =~= key@);
        }
        push_str(s, t.as_str());
    }
}

/// Appends the folder blocks (or the note that nothing is listed), the total
/// and the closing lines for files with the given folders and list lines.
fn push_listing_tail(s: &mut String, folders: &Vec<Vec<char>>, lines: &Vec<String>)
    requires
        folders@.len() == lines@.len(),
    ensures
        exists|groups: Seq<(Seq<char>, Seq<usize>)>|
            #![trigger is_grouping(groups, char_seqs(folders@))]
            is_grouping(groups, char_seqs(folders@))
            && final(s)@ == old(s)@ + listing_tail(
                char_seqs(folders@),
                string_seqs(lines@),
                groups,
            ),
{
    let ghost kv = char_seqs(folders@);
    let ghost lv = string_seqs(lines@);
    let ghost base = s@;
    let nk = folders.len();
    if nk == 0 {
        push_str(s, "(該当ファイルはありません)\n\n");
        push_str(s, COMPANY_NAME);
        push_str(s, "\n");
        proof {
            let e: Seq<(Seq<char>, Seq<usize>)> = Seq::empty();
            assert(is_grouping(e, kv));
            assert(s@ =~= base + listing_tail(kv, lv, e));
        }
        return;
    }
    let groups = group_by_key(folders);
    let ghost gv = groups_view(groups@);
    let gn = groups.len();
    let mut g: usize = 0;
    proof {
        assert(gv.take(0) =~= Seq::<(Seq<char>, Seq<usize>)>::empty());
        assert(s@ =~= base + folder_blocks(gv.take(0), lv));
    }
    while g < gn
        invariant
            gn == groups@.len(),
            gv == groups_view(groups@),
            is_grouping(gv, kv),
            kv == char_seqs(folders@),
            lv == string_seqs(lines@),
            kv.len() == lv.len(),
            g <= gn,
            s@ == base + folder_blocks(gv.take(g as int), lv),
        decreases gn - g,
    {
        let grp: &Group = &groups[g];
        proof {
            assert(gv[g as int] == (grp.key@, grp.members@));
        }
        let ghost before = s@;
        push_str(s, "==== ");
        push_folder_display(s, &grp.key);
        push_str(s, " ====\n");
        let ghost head = s@;
        let mm = grp.members.len();
        let mut x: usize = 0;
        proof {
            assert(grp.members@.take(0) =~= Seq::<usize>::empty());
            assert(s@ =~= head + member_lines(grp.members@.take(0), lv));
        }
        while x < mm
            invariant
                mm == grp.members@.len(),
                gv[g as int] == (grp.key@, grp.members@),
                is_grouping(gv, kv),
                0 <= g < gv.len(),
                lv == string_seqs(lines@),
                kv.len() == lv.len(),
                x <= mm,
                s@ == head + member_lines(grp.members@.take(x as int), lv),
            decreases mm - x,
        {
            let m = grp.members[x];
            proof {
                assert(gv[g as int].1[x as int] == m);
                assert(m < kv.len());
            }
            push_str(s, lines[m].as_str());
            proof {
                assert(grp.members@.take(x as int + 1).drop_last() =~= grp.members@.take(x as int));
                assert(lv[m as int] == lines@[m as int]@);
                assert(s@ =~= head + member_lines(grp.members@.take(x as int + 1), lv));
            }
            x = x + 1;
        }
        push_char(s, '\n');
        proof {
            assert(grp.members@.take(mm as int) =~= grp.members@);
            assert(gv.take(g as int + 1).drop_last() =~= gv.take(g as int));
            assert(gv.take(g as int + 1).last() == gv[g as int]);
            assert(s@ =~= base + folder_blocks(gv.take(g as int + 1), lv));
        }
        g = g + 1;
    }
    push_str(s, "合計: ");
    push_decimal(s, nk as u64);
    push_str(s, " ファイル\n\n");
    push_str(s, "ご不明な点は、担当者までお問い合わせください。\n");
    push_str(s, COMPANY_NAME);
    push_str(s, "\n");
    proof {
        assert(gv.take(gn as int) =~= gv);
        assert(s@ =~= base + listing_tail(kv, lv, gv));
    }
}

fn list_line(name: &str, label: Option<&str>) -> (r: String)
    ensures
        r@ == match label {
            Some(l) => "  "@ + name@ + " ["@ + l@ + "]\n"@,
            None => "  "@ + name@ + "\n"@,
        },
{
    let mut line = String::new();
    push_str(&mut line, "  ");
    push_str(&mut line, name);
    match label {
        Some(l) => {
            push_str(&mut line, " [");
            push_str(&mut line, l);
            push_str(&mut line, "]\n");
        },
        None => {
            push_str(&mut line, "\n");
        },
    }
    proof {
        match label {
            Some(l) => assert(line@ =~= "  "@ + name@ + " ["@ + l@ + "]\n"@),
            None => assert(line@ =~= "  "@ + name@ + "\n"@),
        }
    }
    line
}

/// The folders and list lines of the recovered files whose validation says
/// `Invalid` (`uncertain == false`) or `Uncertain` (`uncertain == true`).
fn collect_listed(recovered: &Vec<RecoveredEntry>, uncertain: bool) -> (r: (Vec<Vec<char>>, Vec<String>))
    ensures
        r.0@.len() == r.1@.len(),
        !uncertain ==> char_seqs(r.0@) == invalid_folders(recovered@) && string_seqs(r.1@) == invalid_lines(recovered@),
        uncertain ==> char_seqs(r.0@) == uncertain_folders(recovered@) && string_seqs(r.1@) == uncertain_lines(recovered@),
{
    let mut folders: Vec<Vec<char>> = Vec::new();
    let mut lines: Vec<String> = Vec::new();
    let n = recovered.len();
    let mut i: usize = 0;
    while i < n
        invariant
            n == recovered@.len(),
            i <= n,
            folders@.len() == lines@.len(),
            !uncertain ==> char_seqs(folders@) == invalid_folders(recovered@.take(i as int))
                && string_seqs(lines@) == invalid_lines(recovered@.take(i as int)),
            uncertain ==> char_seqs(folders@) == uncertain_folders(recovered@.take(i as int))
                && string_seqs(lines@) == uncertain_lines(recovered@.take(i as int)),
        decreases n - i,
    {
        let e = &recovered[i];
        let ghost t = recovered@.take(i as int + 1);
        proof {
            assert(t.drop_last() =~= recovered@.take(i as int));
            assert(t.last() == *e);
        }
        let listed = match &e.validation {
            Some(v) => if uncertain { v.status.is_uncertain() } else { v.status.is_invalid() },
            None => false,
        };
        let ghost old_f = folders@;
        let ghost old_l = lines@;
        if listed {
            let (folder, name) = split_folder_filename(e.original_path.as_str());
            folders.push(chars_of(folder.as_str()));
            let line = if uncertain {
                let label: &str = match &e.validation {
                    Some(v) => match &v.uncertain_label {
                        Some(l) => l.as_str(),
                        None => "(理由不明)",
                    },
                    None => "(理由不明)",
                };
                list_line(name, Some(label))
            } else {
                list_line(name, None)
            };
            lines.push(line);
            proof {
                assert(char_seqs(folders@) =~= char_seqs(old_f).push(folder@));
                assert(string_seqs(lines@) =~= string_seqs(old_l).push(line@));
            }
        }
        proof {
            if !listed {
                assert(char_seqs(folders@) == char_seqs(old_f));
            }
            if uncertain {
                assert(char_seqs(folders@) =~= uncertain_folders(t));
                assert(string_seqs(lines@) =~= uncertain_lines(t));
            } else {
                assert(char_seqs(folders@) =~= invalid_folders(t));
                assert(string_seqs(lines@) =~= invalid_lines(t));
            }
        }
        i = i + 1;
    }
    proof {
        assert(recovered@.take(n as int) =~= recovered@);
    }
    (folders, lines)
}

/// The list of files suspected damaged, dated `date`.
pub fn render_invalid_files_txt_dated(report: &RecoveryReport, date: &str) -> (r: String)
    ensures
        exists|groups: Seq<(Seq<char>, Seq<usize>)>|
            #![trigger is_grouping(groups, invalid_folders(report.recovered@))]
            is_grouping(groups, invalid_folders(report.recovered@))
            && r@ == invalid_intro(date@) + listing_tail(
                invalid_folders(report.recovered@),
                invalid_lines(report.recovered@),
                groups,
            ),
{
    let mut s = String::new();
    push_str(&mut s, "=== 破損疑いファイル一覧 ===\n\n");
    push_str(&mut s, "作成日: ");
    push_str(&mut s, date);
    push_str(&mut s, "\n\n");
    push_str(&mut s, "以下のファイルは復旧されましたが、自動品質確認で破損の疑いがありました。\n");
    push_str(&mut s, "お開きになる前にお気をつけください。\n\n");
    proof {
        assert(s@ =~= invalid_intro(date@));
    }
    let (folders, lines) = collect_listed(&report.recovered, false);
    push_listing_tail(&mut s, &folders, &lines);
    s
}

/// The list of uncertain files with their reasons, dated `date`.
pub fn render_uncertain_files_txt_dated(report: &RecoveryReport, date: &str) -> (r: String)
    ensures
        exists|groups: Seq<(Seq<char>, Seq<usize>)>|
            #![trigger is_grouping(groups, uncertain_folders(report.recovered@))]
            is_grouping(groups, uncertain_folders(report.recovered@))
            && r@ == uncertain_intro(date@) + listing_tail(
                uncertain_folders(report.recovered@),
                uncertain_lines(report.recovered@),
                groups,
            ),
{
    let mut s = String::new();
    push_str(&mut s, "=== 自動確認対象外ファイル一覧 ===\n\n");
    push_str(&mut s, "作成日: ");
    push_str(&mut s, date);
    push_str(&mut s, "\n\n");
    push_str(&mut s, "以下のファイルは復旧されていますが、自動品質確認の対象外でした。\n");
    push_str(&mut s, "原因: 現在未対応もしくはファイル形式が特殊、ファイルサイズが大きすぎる\n");
    push_str(&mut s, "      などで確認できませんでした\n\n");
    push_str(&mut s, "お手元でお開きになってご確認ください。\n\n");
    proof {
        assert(s@ =~= uncertain_intro(date@));
    }
    let (folders, lines) = collect_listed(&report.recovered, true);
    push_listing_tail(&mut s, &folders, &lines);
    s
}

/// `n` with zeros in front up to four digits.
pub open spec fn four_digits(n: nat) -> Seq<char> {
    (if n < 10 { "000"@ } else if n < 100 { "00"@ } else if n < 1000 { "0"@ } else { Seq::empty() }) + decimal(n)
}

/// `n` with a zero in front up to two digits.
pub open spec fn two_digit(n: nat) -> Seq<char> {
    (if n < 10 { "0"@ } else { Seq::empty() }) + decimal(n)
}

/// A year as chrono's `%Y` writes it: four digits for 0..=9999, else a sign
/// and at least four digits.
pub open spec fn year_text(y: int) -> Seq<char> {
    if 0 <= y <= 9999 {
        four_digits(y as nat)
    } else if y < 0 {
        "-"@ + four_digits((-y) as nat)
    } else {
        "+"@ + four_digits(y as nat)
    }
}

/// A date as `YYYY年MM月DD日`.
pub open spec fn date_text(y: int, m: nat, d: nat) -> Seq<char> {
    year_text(y) + "年"@ + two_digit(m) + "月"@ + two_digit(d) + "日"@
}

/// Today's date in the local time zone, as `YYYY年MM月DD日`. A clock outside
/// what chrono can represent is read as the Unix epoch.
fn local_date_text() -> (r: String)
    ensures
        exists|y: int, m: nat, d: nat| 1 <= m <= 12 && 1 <= d <= 31 && #[trigger] date_text(y, m, d) == r@,
{
    let (secs, nanos): (i64, u32) = match clock_since_epoch() {
        Ok((s, n)) => if s <= 0x7fff_ffff_ffff_ffff { (s as i64, n) } else { (0, 0) },
        Err((s, n)) => if s >= 0x7fff_ffff_ffff_fffe { (0, 0) } else if n == 0 { (-(s as i64), 0) } else {
            (-(s as i64) - 1, 1_000_000_000 - n)
        },
    };
    let (y, m, d): (i32, u32, u32) = if chrono_accepts_exec(secs, nanos) { local_ymd(secs, nanos) } else { (1970, 1, 1) };
    proof {
        reveal_strlit("000");
        reveal_strlit("00");
        reveal_strlit("0");
        reveal_strlit("-");
        reveal_strlit("+");
    }
    let mut t = String::new();
    if 0 <= y && y <= 9999 {
        push_four(&mut t, y as u64);
    } else if y < 0 {
        push_str(&mut t, "-");
        push_four(&mut t, (-(y as i64)) as u64);
    } else {
        push_str(&mut t, "+");
        push_four(&mut t, y as u64);
    }
    push_str(&mut t, "年");
    push_two(&mut t, m as u64);
    push_str(&mut t, "月");
    push_two(&mut t, d as u64);
    push_str(&mut t, "日");
    proof {
        assert(t@ =~= date_text(y as int, m as nat, d as nat));
    }
    t
}

fn push_four(s: &mut String, n: u64)
    ensures
        final(s)@ == old(s)@ + four_digits(n as nat),
{
    proof {
        reveal_strlit("000");
        reveal_strlit("00");
        reveal_strlit("0");
    }
    if n < 10 {
        push_str(s, "000");
    } else if n < 100 {
        push_str(s, "00");
    } else if n < 1000 {
        push_str(s, "0");
    }
    push_decimal(s, n);
    proof {
        assert(final(s)@ =~= old(s)@ + four_digits(n as nat));
    }
}

fn push_two(s: &mut String, n: u64)
    ensures
        final(s)@ == old(s)@ + two_digit(n as nat),
{
    proof {
        reveal_strlit("0");
    }
    if n < 10 {
        push_str(s, "0");
    }
    push_decimal(s, n);
    proof {
        assert(final(s)@ =~= old(s)@ + two_digit(n as nat));
    }
}

/// The list of files suspected damaged, dated today (local time).
pub fn render_invalid_files_txt(report: &RecoveryReport) -> (r: String)
    ensures
        exists|date: Seq<char>, groups: Seq<(Seq<char>, Seq<usize>)>|
            #![trigger is_grouping(groups, invalid_folders(report.recovered@)), invalid_intro(date)]
            (exists|y: int, m: nat, d: nat| 1 <= m <= 12 && 1 <= d <= 31 && #[trigger] date_text(y, m, d) == date)
            && is_grouping(groups, invalid_folders(report.recovered@))
            && r@ == invalid_intro(date) + listing_tail(
                invalid_folders(report.recovered@),
                invalid_lines(report.recovered@),
                groups,
            ),
{
    let date = local_date_text();
    render_invalid_files_txt_dated(report, date.as_str())
}

/// The list of uncertain files with their reasons, dated today (local time).
pub fn render_uncertain_files_txt(report: &RecoveryReport) -> (r: String)
    ensures
        exists|date: Seq<char>, groups: Seq<(Seq<char>, Seq<usize>)>|
            #![trigger is_grouping(groups, uncertain_folders(report.recovered@)), uncertain_intro(date)]
            (exists|y: int, m: nat, d: nat| 1 <= m <= 12 && 1 <= d <= 31 && #[trigger] date_text(y, m, d) == date)
            && is_grouping(groups, uncertain_folders(report.recovered@))
            && r@ == uncertain_intro(date) + listing_tail(
                uncertain_folders(report.recovered@),
                uncertain_lines(report.recovered@),
                groups,
            ),
{
    let date = local_date_text();
    render_uncertain_files_txt_dated(report, date.as_str())
}

} // verus!
