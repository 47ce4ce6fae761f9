//! The staff HTML report: figures of the run, the quality breakdown, formats,
//! invalid files grouped by reason with the staff notes, every recovered file
//! with its output path and SHA-256, failures and skips.
//! It starts with a warning not to share it with customers. Every text taken
//! from the report is HTML-escaped.
//!
//! The percentages are formatted by the caller (they are floating-point
//! values) and handed in as text.

use vstd::prelude::*;
use crate::grouping::is_grouping;
use crate::recovery::report::{
    breakdown_keys, breakdown_view, bytes_sum, count_kind, invalid_positions, lemma_priority_bytes_within, millis_between,
    reason_keys, stats_per_group,
    FailedEntry, FormatStats, RecoveredEntry, RecoveryReport, SkippedEntry,
};
use crate::recovery::engine::{path_bytes, path_display_of, path_display_text};
use crate::report::escape::{escape_html, escaped};
use crate::report::format::{bytes_text, duration_text, format_bytes, format_duration_ms};
use crate::report::txt_customer::string_seqs;
use crate::text::{push_decimal, push_str, decimal};

verus! {

/// How many files of one invalid group are listed before the rest is
/// summed up with a pointer to the CSV.
pub const MAX_INVALID_PER_GROUP: usize = 20;

/// The percentages shown in the staff report, already formatted (`{:.1}`).
pub struct RateTexts {
    /// Recovered files per file tried.
    pub recovery: String,
    /// Valid, invalid and uncertain files per recovered file.
    pub valid: String,
    pub invalid: String,
    pub uncertain: String,
    /// Valid files per recovered file (the quality assurance rate).
    pub quality: String,
    /// Valid files per priority file.
    pub priority_quality: String,
    /// The valid share of each format, in the order of the format breakdown.
    pub format_valid: Vec<String>,
}

pub open spec fn html_head(date_minute: Seq<char>, date_second: Seq<char>) -> Seq<char> {
    "<!DOCTYPE html>\n<html lang=\"ja\">\n<head>\n  <meta charset=\"UTF-8\">\n  <title>復旧業務レポート (CS 内部用) - "@
        + date_minute
        + "</title>\n  <style>\n    body { font-family: \"Yu Gothic\", \"Hiragino Sans\", sans-serif; max-width: 1400px; margin: 1em auto; padding: 1em; font-size: 13px; }\n    h1 { border-bottom: 3px solid #1e40af; padding-bottom: 0.3em; color: #1e3a8a; }\n    h2 { color: #1e40af; margin-top: 1.5em; }\n    .summary { background: #eff6ff; padding: 1em 1.5em; border-radius: 4px; border-left: 4px solid #1e40af; }\n    .warning { background: #fef2f2; padding: 0.5em 1em; border-left: 4px solid #dc2626; margin: 1em 0; font-weight: bold; color: #991b1b; }\n    table { width: 100%; border-collapse: collapse; margin-top: 0.5em; font-size: 12px; }\n    th, td { padding: 0.4em 0.6em; text-align: left; border-bottom: 1px solid #ddd; vertical-align: top; }\n    th { background: #1e40af; color: white; }\n    .metric { font-size: 1.5em; font-weight: bold; color: #1e3a8a; }\n    .ratio { color: #6b7280; font-size: 0.85em; }\n    .invalid-group { margin: 1em 0; padding: 0.8em; background: #fef2f2; border-left: 4px solid #dc2626; border-radius: 4px; }\n    .invalid-group h3 { margin: 0 0 0.5em 0; color: #991b1b; font-size: 14px; }\n    .invalid-group ul { margin: 0; padding-left: 1.5em; font-family: monospace; font-size: 11px; }\n    .note { color: #6b7280; font-size: 11px; font-style: italic; }\n    footer { margin-top: 2em; color: #666; font-size: 0.8em; }\n  </style>\n</head>\n<body>\n  <h1>復旧業務レポート（CS 内部用）</h1>\n  <p>作成日時: "@
        + date_second
        + "</p>\n\n  <div class=\"warning\">\n    [注意] このレポートは社内業務用です。CS 内部メモを含むため、お客様に共有しないでください。\n  </div>\n"@
}

/// The customer's wishes as `「label」` cells joined by `<br>`.
pub open spec fn wish_cells(labels: Seq<Seq<char>>) -> Seq<char>
    decreases labels.len(),
{
    if labels.len() == 0 {
        Seq::empty()
    } else {
        wish_cells(labels.drop_last()) + (if labels.len() > 1 { "<br>"@ } else { Seq::empty() })
            + "「"@ + escaped(labels.last()) + "」"@
    }
}

/// What was to be recovered: the wishes (when any) and the number of files.
pub open spec fn target_section(wishes: Seq<Seq<char>>, total_matched: nat) -> Seq<char> {
    "  <section class=\"summary\">\n"@ + "    <h2>復旧対象</h2>\n    <table>\n"@
        + (if wishes.len() > 0 { "      <tr><th>ご指定条件</th><td>"@ + wish_cells(wishes) + "</td></tr>\n"@ } else { Seq::empty() })
        + "      <tr><th>該当ファイル数</th><td><span class=\"metric\">"@ + decimal(total_matched)
        + "</span> 件</td></tr>\n    </table>\n"@
}

/// Recovered, failed and skipped counts, with the recovery rate.
pub open spec fn results_section(recovered: nat, rate: Seq<char>, failed: nat, skipped: nat) -> Seq<char> {
    "    <h2>復旧結果 (全体)</h2>\n    <table>\n<tr><th>復旧成功</th><td><span class=\"metric\">"@ + decimal(recovered)
        + "</span> 件 <span class=\"ratio\">(該当の "@ + rate + "%)</span></td></tr>\n<tr><th>復旧失敗</th><td>"@
        + decimal(failed) + " 件</td></tr>\n<tr><th>スキップ</th><td>"@ + decimal(skipped) + " 件</td></tr>\n</table>\n"@
}

/// Valid, invalid and uncertain counts with their shares, and the quality
/// assurance rate.
pub open spec fn quality_section(
    v: nat, vr: Seq<char>, i: nat, ir: Seq<char>, u: nat, ur: Seq<char>, qa: Seq<char>,
) -> Seq<char> {
    "    <h2>品質判定内訳</h2>\n    <table>\n<tr><th>判定</th><th>件数</th><th>比率</th></tr>\n<tr><td>Valid (品質確認済み)</td><td>"@
        + decimal(v) + "</td><td>"@ + vr + "%</td></tr>\n<tr><td>Invalid (要確認)</td><td>"@
        + decimal(i) + "</td><td>"@ + ir + "%</td></tr>\n<tr><td>Uncertain (検証外)</td><td>"@
        + decimal(u) + "</td><td>"@ + ur + "%</td></tr>\n</table>\n<p><strong>品質保証率: <span class=\"metric\">"@
        + qa + "%</span></strong> (復旧成功のうち Valid の比率)</p>\n"@
}

/// The bytes written and the time taken.
pub open spec fn volume_section(bytes: Seq<char>, duration: Seq<char>) -> Seq<char> {
    "    <h2>データ量と時間</h2>\n    <table>\n<tr><th>復旧総量</th><td>"@ + escaped(bytes)
        + "</td></tr>\n<tr><th>処理時間</th><td>"@ + escaped(duration) + "</td></tr>\n</table>\n  </section>\n"@
}

/// The files that matched a wish: their number, size, quality rate and counts.
pub open spec fn priority_section(pc: nat, bytes: Seq<char>, qa: Seq<char>, v: nat, i: nat, u: nat) -> Seq<char> {
    "  <h2>お客様優先データ (Wishlist マッチ)</h2>\n  <table>\n<tr><th>該当ファイル数</th><td><span class=\"metric\">"@
        + decimal(pc) + "</span> 件</td></tr>\n<tr><th>復旧データ量</th><td>"@ + escaped(bytes)
        + "</td></tr>\n<tr><th>品質保証率</th><td><span class=\"metric\">"@ + qa
        + "%</span></td></tr>\n</table>\n  <table>\n<tr><th>判定</th><th>件数</th></tr>\n<tr><td>Valid (正常)</td><td>"@
        + decimal(v) + "</td></tr>\n<tr><td>Invalid (要確認)</td><td>"@ + decimal(i)
        + "</td></tr>\n<tr><td>Uncertain (検証外)</td><td>"@ + decimal(u) + "</td></tr>\n</table>\n"@
}

/// The share text of the `i`-th format, empty when none was given.
pub open spec fn ratio_at(ratios: Seq<Seq<char>>, i: int) -> Seq<char> {
    if 0 <= i < ratios.len() { ratios[i] } else { Seq::empty() }
}

/// One row of the format breakdown.
pub open spec fn breakdown_row(format: Seq<char>, st: FormatStats, ratio: Seq<char>) -> Seq<char> {
    "    <tr><td>"@ + escaped(format) + "</td><td>"@ + decimal(st.valid as nat) + "</td><td>"@
        + decimal(st.invalid as nat) + "</td><td>"@ + decimal(st.uncertain as nat) + "</td><td>"@
        + decimal(st.total as nat) + "</td><td>"@ + ratio + "%</td></tr>\n"@
}

/// The rows of the format breakdown, in order.
pub open spec fn breakdown_rows(bd: Seq<(Seq<char>, FormatStats)>, ratios: Seq<Seq<char>>) -> Seq<char>
    decreases bd.len(),
{
    if bd.len() == 0 {
        Seq::empty()
    } else {
        breakdown_rows(bd.drop_last(), ratios) + breakdown_row(bd.last().0, bd.last().1, ratio_at(ratios, bd.len() - 1))
    }
}

/// The format breakdown table, when there is any format.
pub open spec fn breakdown_section(bd: Seq<(Seq<char>, FormatStats)>, ratios: Seq<Seq<char>>) -> Seq<char> {
    if bd.len() == 0 {
        Seq::empty()
    } else {
        "  <h2>形式別ブレイクダウン</h2>\n  <table>\n<tr><th>形式</th><th>正常</th><th>要確認</th><th>検証外</th><th>合計</th><th>正常率</th></tr>\n"@
            + breakdown_rows(bd, ratios) + "  </table>\n"@
    }
}

/// The staff note of a file, `-` without one.
pub open spec fn note_text(e: RecoveredEntry) -> Seq<char> {
    match e.validation {
        Some(v) => match v.internal_note_ja {
            Some(n) => n@,
            None => "-"@,
        },
        None => "-"@,
    }
}

/// One listed invalid file with its staff note.
pub open spec fn entry_item(e: RecoveredEntry) -> Seq<char> {
    "      <li>"@ + escaped(e.original_path@) + " <span class=\"note\">[CS メモ: "@ + escaped(note_text(e))
        + "]</span></li>\n"@
}

/// The listed invalid files, in order.
pub open spec fn entry_items(es: Seq<RecoveredEntry>) -> Seq<char>
    decreases es.len(),
{
    if es.len() == 0 {
        Seq::empty()
    } else {
        entry_items(es.drop_last()) + entry_item(es.last())
    }
}

/// One reason group: its heading with the count, the first 20 files, and a
/// line for the rest.
pub open spec fn group_block(reason: Seq<char>, es: Seq<RecoveredEntry>) -> Seq<char> {
    "  <div class=\"invalid-group\">\n    <h3>"@ + escaped(reason) + " ("@ + decimal(es.len()) + " 件)</h3>\n    <ul>\n"@
        + entry_items(if es.len() > 20 { es.take(20) } else { es })
        + (if es.len() > 20 {
            "      <li class=\"note\">... 他 "@ + decimal((es.len() - 20) as nat) + " 件 (詳細は CSV を参照)</li>\n"@
        } else {
            Seq::empty()
        })
        + "    </ul>\n  </div>\n"@
}

/// The recovered files that a group's members stand for.
pub open spec fn group_entries(rec: Seq<RecoveredEntry>, members: Seq<usize>) -> Seq<RecoveredEntry> {
    members.map_values(|m: usize| rec[invalid_positions(rec)[m as int] as int])
}

/// The reason groups, in order.
pub open spec fn group_blocks(rec: Seq<RecoveredEntry>, groups: Seq<(Seq<char>, Seq<usize>)>) -> Seq<char>
    decreases groups.len(),
{
    if groups.len() == 0 {
        Seq::empty()
    } else {
        group_blocks(rec, groups.drop_last()) + group_block(groups.last().0, group_entries(rec, groups.last().1))
    }
}

/// The invalid files by reason, when there is any.
pub open spec fn invalid_section(rec: Seq<RecoveredEntry>, groups: Seq<(Seq<char>, Seq<usize>)>) -> Seq<char> {
    if groups.len() == 0 {
        Seq::empty()
    } else {
        "  <h2>要確認ファイル (理由別)</h2>\n"@ + group_blocks(rec, groups)
    }
}

/// A table row of three escaped cells.
pub open spec fn row3(a: Seq<char>, b: Seq<char>, c: Seq<char>) -> Seq<char> {
    "        <tr><td>"@ + escaped(a) + "</td><td>"@ + escaped(b) + "</td><td>"@ + escaped(c) + "</td></tr>\n"@
}

pub open spec fn failed_rows(f: Seq<FailedEntry>) -> Seq<char>
    decreases f.len(),
{
    if f.len() == 0 {
        Seq::empty()
    } else {
        failed_rows(f.drop_last()) + row3(f.last().source_id@, f.last().original_path@, f.last().error_message@)
    }
}

pub open spec fn skipped_rows(k: Seq<SkippedEntry>) -> Seq<char>
    decreases k.len(),
{
    if k.len() == 0 {
        Seq::empty()
    } else {
        skipped_rows(k.drop_last()) + row3(k.last().source_id@, k.last().original_path@, k.last().reason@)
    }
}


/// The SHA-256 shown for a file: its hash, `-` when none was computed.
pub open spec fn sha_text(h: Option<String>) -> Seq<char> {
    match h {
        Some(t) => t@,
        None => "-"@,
    }
}

/// One row per recovered file: its source, output path and SHA-256.
pub open spec fn recovered_rows(rec: Seq<RecoveredEntry>) -> Seq<char>
    decreases rec.len(),
{
    if rec.len() == 0 {
        Seq::empty()
    } else {
        let e = rec.last();
        recovered_rows(rec.drop_last())
            + row3(e.source_id@, path_display_of(path_bytes(e.output_path)), sha_text(e.sha256))
    }
}

/// Every recovered file with where it was written and its SHA-256, when any.
pub open spec fn recovered_section(rec: Seq<RecoveredEntry>) -> Seq<char> {
    if rec.len() == 0 {
        Seq::empty()
    } else {
        "  <section>\n    <h2>復旧ファイル (出力先・SHA256)</h2>\n    <table>\n<thead><tr><th>source_id</th><th>出力先</th><th>SHA256</th></tr></thead>\n      <tbody>\n"@
            + recovered_rows(rec) + "      </tbody>\n    </table>\n  </section>\n"@
    }
}

/// The failed files, when any.
pub open spec fn failed_section(f: Seq<FailedEntry>) -> Seq<char> {
    if f.len() == 0 {
        Seq::empty()
    } else {
        "  <section>\n    <h2>失敗ファイル</h2>\n    <table>\n<thead><tr><th>source_id</th><th>パス</th><th>エラー</th></tr></thead>\n      <tbody>\n"@
            + failed_rows(f) + "      </tbody>\n    </table>\n  </section>\n"@
    }
}

/// The skipped files, when any.
pub open spec fn skipped_section(k: Seq<SkippedEntry>) -> Seq<char> {
    if k.len() == 0 {
        Seq::empty()
    } else {
        "  <section>\n    <h2>スキップファイル</h2>\n    <table>\n<thead><tr><th>source_id</th><th>パス</th><th>理由</th></tr></thead>\n      <tbody>\n"@
            + skipped_rows(k) + "      </tbody>\n    </table>\n  </section>\n"@
    }
}

pub open spec fn html_footer() -> Seq<char> {
    "  <footer>\n    <p>DDS Recovery Workbench - 内部業務レポート</p>\n  </footer>\n</body>\n</html>\n"@
}

/// The whole staff report for `r`, dated `date_minute` / `date_second`, with
/// the given percentages, format breakdown `bd` and invalid groups `groups`.
pub open spec fn internal_html(
    r: RecoveryReport,
    date_minute: Seq<char>,
    date_second: Seq<char>,
    rates: RateTexts,
    bd: Seq<(Seq<char>, FormatStats)>,
    groups: Seq<(Seq<char>, Seq<usize>)>,
) -> Seq<char> {
    let rec = r.recovered@;
    html_head(date_minute, date_second)
        + target_section(string_seqs(r.wish_labels@), r.total_matched as nat)
        + results_section(rec.len(), rates.recovery@, r.failed@.len(), r.skipped@.len())
        + quality_section(
            count_kind(rec, 0, false), rates.valid@, count_kind(rec, 1, false), rates.invalid@,
            count_kind(rec, 2, false), rates.uncertain@, rates.quality@,
        )
        + volume_section(
            bytes_text(bytes_sum(rec, false)),
            duration_text(millis_between(r.started_at.secs(), r.started_at.nanos(), r.finished_at.secs(), r.finished_at.nanos()) as int),
        )
        + (if count_kind(rec, 3, true) > 0 {
            priority_section(
                count_kind(rec, 3, true), bytes_text(bytes_sum(rec, true)), rates.priority_quality@,
                count_kind(rec, 0, true), count_kind(rec, 1, true), count_kind(rec, 2, true),
            )
        } else {
            Seq::empty()
        })
        + breakdown_section(bd, string_seqs(rates.format_valid@))
        + invalid_section(rec, groups)
        + recovered_section(rec)
        + failed_section(r.failed@)
        + skipped_section(r.skipped@)
        + html_footer()
}

fn push_escaped(s: &mut String, t: &str)
    ensures
        final(s)@ == old(s)@ + escaped(t@),
{
    let e = escape_html(t);
    push_str(s, e.as_str());
}

fn push_wish_row(s: &mut String, labels: &Vec<String>)
    ensures
        final(s)@ == old(s)@ + (if labels@.len() > 0 {
            "      <tr><th>ご指定条件</th><td>"@ + wish_cells(string_seqs(labels@)) + "</td></tr>\n"@
        } else {
            Seq::empty()
        }),
{
    let n = labels.len();
    if n == 0 {
        proof {
            assert(old(s)@ + Seq::<char>::empty() =~= old(s)@);
        }
        return;
    }
    let ghost base = s@;
    push_str(s, "      <tr><th>ご指定条件</th><td>");
    let ghost head = s@;
    let mut i: usize = 0;
    proof {
        assert(string_seqs(labels@.take(0)) =~= Seq::<Seq<char>>::empty());
        assert(s@ =~= head + wish_cells(string_seqs(labels@.take(0))));
    }
    while i < n
        invariant
            n == labels@.len(),
            i <= n,
            s@ == head + wish_cells(string_seqs(labels@.take(i as int))),
        decreases n - i,
    {
        if i > 0 {
            push_str(s, "<br>");
        }
        push_str(s, "「");
        push_escaped(s, labels[i].as_str());
        push_str(s, "」");
        proof {
            let t = string_seqs(labels@.take(i as int + 1));
            assert(t.drop_last() =~= string_seqs(labels@.take(i as int)));
            assert(t.last() == labels@[i as int]@);
            assert(s@ =~= head + wish_cells(t));
        }
        i = i + 1;
    }
    push_str(s, "</td></tr>\n");
    proof {
        assert(labels@.take(n as int) =~= labels@);
        assert(s@ =~= base + ("      <tr><th>ご指定条件</th><td>"@ + wish_cells(string_seqs(labels@)) + "</td></tr>\n"@));
    }
}

fn push_breakdown_row(s: &mut String, row: &(String, FormatStats), ratio: &str)
    ensures
        final(s)@ == old(s)@ + breakdown_row(row.0@, row.1, ratio@),
{
    push_str(s, "    <tr><td>");
    push_escaped(s, row.0.as_str());
    push_str(s, "</td><td>");
    push_decimal(s, row.1.valid as u64);
    push_str(s, "</td><td>");
    push_decimal(s, row.1.invalid as u64);
    push_str(s, "</td><td>");
    push_decimal(s, row.1.uncertain as u64);
    push_str(s, "</td><td>");
    push_decimal(s, row.1.total as u64);
    push_str(s, "</td><td>");
    push_str(s, ratio);
    push_str(s, "%</td></tr>\n");
    proof {
        assert(final(s)@ =~= old(s)@ + breakdown_row(row.0@, row.1, ratio@));
    }
}

fn push_breakdown(s: &mut String, bd: &Vec<(String, FormatStats)>, ratios: &Vec<String>)
    ensures
        final(s)@ == old(s)@ + breakdown_section(breakdown_view(bd@), string_seqs(ratios@)),
{
    let ghost bv = breakdown_view(bd@);
    let ghost rv = string_seqs(ratios@);
    let n = bd.len();
    if n == 0 {
        proof {
            assert(old(s)@ + Seq::<char>::empty() =~= old(s)@);
        }
        return;
    }
    let ghost base = s@;
    push_str(s, "  <h2>形式別ブレイクダウン</h2>\n  <table>\n<tr><th>形式</th><th>正常</th><th>要確認</th><th>検証外</th><th>合計</th><th>正常率</th></tr>\n");
    let ghost head = s@;
    let mut i: usize = 0;
    proof {
        assert(bv.take(0) =~= Seq::<(Seq<char>, FormatStats)>::empty());
        assert(s@ =~= head + breakdown_rows(bv.take(0), rv));
    }
    while i < n
        invariant
            n == bd@.len(),
            bv == breakdown_view(bd@),
            bv.len() == n,
            rv == string_seqs(ratios@),
            i <= n,
            s@ == head + breakdown_rows(bv.take(i as int), rv),
        decreases n - i,
    {
        let ratio: &str = if i < ratios.len() { ratios[i].as_str() } else { "" };
        proof {
            reveal_strlit("");
            if (i as int) < rv.len() {
                assert(rv[i as int] == ratios@[i as int]@);
            }
            assert(ratio@ == ratio_at(rv, i as int));
            assert(bv[i as int] == (bd@[i as int].0@, bd@[i as int].1));
        }
        push_breakdown_row(s, &bd[i], ratio);
        proof {
            let t = bv.take(i as int + 1);
            assert(t.drop_last() =~= bv.take(i as int));
            assert(t.last() == bv[i as int]);
            assert(s@ =~= head + breakdown_rows(t, rv));
        }
        i = i + 1;
    }
    push_str(s, "  </table>\n");
    proof {
        assert(bv.take(n as int) =~= bv);
        assert(s@ =~= base + breakdown_section(bv, rv));
    }
}

fn push_entry_item(s: &mut String, e: &RecoveredEntry)
    ensures
        final(s)@ == old(s)@ + entry_item(*e),
{
    push_str(s, "      <li>");
    push_escaped(s, e.original_path.as_str());
    push_str(s, " <span class=\"note\">[CS メモ: ");
    let note: &str = match &e.validation {
        Some(v) => match &v.internal_note_ja {
            Some(n) => n.as_str(),
            None => "-",
        },
        None => "-",
    };
    push_escaped(s, note);
    push_str(s, "]</span></li>\n");
    proof {
        assert(final(s)@ =~= old(s)@ + entry_item(*e));
    }
}

fn push_group_block(s: &mut String, reason: &String, es: &Vec<&RecoveredEntry>)
    ensures
        final(s)@ == old(s)@ + group_block(reason@, es@.map_values(|e: &RecoveredEntry| *e)),
{
    let ghost ev = es@.map_values(|e: &RecoveredEntry| *e);
    let ghost base = s@;
    let n = es.len();
    push_str(s, "  <div class=\"invalid-group\">\n    <h3>");
    push_escaped(s, reason.as_str());
    push_str(s, " (");
    push_decimal(s, n as u64);
    push_str(s, " 件)</h3>\n    <ul>\n");
    let ghost head = s@;
    let shown = if n > MAX_INVALID_PER_GROUP { MAX_INVALID_PER_GROUP } else { n };
    let mut x: usize = 0;
    proof {
        assert(ev.take(0) =~= Seq::<RecoveredEntry>::empty());
        assert(s@ =~= head + entry_items(ev.take(0)));
    }
    while x < shown
        invariant
            n == es@.len(),
            ev == es@.map_values(|e: &RecoveredEntry| *e),
            shown <= n,
            x <= shown,
            s@ == head + entry_items(ev.take(x as int)),
        decreases shown - x,
    {
        push_entry_item(s, es[x]);
        proof {
            let t = ev.take(x as int + 1);
            assert(t.drop_last() =~= ev.take(x as int));
            assert(t.last() == *es@[x as int]);
            assert(s@ =~= head + entry_items(t));
        }
        x = x + 1;
    }
    let ghost listed = s@;
    if n > MAX_INVALID_PER_GROUP {
        push_str(s, "      <li class=\"note\">... 他 ");
        push_decimal(s, (n - MAX_INVALID_PER_GROUP) as u64);
        push_str(s, " 件 (詳細は CSV を参照)</li>\n");
    }
    push_str(s, "    </ul>\n  </div>\n");
    proof {
        if n > 20 {
            assert(ev.take(shown as int) == ev.take(20));
        } else {
            assert(ev.take(shown as int) =~= ev);
        }
        assert(s@ =~= base + group_block(reason@, ev));
    }
}

fn push_row3(s: &mut String, a: &str, b: &str, c: &str)
    ensures
        final(s)@ == old(s)@ + row3(a@, b@, c@),
{
    push_str(s, "        <tr><td>");
    push_escaped(s, a);
    push_str(s, "</td><td>");
    push_escaped(s, b);
    push_str(s, "</td><td>");
    push_escaped(s, c);
    push_str(s, "</td></tr>\n");
    proof {
        assert(final(s)@ =~= old(s)@ + row3(a@, b@, c@));
    }
}

fn push_recovered(s: &mut String, rec: &Vec<RecoveredEntry>)
    ensures
        final(s)@ == old(s)@ + recovered_section(rec@),
{
    let n = rec.len();
    if n == 0 {
        proof {
            assert(old(s)@ + Seq::<char>::empty() =~= old(s)@);
        }
        return;
    }
    let ghost base = s@;
    push_str(s, "  <section>\n    <h2>復旧ファイル (出力先・SHA256)</h2>\n    <table>\n<thead><tr><th>source_id</th><th>出力先</th><th>SHA256</th></tr></thead>\n      <tbody>\n");
    let ghost head = s@;
    let mut i: usize = 0;
    proof {
        assert(rec@.take(0) =~= Seq::<RecoveredEntry>::empty());
        assert(s@ =~= head + recovered_rows(rec@.take(0)));
    }
    while i < n
        invariant
            n == rec@.len(),
            i <= n,
            s@ == head + recovered_rows(rec@.take(i as int)),
        decreases n - i,
    {
        let e = &rec[i];
        let out = path_display_text(&e.output_path);
        proof {
            reveal_strlit("-");
        }
        match &e.sha256 {
            Some(h) => push_row3(s, e.source_id.as_str(), out.as_str(), h.as_str()),
            None => push_row3(s, e.source_id.as_str(), out.as_str(), "-"),
        }
        proof {
            let t = rec@.take(i as int + 1);
            assert(t.drop_last() =~= rec@.take(i as int));
            assert(t.last() == rec@[i as int]);
            assert(s@ =~= head + recovered_rows(t));
        }
        i = i + 1;
    }
    push_str(s, "      </tbody>\n    </table>\n  </section>\n");
    proof {
        assert(rec@.take(n as int) =~= rec@);
        assert(s@ =~= base + recovered_section(rec@));
    }
}

fn push_failed(s: &mut String, f: &Vec<FailedEntry>)
    ensures
        final(s)@ == old(s)@ + failed_section(f@),
{
    let n = f.len();
    if n == 0 {
        proof {
            assert(old(s)@ + Seq::<char>::empty() =~= old(s)@);
        }
        return;
    }
    let ghost base = s@;
    push_str(s, "  <section>\n    <h2>失敗ファイル</h2>\n    <table>\n<thead><tr><th>source_id</th><th>パス</th><th>エラー</th></tr></thead>\n      <tbody>\n");
    let ghost head = s@;
    let mut i: usize = 0;
    proof {
        assert(f@.take(0) =~= Seq::<FailedEntry>::empty());
        assert(s@ =~= head + failed_rows(f@.take(0)));
    }
    while i < n
        invariant
            n == f@.len(),
            i <= n,
            s@ == head + failed_rows(f@.take(i as int)),
        decreases n - i,
    {
        let e = &f[i];
        push_row3(s, e.source_id.as_str(), e.original_path.as_str(), e.error_message.as_str());
        proof {
            let t = f@.take(i as int + 1);
            assert(t.drop_last() =~= f@.take(i as int));
            assert(s@ =~= head + failed_rows(t));
        }
        i = i + 1;
    }
    push_str(s, "      </tbody>\n    </table>\n  </section>\n");
    proof {
        assert(f@.take(n as int) =~= f@);
        assert(s@ =~= base + failed_section(f@));
    }
}

fn push_skipped(s: &mut String, k: &Vec<SkippedEntry>)
    ensures
        final(s)@ == old(s)@ + skipped_section(k@),
{
    let n = k.len();
    if n == 0 {
        proof {
            assert(old(s)@ + Seq::<char>::empty() =~= old(s)@);
        }
        return;
    }
    let ghost base = s@;
    push_str(s, "  <section>\n    <h2>スキップファイル</h2>\n    <table>\n<thead><tr><th>source_id</th><th>パス</th><th>理由</th></tr></thead>\n      <tbody>\n");
    let ghost head = s@;
    let mut i: usize = 0;
    proof {
        assert(k@.take(0) =~= Seq::<SkippedEntry>::empty());
        assert(s@ =~= head + skipped_rows(k@.take(0)));
    }
    while i < n
        invariant
            n == k@.len(),
            i <= n,
            s@ == head + skipped_rows(k@.take(i as int)),
        decreases n - i,
    {
        let e = &k[i];
        push_row3(s, e.source_id.as_str(), e.original_path.as_str(), e.reason.as_str());
        proof {
            let t = k@.take(i as int + 1);
            assert(t.drop_last() =~= k@.take(i as int));
            assert(s@ =~= head + skipped_rows(t));
        }
        i = i + 1;
    }
    push_str(s, "      </tbody>\n    </table>\n  </section>\n");
    proof {
        assert(k@.take(n as int) =~= k@);
        assert(s@ =~= base + skipped_section(k@));
    }
}

fn push_head(s: &mut String, date_minute: &str, date_second: &str)
    ensures
        final(s)@ == old(s)@ + html_head(date_minute@, date_second@),
{
    push_str(s, "<!DOCTYPE html>\n<html lang=\"ja\">\n<head>\n  <meta charset=\"UTF-8\">\n  <title>復旧業務レポート (CS 内部用) - ");
    push_str(s, date_minute);
    push_str(s, "</title>\n  <style>\n    body { font-family: \"Yu Gothic\", \"Hiragino Sans\", sans-serif; max-width: 1400px; margin: 1em auto; padding: 1em; font-size: 13px; }\n    h1 { border-bottom: 3px solid #1e40af; padding-bottom: 0.3em; color: #1e3a8a; }\n    h2 { color: #1e40af; margin-top: 1.5em; }\n    .summary { background: #eff6ff; padding: 1em 1.5em; border-radius: 4px; border-left: 4px solid #1e40af; }\n    .warning { background: #fef2f2; padding: 0.5em 1em; border-left: 4px solid #dc2626; margin: 1em 0; font-weight: bold; color: #991b1b; }\n    table { width: 100%; border-collapse: collapse; margin-top: 0.5em; font-size: 12px; }\n    th, td { padding: 0.4em 0.6em; text-align: left; border-bottom: 1px solid #ddd; vertical-align: top; }\n    th { background: #1e40af; color: white; }\n    .metric { font-size: 1.5em; font-weight: bold; color: #1e3a8a; }\n    .ratio { color: #6b7280; font-size: 0.85em; }\n    .invalid-group { margin: 1em 0; padding: 0.8em; background: #fef2f2; border-left: 4px solid #dc2626; border-radius: 4px; }\n    .invalid-group h3 { margin: 0 0 0.5em 0; color: #991b1b; font-size: 14px; }\n    .invalid-group ul { margin: 0; padding-left: 1.5em; font-family: monospace; font-size: 11px; }\n    .note { color: #6b7280; font-size: 11px; font-style: italic; }\n    footer { margin-top: 2em; color: #666; font-size: 0.8em; }\n  </style>\n</head>\n<body>\n  <h1>復旧業務レポート（CS 内部用）</h1>\n  <p>作成日時: ");
    push_str(s, date_second);
    push_str(s, "</p>\n\n  <div class=\"warning\">\n    [注意] このレポートは社内業務用です。CS 内部メモを含むため、お客様に共有しないでください。\n  </div>\n");
    proof {
        assert(final(s)@ =~= old(s)@ + html_head(date_minute@, date_second@));
    }
}

fn push_target(s: &mut String, report: &RecoveryReport)
    ensures
        final(s)@ == old(s)@ + target_section(string_seqs(report.wish_labels@), report.total_matched as nat),
{
    push_str(s, "  <section class=\"summary\">\n");
    push_str(s, "    <h2>復旧対象</h2>\n    <table>\n");
    push_wish_row(s, &report.wish_labels);
    push_str(s, "      <tr><th>該当ファイル数</th><td><span class=\"metric\">");
    push_decimal(s, report.total_matched as u64);
    push_str(s, "</span> 件</td></tr>\n    </table>\n");
    proof {
        assert(final(s)@ =~= old(s)@ + target_section(string_seqs(report.wish_labels@), report.total_matched as nat));
    }
}

fn push_results(s: &mut String, report: &RecoveryReport, rates: &RateTexts)
    ensures
        final(s)@ == old(s)@ + results_section(report.recovered@.len(), rates.recovery@, report.failed@.len(), report.skipped@.len()),
{
    push_str(s, "    <h2>復旧結果 (全体)</h2>\n    <table>\n<tr><th>復旧成功</th><td><span class=\"metric\">");
    push_decimal(s, report.recovered.len() as u64);
    push_str(s, "</span> 件 <span class=\"ratio\">(該当の ");
    push_str(s, rates.recovery.as_str());
    push_str(s, "%)</span></td></tr>\n<tr><th>復旧失敗</th><td>");
    push_decimal(s, report.failed.len() as u64);
    push_str(s, " 件</td></tr>\n<tr><th>スキップ</th><td>");
    push_decimal(s, report.skipped.len() as u64);
    push_str(s, " 件</td></tr>\n</table>\n");
    proof {
        assert(final(s)@ =~= old(s)@ + results_section(report.recovered@.len(), rates.recovery@, report.failed@.len(), report.skipped@.len()));
    }
}

fn push_quality(s: &mut String, report: &RecoveryReport, rates: &RateTexts)
    ensures
        final(s)@ == old(s)@ + quality_section(
            count_kind(report.recovered@, 0, false), rates.valid@, count_kind(report.recovered@, 1, false), rates.invalid@,
            count_kind(report.recovered@, 2, false), rates.uncertain@, rates.quality@,
        ),
{
    let valid = report.validated_count();
    let invalid = report.invalid_count();
    let uncertain = report.uncertain_count();
    push_str(s, "    <h2>品質判定内訳</h2>\n    <table>\n<tr><th>判定</th><th>件数</th><th>比率</th></tr>\n<tr><td>Valid (品質確認済み)</td><td>");
    push_decimal(s, valid as u64);
    push_str(s, "</td><td>");
    push_str(s, rates.valid.as_str());
    push_str(s, "%</td></tr>\n<tr><td>Invalid (要確認)</td><td>");
    push_decimal(s, invalid as u64);
    push_str(s, "</td><td>");
    push_str(s, rates.invalid.as_str());
    push_str(s, "%</td></tr>\n<tr><td>Uncertain (検証外)</td><td>");
    push_decimal(s, uncertain as u64);
    push_str(s, "</td><td>");
    push_str(s, rates.uncertain.as_str());
    push_str(s, "%</td></tr>\n</table>\n<p><strong>品質保証率: <span class=\"metric\">");
    push_str(s, rates.quality.as_str());
    push_str(s, "%</span></strong> (復旧成功のうち Valid の比率)</p>\n");
    proof {
        assert(final(s)@ =~= old(s)@ + quality_section(
            count_kind(report.recovered@, 0, false), rates.valid@, count_kind(report.recovered@, 1, false), rates.invalid@,
            count_kind(report.recovered@, 2, false), rates.uncertain@, rates.quality@,
        ));
    }
}

fn push_volume(s: &mut String, report: &RecoveryReport)
    requires
        bytes_sum(report.recovered@, false) <= u64::MAX,
    ensures
        final(s)@ == old(s)@ + volume_section(
            bytes_text(bytes_sum(report.recovered@, false)),
            duration_text(millis_between(report.started_at.secs(), report.started_at.nanos(), report.finished_at.secs(), report.finished_at.nanos()) as int),
        ),
{
    let bytes = format_bytes(report.total_bytes_written());
    let duration = format_duration_ms(report.duration_ms());
    push_str(s, "    <h2>データ量と時間</h2>\n    <table>\n<tr><th>復旧総量</th><td>");
    push_escaped(s, bytes.as_str());
    push_str(s, "</td></tr>\n<tr><th>処理時間</th><td>");
    push_escaped(s, duration.as_str());
    push_str(s, "</td></tr>\n</table>\n  </section>\n");
    proof {
        assert(final(s)@ =~= old(s)@ + volume_section(
            bytes_text(bytes_sum(report.recovered@, false)),
            duration_text(millis_between(report.started_at.secs(), report.started_at.nanos(), report.finished_at.secs(), report.finished_at.nanos()) as int),
        ));
    }
}

fn push_priority(s: &mut String, report: &RecoveryReport, rates: &RateTexts)
    requires
        bytes_sum(report.recovered@, false) <= u64::MAX,
    ensures
        final(s)@ == old(s)@ + (if count_kind(report.recovered@, 3, true) > 0 {
            priority_section(
                count_kind(report.recovered@, 3, true), bytes_text(bytes_sum(report.recovered@, true)), rates.priority_quality@,
                count_kind(report.recovered@, 0, true), count_kind(report.recovered@, 1, true), count_kind(report.recovered@, 2, true),
            )
        } else {
            Seq::empty()
        }),
{
    proof {
        lemma_priority_bytes_within(report.recovered@);
    }
    let pc = report.priority_count();
    if pc == 0 {
        proof {
            assert(old(s)@ + Seq::<char>::empty() =~= old(s)@);
        }
        return;
    }
        let pbytes = format_bytes(report.priority_total_bytes());
        push_str(s, "  <h2>お客様優先データ (Wishlist マッチ)</h2>\n  <table>\n<tr><th>該当ファイル数</th><td><span class=\"metric\">");
        push_decimal(s, pc as u64);
        push_str(s, "</span> 件</td></tr>\n<tr><th>復旧データ量</th><td>");
        push_escaped(s, pbytes.as_str());
        push_str(s, "</td></tr>\n<tr><th>品質保証率</th><td><span class=\"metric\">");
        push_str(s, rates.priority_quality.as_str());
        push_str(s, "%</span></td></tr>\n</table>\n  <table>\n<tr><th>判定</th><th>件数</th></tr>\n<tr><td>Valid (正常)</td><td>");
        push_decimal(s, report.priority_validated_count() as u64);
        push_str(s, "</td></tr>\n<tr><td>Invalid (要確認)</td><td>");
        push_decimal(s, report.priority_invalid_count() as u64);
        push_str(s, "</td></tr>\n<tr><td>Uncertain (検証外)</td><td>");
        push_decimal(s, report.priority_uncertain_count() as u64);
        push_str(s, "</td></tr>\n</table>\n");
    proof {
        assert(final(s)@ =~= old(s)@ + priority_section(
            count_kind(report.recovered@, 3, true), bytes_text(bytes_sum(report.recovered@, true)), rates.priority_quality@,
            count_kind(report.recovered@, 0, true), count_kind(report.recovered@, 1, true), count_kind(report.recovered@, 2, true),
        ));
    }
}

fn push_invalid_groups(s: &mut String, report: &RecoveryReport)
    ensures
        exists|ig: Seq<(Seq<char>, Seq<usize>)>| #![trigger is_grouping(ig, reason_keys(report.recovered@))]
            is_grouping(ig, reason_keys(report.recovered@))
            && final(s)@ == old(s)@ + invalid_section(report.recovered@, ig),
{
    let ghost rec = report.recovered@;
    let ghost after_breakdown = s@;
    let grouped = report.invalid_grouped_by_reason();
    let ghost ig = choose|groups: Seq<(Seq<char>, Seq<usize>)>| {
        &&& is_grouping(groups, reason_keys(rec))
        &&& grouped@.len() == groups.len()
        &&& forall|g: int| 0 <= g < groups.len() ==> (#[trigger] grouped@[g]).0@ == groups[g].0
            && grouped@[g].1@.len() == groups[g].1.len()
            && forall|x: int| 0 <= x < groups[g].1.len() ==>
                *(#[trigger] grouped@[g].1@[x]) == rec[invalid_positions(rec)[groups[g].1[x] as int] as int]
    };
    let gn = grouped.len();
    if gn > 0 {
        push_str(s, "  <h2>要確認ファイル (理由別)</h2>\n");
    }
    let ghost groups_head = s@;
    let mut g: usize = 0;
    proof {
        assert(ig.take(0) =~= Seq::<(Seq<char>, Seq<usize>)>::empty());
        assert(s@ =~= groups_head + group_blocks(rec, ig.take(0)));
    }
    while g < gn
        invariant
            gn == grouped@.len(),
            gn == ig.len(),
            rec == report.recovered@,
            forall|h: int| 0 <= h < ig.len() ==> (#[trigger] grouped@[h]).0@ == ig[h].0
                && grouped@[h].1@.len() == ig[h].1.len()
                && forall|x: int| 0 <= x < ig[h].1.len() ==>
                    *(#[trigger] grouped@[h].1@[x]) == rec[invalid_positions(rec)[ig[h].1[x] as int] as int],
            g <= gn,
            s@ == groups_head + group_blocks(rec, ig.take(g as int)),
        decreases gn - g,
    {
        let entry = &grouped[g];
        proof {
            let ev = entry.1@.map_values(|e: &RecoveredEntry| *e);
            assert(ev =~= group_entries(rec, ig[g as int].1)) by {
                assert forall|x: int| 0 <= x < ev.len() implies ev[x] == group_entries(rec, ig[g as int].1)[x] by {
                    assert(*grouped@[g as int].1@[x] == rec[invalid_positions(rec)[ig[g as int].1[x] as int] as int]);
                }
            }
        }
        push_group_block(s, &entry.0, &entry.1);
        proof {
            let t = ig.take(g as int + 1);
            assert(t.drop_last() =~= ig.take(g as int));
            assert(t.last() == ig[g as int]);
            assert(s@ =~= groups_head + group_blocks(rec, t));
        }
        g = g + 1;
    }
    proof {
        assert(ig.take(gn as int) =~= ig);
        assert(s@ =~= after_breakdown + invalid_section(rec, ig));
        assert(is_grouping(ig, reason_keys(rec)));
    }
}

/// The staff report for `report`: dated `date_minute` (`YYYY-MM-DD HH:MM`)
/// in its title and `date_second` (`YYYY-MM-DD HH:MM:SS`) below its heading,
/// with the percentages in `rates` (see [`internal_html`]).
pub fn render_internal_html_with(
    report: &RecoveryReport,
    date_minute: &str,
    date_second: &str,
    rates: &RateTexts,
) -> (r: String)
    requires
        bytes_sum(report.recovered@, false) <= u64::MAX,
    ensures
        exists|bg: Seq<(Seq<char>, Seq<usize>)>, ig: Seq<(Seq<char>, Seq<usize>)>|
            #![trigger is_grouping(bg, breakdown_keys(report.recovered@)), is_grouping(ig, reason_keys(report.recovered@))]
            is_grouping(bg, breakdown_keys(report.recovered@))
            && is_grouping(ig, reason_keys(report.recovered@))
            && r@ == internal_html(*report, date_minute@, date_second@, *rates, stats_per_group(report.recovered@, bg), ig),
{
    let ghost rec = report.recovered@;
    let mut s = String::new();
    push_head(&mut s, date_minute, date_second);
    let ghost p1 = s@;
    push_target(&mut s, report);
    let ghost p2 = s@;
    push_results(&mut s, report, rates);
    let ghost p3 = s@;
    push_quality(&mut s, report, rates);
    let ghost p4 = s@;
    push_volume(&mut s, report);
    let ghost p5 = s@;
    push_priority(&mut s, report, rates);
    let ghost p6 = s@;
    let bd = report.format_breakdown();
    let ghost bg = choose|groups: Seq<(Seq<char>, Seq<usize>)>|
        is_grouping(groups, breakdown_keys(rec)) && breakdown_view(bd@) == stats_per_group(rec, groups);
    push_breakdown(&mut s, &bd, &rates.format_valid);
    let ghost p7 = s@;
    push_invalid_groups(&mut s, report);
    let ghost ig = choose|groups: Seq<(Seq<char>, Seq<usize>)>|
        is_grouping(groups, reason_keys(rec)) && s@ == p7 + invalid_section(rec, groups);
    push_recovered(&mut s, &report.recovered);
    let ghost p8 = s@;
    push_failed(&mut s, &report.failed);
    let ghost p9 = s@;
    push_skipped(&mut s, &report.skipped);
    let ghost p10 = s@;
    push_str(&mut s, "  <footer>\n    <p>DDS Recovery Workbench - 内部業務レポート</p>\n  </footer>\n</body>\n</html>\n");
    proof {
        assert(s@ =~= internal_html(*report, date_minute@, date_second@, *rates, stats_per_group(rec, bg), ig));
    }
    s
}

} // verus!
