//! The CSV report for other systems: one header and one row of 15 fields per
//! recovered file, written by the `csv` crate (which quotes fields that need
//! it).

use vstd::prelude::*;
use vstd::string::StringExecFns;
use crate::recovery::engine::{path_bytes, path_display_of, path_display_text};
use crate::recovery::report::{RecoveredEntry, RecoveryReport};
use crate::recovery::validation::ValidationStatus;
use crate::report::error::ReportError;
use crate::report::txt_customer::string_seqs;
use crate::text::{push_decimal, push_str, decimal, lemma_utf8_concat, utf8_of};

verus! {

/// A `csv::Writer` into memory. Verus refuses `csv::Writer<W>` itself (its
/// bound names `std::io::Write`), so the writer is held in this opaque
/// struct and reached only through the functions below.
#[verifier::external_body]
pub struct CsvBuffer {
    inner: csv::Writer<Vec<u8>>,
}

/// The bytes a CSV writer holds so far, written out or still buffered.
pub uninterp spec fn csv_written(w: CsvBuffer) -> Seq<u8>;

/// Whether no write of the CSV writer has failed. After a failed write the
/// writer keeps the fields it had taken, so nothing is stated of it then.
pub uninterp spec fn csv_intact(w: CsvBuffer) -> bool;

/// The length of the first record a CSV writer wrote, which every later
/// record must match; `None` before the first record.
pub uninterp spec fn csv_field_count(w: CsvBuffer) -> Option<nat>;

/// A field needs quotes when it holds `,`, `"`, CR or LF.
pub open spec fn needs_quotes(f: Seq<char>) -> bool {
    f.contains(',') || f.contains('"') || f.contains('\r') || f.contains('\n')
}

/// `f` with every `"` doubled.
pub open spec fn doubled_quotes(f: Seq<char>) -> Seq<char>
    decreases f.len(),
{
    if f.len() == 0 {
        Seq::empty()
    } else {
        doubled_quotes(f.drop_last()) + if f.last() == '"' { seq!['"', '"'] } else { seq![f.last()] }
    }
}

/// A field as written: in quotes, its quotes doubled, when it needs them.
pub open spec fn csv_field(f: Seq<char>) -> Seq<char> {
    if needs_quotes(f) {
        seq!['"'] + doubled_quotes(f) + seq!['"']
    } else {
        f
    }
}

/// One record as the writer writes it with its default settings: the fields
/// joined by `,` and ended by `\n`; a record with no text at all (no
/// field, or one empty field) is written as `""`.
pub open spec fn csv_line(fields: Seq<Seq<char>>) -> Seq<char> {
    if fields.len() == 0 || (fields.len() == 1 && fields[0].len() == 0) {
        seq!['"', '"', '\n']
    } else {
        joined(fields.map_values(|f: Seq<char>| csv_field(f)), seq![',']) + seq!['\n']
    }
}

/// Calls `csv::WriterBuilder::new().from_writer(Vec::new())`: a writer that
/// holds nothing yet and has written no record.
#[verifier::external_body]
fn csv_writer_new() -> (w: CsvBuffer)
    ensures
        csv_written(w) == Seq::<u8>::empty(),
        csv_field_count(w) is None,
        csv_intact(w),
{
    CsvBuffer { inner: csv::WriterBuilder::new().from_writer(Vec::new()) }
}

/// Calls `csv::Writer::write_record` on a writer into memory that has not
/// failed before, where writing cannot fail: it fails exactly when the
/// record's length differs from the first record's. On success the writer holds the UTF-8 of the record
/// (see [`csv_line`]) after what it held. Nothing is stated after a failure.
#[verifier::external_body]
fn csv_write_record(w: &mut CsvBuffer, fields: &Vec<String>) -> (r: Result<(), csv::Error>)
    requires
        csv_intact(*old(w)),
    ensures
        match csv_field_count(*old(w)) {
            None => r is Ok,
            Some(k) => (r is Ok <==> k == fields@.len()),
        },
        r is Ok ==> csv_written(*final(w)) == csv_written(*old(w)) + utf8_of(csv_line(string_seqs(fields@)))
            && csv_field_count(*final(w)) == Some(fields@.len() as nat) && csv_intact(*final(w)),
{
    w.inner.write_record(fields.iter())
}

/// Calls `csv::Writer::into_inner`, which flushes the writer into its vector
/// (which cannot fail) and hands the vector back.
#[verifier::external_body]
fn csv_into_inner(w: CsvBuffer) -> (r: Result<Vec<u8>, String>)
    requires
        csv_intact(w),
    ensures
        r is Ok,
        r is Ok ==> r->Ok_0@ == csv_written(w),
{
    w.inner.into_inner().map_err(|e| e.to_string())
}

/// Calls `String::from_utf8`: the text that the bytes encode, when they are
/// the UTF-8 of a text; the error is turned into its text.
#[verifier::external_body]
fn utf8_string(bytes: Vec<u8>) -> (r: Result<String, String>)
    ensures
        r matches Ok(s) ==> utf8_of(s@) == bytes@,
        forall|t: Seq<char>| #[trigger] utf8_of(t) == bytes@ ==> r is Ok && r->Ok_0@ == t,
{
    String::from_utf8(bytes).map_err(|e| e.to_string())
}

/// The 15 column names.
pub open spec fn csv_header() -> Seq<Seq<char>> {
    seq![
        "source_id"@, "original_path"@, "output_path"@, "bytes_written"@, "is_deleted"@,
        "is_priority"@, "priority_score"@, "matched_wishes"@, "sha256"@, "validation_status"@,
        "format_detected"@, "validator_name"@, "customer_message"@, "internal_note"@, "diagnostics"@,
    ]
}

/// The header and every row have the same 15 columns.
pub proof fn lemma_csv_fifteen_columns(e: RecoveredEntry, out: Seq<char>)
    ensures
        csv_header().len() == 15,
        row_fields(e, out).len() == 15,
{
}

/// `parts` joined by `sep`.
pub open spec fn joined(parts: Seq<Seq<char>>, sep: Seq<char>) -> Seq<char>
    decreases parts.len(),
{
    if parts.len() == 0 {
        Seq::empty()
    } else if parts.len() == 1 {
        parts[0]
    } else {
        joined(parts.drop_last(), sep) + sep + parts.last()
    }
}

/// `true` or `false`.
pub open spec fn bool_text(b: bool) -> Seq<char> {
    if b { "true"@ } else { "false"@ }
}

/// The six validation fields of a row: status, format, validator, customer
/// message, staff note and diagnostics; all empty without a validation.
pub open spec fn validation_fields(e: RecoveredEntry) -> Seq<Seq<char>> {
    match e.validation {
        Some(v) => seq![
            match v.status {
                ValidationStatus::Valid => "valid"@,
                ValidationStatus::Invalid => "invalid"@,
                ValidationStatus::Uncertain => "uncertain"@,
            },
            match v.format_detected { Some(f) => f@, None => Seq::empty() },
            v.validator_name@,
            match v.user_message_ja { Some(m) => m@, None => Seq::empty() },
            match v.internal_note_ja { Some(m) => m@, None => Seq::empty() },
            joined(string_seqs(v.diagnostics@), "; "@),
        ],
        None => seq![Seq::empty(), Seq::empty(), Seq::empty(), Seq::empty(), Seq::empty(), Seq::empty()],
    }
}

/// The 15 fields of the row of `e`, its output path shown as `out`.
pub open spec fn row_fields(e: RecoveredEntry, out: Seq<char>) -> Seq<Seq<char>> {
    seq![
        e.source_id@,
        e.original_path@,
        out,
        decimal(e.bytes_written as nat),
        bool_text(e.is_deleted),
        bool_text(e.is_priority),
        decimal(e.priority_score as nat),
        joined(string_seqs(e.matched_wish_labels@), "; "@),
        match e.sha256 { Some(h) => h@, None => Seq::empty() },
    ] + validation_fields(e)
}

/// The rows of `entries`, the output paths shown as `outs`.
pub open spec fn csv_rows(entries: Seq<RecoveredEntry>, outs: Seq<Seq<char>>) -> Seq<char>
    decreases entries.len(),
{
    if entries.len() == 0 {
        Seq::empty()
    } else {
        csv_rows(entries.drop_last(), outs) + csv_line(row_fields(entries.last(), outs[entries.len() - 1]))
    }
}

/// How the output paths of `entries` are shown.
pub open spec fn shown_paths(entries: Seq<RecoveredEntry>) -> Seq<Seq<char>> {
    entries.map_values(|e: RecoveredEntry| path_display_of(path_bytes(e.output_path)))
}

/// The CSV text of `entries`: the header, then one row per entry.
pub open spec fn csv_text(entries: Seq<RecoveredEntry>) -> Seq<char> {
    csv_line(csv_header()) + csv_rows(entries, shown_paths(entries))
}

/// Joins `parts` with `sep`.
pub fn join_strings(parts: &Vec<String>, sep: &str) -> (r: String)
    ensures
        r@ == joined(string_seqs(parts@), sep@),
{
    let mut s = String::new();
    let n = parts.len();
    let mut i: usize = 0;
    while i < n
        invariant
            n == parts@.len(),
            i <= n,
            s@ == joined(string_seqs(parts@.take(i as int)), sep@),
        decreases n - i,
    {
        proof {
            assert(string_seqs(parts@.take(i as int + 1)).drop_last() =~= string_seqs(parts@.take(i as int)));
            assert(string_seqs(parts@.take(i as int + 1)).last() == parts@[i as int]@);
        }
        if i > 0 {
            push_str(&mut s, sep);
        }
        push_str(&mut s, parts[i].as_str());
        proof {
            if i == 0 {
                assert(s@ =~= string_seqs(parts@.take(1))[0]);
            }
        }
        i = i + 1;
    }
    proof {
        assert(parts@.take(n as int) =~= parts@);
    }
    s
}

fn bool_string(b: bool) -> (r: String)
    ensures
        r@ == bool_text(b),
{
    if b { String::from_str("true") } else { String::from_str("false") }
}

fn decimal_text(n: u64) -> (r: String)
    ensures
        r@ == decimal(n as nat),
{
    let mut s = String::new();
    push_decimal(&mut s, n);
    proof {
        assert(s@ =~= decimal(n as nat));
    }
    s
}

fn opt_text(o: &Option<String>) -> (r: String)
    ensures
        r@ == match *o { Some(h) => h@, None => Seq::<char>::empty() },
{
    match o {
        Some(h) => String::from_str(h.as_str()),
        None => String::new(),
    }
}

/// The 15 fields of the row of `e`, and how its output path was shown.
fn row_of(e: &RecoveredEntry) -> (r: (Vec<String>, Ghost<Seq<char>>))
    ensures
        string_seqs(r.0@) == row_fields(*e, r.1@),
        r.1@ == path_display_of(path_bytes(e.output_path)),
{
    let out = path_display_text(&e.output_path);
    let ghost out_v = out@;
    let mut row: Vec<String> = Vec::new();
    row.push(String::from_str(e.source_id.as_str()));
    row.push(String::from_str(e.original_path.as_str()));
    row.push(out);
    row.push(decimal_text(e.bytes_written));
    row.push(bool_string(e.is_deleted));
    row.push(bool_string(e.is_priority));
    row.push(decimal_text(e.priority_score as u64));
    row.push(join_strings(&e.matched_wish_labels, "; "));
    row.push(opt_text(&e.sha256));
    match &e.validation {
        Some(v) => {
            let status = match v.status {
                ValidationStatus::Valid => String::from_str("valid"),
                ValidationStatus::Invalid => String::from_str("invalid"),
                ValidationStatus::Uncertain => String::from_str("uncertain"),
            };
            row.push(status);
            row.push(opt_text(&v.format_detected));
            row.push(String::from_str(v.validator_name.as_str()));
            row.push(opt_text(&v.user_message_ja));
            row.push(opt_text(&v.internal_note_ja));
            row.push(join_strings(&v.diagnostics, "; "));
        },
        None => {
            row.push(String::new());
            row.push(String::new());
            row.push(String::new());
            row.push(String::new());
            row.push(String::new());
            row.push(String::new());
        },
    }
    proof {
        assert(string_seqs(row@) =~= row_fields(*e, out_v));
    }
    (row, Ghost(out_v))
}

fn header_row() -> (r: Vec<String>)
    ensures
        string_seqs(r@) == csv_header(),
{
    let mut h: Vec<String> = Vec::new();
    h.push(String::from_str("source_id"));
    h.push(String::from_str("original_path"));
    h.push(String::from_str("output_path"));
    h.push(String::from_str("bytes_written"));
    h.push(String::from_str("is_deleted"));
    h.push(String::from_str("is_priority"));
    h.push(String::from_str("priority_score"));
    h.push(String::from_str("matched_wishes"));
    h.push(String::from_str("sha256"));
    h.push(String::from_str("validation_status"));
    h.push(String::from_str("format_detected"));
    h.push(String::from_str("validator_name"));
    h.push(String::from_str("customer_message"));
    h.push(String::from_str("internal_note"));
    h.push(String::from_str("diagnostics"));
    proof {
        assert(string_seqs(h@) =~= csv_header());
    }
    h
}

/// The CSV of the report as text: the header, then one row per recovered
/// file in report order (see [`csv_text`]). Writing into memory does not
/// fail, so the result is always `Ok`.
pub fn render_csv(report: &RecoveryReport) -> (r: Result<String, ReportError>)
    ensures
        r is Ok,
        r is Ok ==> r->Ok_0@ == csv_text(report.recovered@),
{
    let ghost rec = report.recovered@;
    let mut w = csv_writer_new();
    let header = header_row();
    match csv_write_record(&mut w, &header) {
        Ok(()) => {},
        Err(e) => return Err(ReportError::Csv(e)),
    }
    proof {
        lemma_csv_fifteen_columns(report.recovered@[0], Seq::empty());
        assert(string_seqs(header@).len() == header@.len());
        assert(Seq::<u8>::empty() + utf8_of(csv_line(csv_header())) =~= utf8_of(csv_line(csv_header())));
    }
    let n = report.recovered.len();
    let mut i: usize = 0;
    let ghost mut outs: Seq<Seq<char>> = Seq::empty();
    proof {
        assert(csv_rows(rec.take(0), outs) =~= Seq::<char>::empty());
        assert(csv_line(csv_header()) + csv_rows(rec.take(0), outs) =~= csv_line(csv_header()));
    }
    while i < n
        invariant
            n == rec.len(),
            rec == report.recovered@,
            i <= n,
            outs == shown_paths(rec.take(i as int)),
            csv_field_count(w) == Some(15nat),
            csv_intact(w),
            csv_written(w) == utf8_of(csv_line(csv_header()) + csv_rows(rec.take(i as int), outs)),
        decreases n - i,
    {
        let (row, Ghost(out)) = row_of(&report.recovered[i]);
        proof {
            lemma_csv_fifteen_columns(report.recovered@[i as int], out);
            assert(string_seqs(row@).len() == row@.len());
        }
        match csv_write_record(&mut w, &row) {
            Ok(()) => {},
            Err(e) => return Err(ReportError::Csv(e)),
        }
        let ghost t = rec.take(i as int + 1);
        proof {
            let outs2 = outs.push(out);
            assert(t.drop_last() =~= rec.take(i as int));
            assert(t.last() == rec[i as int]);
            assert(outs2 =~= shown_paths(t));
            lemma_csv_rows_prefix_outs(rec.take(i as int), outs, outs2);
            assert(csv_rows(t, outs2) == csv_rows(t.drop_last(), outs2) + csv_line(row_fields(t.last(), outs2[i as int])));
            let prev = csv_line(csv_header()) + csv_rows(rec.take(i as int), outs);
            let line = csv_line(row_fields(t.last(), outs2[i as int]));
            lemma_utf8_concat(prev, line);
            assert(prev + line =~= csv_line(csv_header()) + csv_rows(t, outs2));
            outs = outs2;
        }
        i = i + 1;
    }
    proof {
        assert(rec.take(n as int) =~= rec);
    }
    let data = match csv_into_inner(w) {
        Ok(d) => d,
        Err(msg) => return Err(ReportError::Template(msg)),
    };
    match utf8_string(data) {
        Ok(s) => Ok(s),
        Err(msg) => Err(ReportError::Template(msg)),
    }
}

/// The rows of a prefix depend only on the output paths of that prefix.
proof fn lemma_csv_rows_prefix_outs(entries: Seq<RecoveredEntry>, a: Seq<Seq<char>>, b: Seq<Seq<char>>)
    requires
        entries.len() <= a.len(),
        entries.len() <= b.len(),
        forall|k: int| 0 <= k < entries.len() ==> a[k] == b[k],
    ensures
        csv_rows(entries, a) == csv_rows(entries, b),
    decreases entries.len(),
{
    if entries.len() > 0 {
        lemma_csv_rows_prefix_outs(entries.drop_last(), a, b);
    }
}

/// What a CSV reader takes from the start of `s` for an unquoted field: the
/// characters up to the first `,` or line feed, and the rest from there.
pub open spec fn read_plain(s: Seq<char>) -> (Seq<char>, Seq<char>)
    decreases s.len(),
{
    if s.len() == 0 || s[0] == ',' || s[0] == '\n' {
        (Seq::empty(), s)
    } else {
        let (f, r) = read_plain(s.skip(1));
        (seq![s[0]] + f, r)
    }
}

/// What a CSV reader takes from `s`, just after an opening quote: the
/// characters up to the closing quote, a doubled quote read as one, and the
/// rest after the closing quote.
pub open spec fn read_quoted(s: Seq<char>) -> (Seq<char>, Seq<char>)
    decreases s.len(),
{
    if s.len() == 0 {
        (Seq::empty(), Seq::empty())
    } else if s[0] == '"' {
        if s.len() >= 2 && s[1] == '"' {
            let (f, r) = read_quoted(s.skip(2));
            (seq!['"'] + f, r)
        } else {
            (Seq::empty(), s.skip(1))
        }
    } else {
        let (f, r) = read_quoted(s.skip(1));
        (seq![s[0]] + f, r)
    }
}

/// What a CSV reader takes from the start of `s` as one field, quoted or not.
pub open spec fn read_field(s: Seq<char>) -> (Seq<char>, Seq<char>) {
    if s.len() > 0 && s[0] == '"' {
        read_quoted(s.skip(1))
    } else {
        read_plain(s)
    }
}

/// Reading an unquoted field never lengthens what is left.
pub proof fn lemma_read_plain_len(s: Seq<char>)
    ensures
        read_plain(s).1.len() <= s.len(),
    decreases s.len(),
{
    if !(s.len() == 0 || s[0] == ',' || s[0] == '\n') {
        lemma_read_plain_len(s.skip(1));
    }
}

/// Reading a quoted field never lengthens what is left.
pub proof fn lemma_read_quoted_len(s: Seq<char>)
    ensures
        read_quoted(s).1.len() <= s.len(),
    decreases s.len(),
{
    if s.len() > 0 {
        if s[0] == '"' {
            if s.len() >= 2 && s[1] == '"' {
                lemma_read_quoted_len(s.skip(2));
            }
        } else {
            lemma_read_quoted_len(s.skip(1));
        }
    }
}

/// Reading a field never lengthens what is left.
pub proof fn lemma_read_field_len(s: Seq<char>)
    ensures
        read_field(s).1.len() <= s.len(),
{
    lemma_read_plain_len(s);
    if s.len() > 0 {
        lemma_read_quoted_len(s.skip(1));
    }
}

/// What a CSV reader takes from the start of `s` as one record: its fields,
/// and the rest after the line feed that ends it.
pub open spec fn read_record(s: Seq<char>) -> (Seq<Seq<char>>, Seq<char>)
    decreases s.len(),
{
    let (f, r) = read_field(s);
    if r.len() > 0 && r[0] == ',' {
        proof {
            lemma_read_field_len(s);
        }
        let (fs, rest) = read_record(r.skip(1));
        (seq![f] + fs, rest)
    } else if r.len() > 0 && r[0] == '\n' {
        (seq![f], r.skip(1))
    } else {
        (seq![f], r)
    }
}

proof fn lemma_doubled_concat(a: Seq<char>, b: Seq<char>)
    ensures
        doubled_quotes(a + b) == doubled_quotes(a) + doubled_quotes(b),
    decreases b.len(),
{
    if b.len() == 0 {
        assert(a + b =~= a);
        assert(doubled_quotes(a) + doubled_quotes(b) =~= doubled_quotes(a));
    } else {
        lemma_doubled_concat(a, b.drop_last());
        assert((a + b).drop_last() =~= a + b.drop_last());
        assert((a + b).last() == b.last());
        assert(doubled_quotes(a + b) =~= doubled_quotes(a) + doubled_quotes(b));
    }
}

proof fn lemma_read_plain_back(f: Seq<char>, t: Seq<char>)
    requires
        !needs_quotes(f),
        t.len() > 0,
        t[0] == ',' || t[0] == '\n',
    ensures
        read_plain(f + t) == (f, t),
    decreases f.len(),
{
    if f.len() == 0 {
        assert(f + t =~= t);
    } else {
        assert(!f.contains(f[0]) ==> false);
        assert(f[0] != ',' && f[0] != '\n');
        let g = f.skip(1);
        assert forall|c: char| #[trigger] g.contains(c) implies f.contains(c) by {
            let j = choose|j: int| 0 <= j < g.len() && g[j] == c;
            assert(f[j + 1] == c);
        }
        lemma_read_plain_back(g, t);
        assert((f + t).skip(1) =~= g + t);
        assert(seq![f[0]] + g =~= f);
    }
}

proof fn lemma_read_quoted_back(f: Seq<char>, t: Seq<char>)
    requires
        t.len() > 0,
        t[0] == ',' || t[0] == '\n',
    ensures
        read_quoted(doubled_quotes(f) + seq!['"'] + t) == (f, t),
    decreases f.len(),
{
    if f.len() == 0 {
        assert(doubled_quotes(f) =~= Seq::<char>::empty());
        let s = doubled_quotes(f) + seq!['"'] + t;
        assert(s =~= seq!['"'] + t);
        assert(s.skip(1) =~= t);
    } else {
        let g = f.skip(1);
        assert(f =~= seq![f[0]] + g);
        lemma_doubled_concat(seq![f[0]], g);
        let d0 = doubled_quotes(seq![f[0]]);
        assert(seq![f[0]].drop_last() =~= Seq::<char>::empty());
        assert(d0 == doubled_quotes(Seq::<char>::empty()) + if f[0] == '"' { seq!['"', '"'] } else { seq![f[0]] });
        lemma_read_quoted_back(g, t);
        let s = doubled_quotes(f) + seq!['"'] + t;
        let rest = doubled_quotes(g) + seq!['"'] + t;
        if f[0] == '"' {
            assert(s =~= seq!['"', '"'] + rest);
            assert(s.skip(2) =~= rest);
        } else {
            assert(s =~= seq![f[0]] + rest);
            assert(s.skip(1) =~= rest);
        }
    }
}

proof fn lemma_read_field_back(f: Seq<char>, t: Seq<char>)
    requires
        t.len() > 0,
        t[0] == ',' || t[0] == '\n',
    ensures
        read_field(csv_field(f) + t) == (f, t),
{
    if needs_quotes(f) {
        let s = csv_field(f) + t;
        lemma_read_quoted_back(f, t);
        assert(s =~= seq!['"'] + (doubled_quotes(f) + seq!['"'] + t));
        assert(s.skip(1) =~= doubled_quotes(f) + seq!['"'] + t);
    } else {
        lemma_read_plain_back(f, t);
        if f.len() > 0 {
            assert(f.contains(f[0]));
        }
    }
}

proof fn lemma_joined_front(ps: Seq<Seq<char>>, sep: Seq<char>)
    requires
        ps.len() >= 2,
    ensures
        joined(ps, sep) == ps[0] + sep + joined(ps.skip(1), sep),
    decreases ps.len(),
{
    if ps.len() == 2 {
        assert(ps.drop_last().len() == 1);
        assert(ps.skip(1).len() == 1);
        assert(ps.skip(1)[0] == ps[1]);
        assert(ps.drop_last()[0] == ps[0]);
        assert(joined(ps.drop_last(), sep) == ps[0]);
        assert(joined(ps.skip(1), sep) == ps[1]);
    } else {
        lemma_joined_front(ps.drop_last(), sep);
        assert(ps.drop_last().skip(1) =~= ps.skip(1).drop_last());
        assert(ps.skip(1).last() == ps.last());
        assert(joined(ps, sep) =~= ps[0] + sep + joined(ps.skip(1), sep));
    }
}

proof fn lemma_read_fields_back(fs: Seq<Seq<char>>, tail: Seq<char>)
    requires
        fs.len() >= 1,
    ensures
        read_record(joined(fs.map_values(|f: Seq<char>| csv_field(f)), seq![',']) + seq!['\n'] + tail) == (fs, tail),
    decreases fs.len(),
{
    let cf = fs.map_values(|f: Seq<char>| csv_field(f));
    let s = joined(cf, seq![',']) + seq!['\n'] + tail;
    if fs.len() == 1 {
        assert(joined(cf, seq![',']) == cf[0]);
        lemma_read_field_back(fs[0], seq!['\n'] + tail);
        assert(s =~= csv_field(fs[0]) + (seq!['\n'] + tail));
        assert((seq!['\n'] + tail).skip(1) =~= tail);
        assert(seq![fs[0]] =~= fs);
    } else {
        lemma_joined_front(cf, seq![',']);
        let g = fs.skip(1);
        let cg = g.map_values(|f: Seq<char>| csv_field(f));
        assert(cf.skip(1) =~= cg);
        let rest = joined(cg, seq![',']) + seq!['\n'] + tail;
        lemma_read_fields_back(g, tail);
        lemma_read_field_back(fs[0], seq![','] + rest);
        assert(s =~= csv_field(fs[0]) + (seq![','] + rest));
        assert((seq![','] + rest).skip(1) =~= rest);
        assert(seq![fs[0]] + g =~= fs);
    }
}

/// A CSV reader gets a written record back: reading the line that the writer
/// writes for the fields `fs` gives `fs` and leaves what follows the line,
/// whatever commas, quotes or line breaks the fields hold. (A record of no
/// fields is written as one empty field and read back so.)
pub proof fn lemma_csv_line_read_back(fs: Seq<Seq<char>>, tail: Seq<char>)
    requires
        fs.len() >= 1,
    ensures
        read_record(csv_line(fs) + tail) == (fs, tail),
{
    if fs.len() == 1 && fs[0].len() == 0 {
        let s = csv_line(fs) + tail;
        assert(s =~= seq!['"', '"', '\n'] + tail);
        let q = s.skip(1);
        assert(q =~= seq!['"', '\n'] + tail);
        assert(q.skip(1) =~= seq!['\n'] + tail);
        assert(read_quoted(q) == (Seq::<char>::empty(), seq!['\n'] + tail));
        assert((seq!['\n'] + tail).skip(1) =~= tail);
        assert(fs[0] =~= Seq::<char>::empty());
        assert(fs =~= seq![Seq::<char>::empty()]);
    } else {
        lemma_read_fields_back(fs, tail);
        assert(csv_line(fs) + tail =~= joined(fs.map_values(|f: Seq<char>| csv_field(f)), seq![',']) + seq!['\n'] + tail);
    }
}

/// What a CSV reader takes from `s` as its first `n` records, and what is
/// left after them.
pub open spec fn read_records(s: Seq<char>, n: nat) -> (Seq<Seq<Seq<char>>>, Seq<char>)
    decreases n,
{
    if n == 0 {
        (Seq::empty(), s)
    } else {
        let (fs, r) = read_record(s);
        let (more, rest) = read_records(r, (n - 1) as nat);
        (seq![fs] + more, rest)
    }
}

/// The rows of `entries`, their output paths shown as `outs`.
pub open spec fn rows_of(entries: Seq<RecoveredEntry>, outs: Seq<Seq<char>>) -> Seq<Seq<Seq<char>>> {
    Seq::new(entries.len(), |i: int| row_fields(entries[i], outs[i]))
}

proof fn lemma_csv_rows_front(entries: Seq<RecoveredEntry>, outs: Seq<Seq<char>>)
    requires
        entries.len() >= 1,
        outs.len() >= entries.len(),
    ensures
        csv_rows(entries, outs) == csv_line(row_fields(entries[0], outs[0])) + csv_rows(entries.skip(1), outs.skip(1)),
    decreases entries.len(),
{
    if entries.len() == 1 {
        assert(entries.skip(1).len() == 0);
        assert(entries.drop_last().len() == 0);
        assert(entries.last() == entries[0]);
        assert(csv_rows(entries.drop_last(), outs) == Seq::<char>::empty());
        assert(csv_rows(entries.skip(1), outs.skip(1)) == Seq::<char>::empty());
        assert(csv_rows(entries, outs) == csv_rows(entries.drop_last(), outs) + csv_line(row_fields(entries.last(), outs[0])));
        assert(csv_rows(entries, outs) =~= csv_line(row_fields(entries[0], outs[0])) + csv_rows(entries.skip(1), outs.skip(1)));
    } else {
        let d = entries.drop_last();
        lemma_csv_rows_front(d, outs);
        let n = entries.len() as int;
        let t = entries.skip(1);
        assert(t.drop_last() =~= d.skip(1));
        assert(t.last() == entries.last());
        assert(outs.skip(1)[t.len() - 1] == outs[n - 1]);
        assert(d[0] == entries[0]);
        assert(csv_rows(entries, outs) =~= csv_line(row_fields(entries[0], outs[0])) + csv_rows(t, outs.skip(1)));
    }
}

proof fn lemma_read_rows(entries: Seq<RecoveredEntry>, outs: Seq<Seq<char>>, tail: Seq<char>)
    requires
        outs.len() >= entries.len(),
    ensures
        read_records(csv_rows(entries, outs) + tail, entries.len()) == (rows_of(entries, outs), tail),
    decreases entries.len(),
{
    if entries.len() == 0 {
        assert(csv_rows(entries, outs) + tail =~= tail);
        assert(rows_of(entries, outs) =~= Seq::<Seq<Seq<char>>>::empty());
    } else {
        lemma_csv_rows_front(entries, outs);
        let row0 = row_fields(entries[0], outs[0]);
        let later = csv_rows(entries.skip(1), outs.skip(1)) + tail;
        lemma_csv_fifteen_columns(entries[0], outs[0]);
        lemma_csv_line_read_back(row0, later);
        assert(csv_rows(entries, outs) + tail =~= csv_line(row0) + later);
        lemma_read_rows(entries.skip(1), outs.skip(1), tail);
        assert(seq![row0] + rows_of(entries.skip(1), outs.skip(1)) =~= rows_of(entries, outs));
    }
}

/// A CSV reader gets the report back: reading the CSV text of `entries`
/// record by record gives the 15 column names, then the 15 fields of each
/// recovered file in order, and nothing is left over.
pub proof fn lemma_csv_text_read_back(entries: Seq<RecoveredEntry>)
    ensures
        read_records(csv_text(entries), entries.len() + 1)
            == (seq![csv_header()] + rows_of(entries, shown_paths(entries)), Seq::<char>::empty()),
{
    let outs = shown_paths(entries);
    let body = csv_rows(entries, outs);
    lemma_csv_fifteen_columns(entries[0], Seq::empty());
    lemma_csv_line_read_back(csv_header(), body);
    lemma_read_rows(entries, outs, Seq::empty());
    assert(body + Seq::<char>::empty() =~= body);
    assert(read_records(csv_text(entries), entries.len() + 1)
        == (seq![csv_header()] + read_records(body, entries.len()).0, read_records(body, entries.len()).1));
}

} // verus!
