//! The customer's Word report: recovery counts, the customer's wishes when
//! any file matched them, and whom to contact. Nothing about validation, no
//! file names and no staff notes go into it.
//!
//! The content is planned as a list of blocks; the document is then put
//! together block by block with `docx-rs`.

use vstd::prelude::*;
use vstd::string::StringExecFns;
use crate::recovery::report::{bytes_sum, count_kind, RecoveredEntry, RecoveryReport};
use crate::report::csv::{join_strings, joined};
use crate::report::error::ReportError;
use crate::report::format::{bytes_text, format_bytes};
use crate::report::txt_customer::string_seqs;
use crate::text::{push_decimal, push_str, decimal};

verus! {

/// The company named to the customer as the contact.
pub const COMPANY_NAME: &'static str = "Digital Data Solution 株式会社";

/// One block of the customer's document.
pub enum DocBlock {
    /// A paragraph of one bold run of the given size (in half-points).
    Heading { text: String, size: usize },
    /// An empty paragraph.
    Blank,
    /// A two-column table: a bold label and a plain value per row.
    Table { rows: Vec<(String, String)> },
    /// A paragraph of one plain run.
    Text { text: String },
}

/// A block as plain values.
pub enum DocBlockView {
    Heading(Seq<char>, nat),
    Blank,
    Table(Seq<(Seq<char>, Seq<char>)>),
    Text(Seq<char>),
}

/// The plain values of a block.
pub open spec fn block_view(b: DocBlock) -> DocBlockView {
    match b {
        DocBlock::Heading { text, size } => DocBlockView::Heading(text@, size as nat),
        DocBlock::Blank => DocBlockView::Blank,
        DocBlock::Table { rows } => DocBlockView::Table(rows@.map_values(|r: (String, String)| (r.0@, r.1@))),
        DocBlock::Text { text } => DocBlockView::Text(text@),
    }
}

/// The plain values of the blocks.
pub open spec fn blocks_view(v: Seq<DocBlock>) -> Seq<DocBlockView> {
    v.map_values(|b: DocBlock| block_view(b))
}

/// Number of the deleted (`true`) or live (`false`) files among `s`.
pub open spec fn deleted_count(s: Seq<RecoveredEntry>, deleted: bool) -> nat
    decreases s.len(),
{
    if s.len() == 0 {
        0
    } else {
        deleted_count(s.drop_last(), deleted) + if s.last().is_deleted == deleted { 1nat } else { 0nat }
    }
}

/// `<n> 件`.
pub open spec fn count_text(n: nat) -> Seq<char> {
    decimal(n) + " 件"@
}

/// The blocks of the customer's document for a run with the given recovered
/// files and wishes: the title, the results (live, deleted, total count and
/// size), the wishes section when a recovered file matched one, and the
/// contact.
pub open spec fn customer_blocks(recovered: Seq<RecoveredEntry>, wishes: Seq<Seq<char>>) -> Seq<DocBlockView> {
    let results = seq![
        DocBlockView::Heading("データ復旧レポート"@, 40),
        DocBlockView::Blank,
        DocBlockView::Heading("■ 復旧結果"@, 28),
        DocBlockView::Table(seq![
            ("通常ファイル"@, count_text(deleted_count(recovered, false))),
            ("削除ファイル"@, count_text(deleted_count(recovered, true))),
            ("合計"@, decimal(recovered.len()) + " 件、"@ + bytes_text(bytes_sum(recovered, false))),
        ]),
        DocBlockView::Blank,
    ];
    let priority = count_kind(recovered, 3, true);
    let wish_part = if priority > 0 {
        seq![
            DocBlockView::Heading("■ ご指定優先データ"@, 28),
            DocBlockView::Table(seq![
                ("該当ファイル"@, count_text(priority)),
                ("ご指定条件"@, joined(wishes, "、"@)),
            ]),
            DocBlockView::Blank,
        ]
    } else {
        Seq::empty()
    };
    let contact = seq![
        DocBlockView::Heading("■ お問い合わせ先"@, 28),
        DocBlockView::Text("復旧データに関するお問い合わせは、"@ + COMPANY_NAME@ + "までご連絡ください。"@),
    ];
    results + wish_part + contact
}

/// Two lists of recovered files that agree in everything the customer's
/// document uses: deletion, bytes written and the wish match.
pub open spec fn same_customer_facts(a: Seq<RecoveredEntry>, b: Seq<RecoveredEntry>) -> bool {
    &&& a.len() == b.len()
    &&& forall|i: int| 0 <= i < a.len() ==> {
        &&& (#[trigger] a[i]).is_deleted == b[i].is_deleted
        &&& a[i].bytes_written == b[i].bytes_written
        &&& a[i].is_priority == b[i].is_priority
    }
}

proof fn lemma_same_facts_counts(a: Seq<RecoveredEntry>, b: Seq<RecoveredEntry>)
    requires
        same_customer_facts(a, b),
    ensures
        deleted_count(a, false) == deleted_count(b, false),
        deleted_count(a, true) == deleted_count(b, true),
        bytes_sum(a, false) == bytes_sum(b, false),
        count_kind(a, 3, true) == count_kind(b, 3, true),
    decreases a.len(),
{
    if a.len() > 0 {
        assert(same_customer_facts(a.drop_last(), b.drop_last())) by {
            assert forall|i: int| 0 <= i < a.drop_last().len() implies {
                &&& (#[trigger] a.drop_last()[i]).is_deleted == b.drop_last()[i].is_deleted
                &&& a.drop_last()[i].bytes_written == b.drop_last()[i].bytes_written
                &&& a.drop_last()[i].is_priority == b.drop_last()[i].is_priority
            } by {
                assert(a.drop_last()[i] == a[i]);
                assert(b.drop_last()[i] == b[i]);
            }
        }
        lemma_same_facts_counts(a.drop_last(), b.drop_last());
        assert(a.last() == a[a.len() - 1]);
        assert(b.last() == b[b.len() - 1]);
    }
}

/// The customer's document shows nothing of a file but whether it was
/// deleted, its size and whether it matched a wish: files that differ in
/// anything else (names, paths, hashes, validation results, staff notes)
/// give the same document.
pub proof fn lemma_customer_blocks_ignore_other_fields(
    a: Seq<RecoveredEntry>,
    b: Seq<RecoveredEntry>,
    wishes: Seq<Seq<char>>,
)
    requires
        same_customer_facts(a, b),
    ensures
        customer_blocks(a, wishes) == customer_blocks(b, wishes),
{
    lemma_same_facts_counts(a, b);
}

fn deleted_counts(recovered: &Vec<RecoveredEntry>) -> (r: (usize, usize))
    ensures
        r.0 == deleted_count(recovered@, false),
        r.1 == deleted_count(recovered@, true),
{
    let n = recovered.len();
    let mut live: usize = 0;
    let mut deleted: usize = 0;
    let mut i: usize = 0;
    while i < n
        invariant
            n == recovered@.len(),
            i <= n,
            live == deleted_count(recovered@.take(i as int), false),
            deleted == deleted_count(recovered@.take(i as int), true),
            live + deleted == i,
        decreases n - i,
    {
        proof {
            assert(recovered@.take(i as int + 1).drop_last() =~= recovered@.take(i as int));
        }
        if recovered[i].is_deleted {
            deleted = deleted + 1;
        } else {
            live = live + 1;
        }
        i = i + 1;
    }
    proof {
        assert(recovered@.take(n as int) =~= recovered@);
    }
    (live, deleted)
}

fn count_string(n: u64) -> (r: String)
    ensures
        r@ == count_text(n as nat),
{
    let mut s = String::new();
    push_decimal(&mut s, n);
    push_str(&mut s, " 件");
    proof {
        assert(s@ =~= count_text(n as nat));
    }
    s
}

fn heading(text: &str, size: usize) -> (b: DocBlock)
    ensures
        block_view(b) == DocBlockView::Heading(text@, size as nat),
{
    DocBlock::Heading { text: String::from_str(text), size }
}

fn pair(label: &str, value: String) -> (r: (String, String))
    ensures
        r.0@ == label@,
        r.1@ == value@,
{
    (String::from_str(label), value)
}

/// The blocks of the customer's document for `report` (see [`customer_blocks`]).
pub fn customer_docx_blocks(report: &RecoveryReport) -> (r: Vec<DocBlock>)
    requires
        bytes_sum(report.recovered@, false) <= u64::MAX,
    ensures
        blocks_view(r@) == customer_blocks(report.recovered@, string_seqs(report.wish_labels@)),
{
    let ghost rec = report.recovered@;
    let mut blocks: Vec<DocBlock> = Vec::new();
    blocks.push(heading("データ復旧レポート", 40));
    blocks.push(DocBlock::Blank);
    blocks.push(heading("■ 復旧結果", 28));
    let (live, deleted) = deleted_counts(&report.recovered);
    let total = report.recovered.len();
    let mut total_text = String::new();
    push_decimal(&mut total_text, total as u64);
    push_str(&mut total_text, " 件、");
    let size = format_bytes(report.total_bytes_written());
    push_str(&mut total_text, size.as_str());
    let mut rows: Vec<(String, String)> = Vec::new();
    rows.push(pair("通常ファイル", count_string(live as u64)));
    rows.push(pair("削除ファイル", count_string(deleted as u64)));
    rows.push(pair("合計", total_text));
    proof {
        assert(rows@.map_values(|r: (String, String)| (r.0@, r.1@)) =~= seq![
            ("通常ファイル"@, count_text(deleted_count(rec, false))),
            ("削除ファイル"@, count_text(deleted_count(rec, true))),
            ("合計"@, decimal(rec.len()) + " 件、"@ + bytes_text(bytes_sum(rec, false))),
        ]);
    }
    blocks.push(DocBlock::Table { rows });
    blocks.push(DocBlock::Blank);
    let ghost first = blocks@;
    let priority = report.priority_count();
    if priority > 0 {
        blocks.push(heading("■ ご指定優先データ", 28));
        let mut prows: Vec<(String, String)> = Vec::new();
        prows.push(pair("該当ファイル", count_string(priority as u64)));
        prows.push(pair("ご指定条件", join_strings(&report.wish_labels, "、")));
        proof {
            assert(prows@.map_values(|r: (String, String)| (r.0@, r.1@)) =~= seq![
                ("該当ファイル"@, count_text(count_kind(rec, 3, true))),
                ("ご指定条件"@, joined(string_seqs(report.wish_labels@), "、"@)),
            ]);
        }
        blocks.push(DocBlock::Table { rows: prows });
        blocks.push(DocBlock::Blank);
    }
    blocks.push(heading("■ お問い合わせ先", 28));
    let mut contact = String::from_str("復旧データに関するお問い合わせは、");
    push_str(&mut contact, COMPANY_NAME);
    push_str(&mut contact, "までご連絡ください。");
    blocks.push(DocBlock::Text { text: contact });
    proof {
        assert(blocks_view(blocks@) =~= customer_blocks(rec, string_seqs(report.wish_labels@)));
    }
    blocks
}

#[verifier::external_type_specification]
#[verifier::external_body]
pub struct ExDocx(docx_rs::Docx);

#[verifier::external_type_specification]
#[verifier::external_body]
pub struct ExXmlDocx(docx_rs::XMLDocx);

#[verifier::external_type_specification]
#[verifier::external_body]
pub struct ExParagraph(docx_rs::Paragraph);

#[verifier::external_type_specification]
#[verifier::external_body]
pub struct ExTable(docx_rs::Table);

#[verifier::external_type_specification]
#[verifier::external_body]
pub struct ExTableRow(docx_rs::TableRow);

#[verifier::external_type_specification]
#[verifier::external_body]
pub struct ExTableCell(docx_rs::TableCell);

/// A run of text as plain values: its text, whether it is bold and the font
/// size (in half-points) when one was set.
pub struct RunText {
    pub text: Seq<char>,
    pub bold: bool,
    pub size: Option<nat>,
}

/// An item of a document's body as plain values: a paragraph (its runs) or a
/// table (its rows, each a list of cells, each a list of paragraphs).
pub enum BodyItem {
    Paragraph(Seq<RunText>),
    Table(Seq<Seq<Seq<Seq<RunText>>>>),
}

/// The text that a run made by `Run::add_text` shows: line feeds are
/// dropped there, and carriage returns when the text is escaped.
pub open spec fn run_text(t: Seq<char>) -> Seq<char> {
    t.filter(|c: char| c != '\n' && c != '\r')
}

/// A character that XML 1.0 allows in text (tab, line feed, carriage return,
/// and U+0020 upward but for the surrogates, U+FFFE and U+FFFF).
pub open spec fn xml_char(c: char) -> bool {
    let v = c as u32;
    v == 0x9 || v == 0xA || v == 0xD || (0x20 <= v && v <= 0xD7FF) || (0xE000 <= v && v <= 0xFFFD) || v >= 0x10000
}

/// Every run of `rs` holds only XML characters.
pub open spec fn runs_xml_ok(rs: Seq<RunText>) -> bool {
    forall|i: int, j: int| 0 <= i < rs.len() && 0 <= j < rs[i].text.len() ==> xml_char(#[trigger] rs[i].text[j])
}

/// Every text of the body holds only XML characters, so its XML part is
/// well-formed.
pub open spec fn body_xml_ok(body: Seq<BodyItem>) -> bool {
    forall|i: int| 0 <= i < body.len() ==> match #[trigger] body[i] {
        BodyItem::Paragraph(rs) => runs_xml_ok(rs),
        BodyItem::Table(rows) => forall|r: int, c: int, p: int|
            0 <= r < rows.len() && 0 <= c < rows[r].len() && 0 <= p < rows[r][c].len() ==> runs_xml_ok(#[trigger] rows[r][c][p]),
    }
}

/// What a document's body holds, in order.
pub uninterp spec fn docx_body(d: docx_rs::Docx) -> Seq<BodyItem>;

/// What a paragraph holds: its runs, in order.
pub uninterp spec fn paragraph_runs(p: docx_rs::Paragraph) -> Seq<RunText>;

/// What a table cell holds: its paragraphs, in order.
pub uninterp spec fn cell_paragraphs(c: docx_rs::TableCell) -> Seq<Seq<RunText>>;

/// What a table row holds: its cells, in order.
pub uninterp spec fn row_cells(r: docx_rs::TableRow) -> Seq<Seq<Seq<RunText>>>;

/// What a table holds: its rows, in order.
pub uninterp spec fn table_rows(t: docx_rs::Table) -> Seq<Seq<Seq<Seq<RunText>>>>;

/// The body that the document part (`word/document.xml`) of the built parts
/// encodes.
pub uninterp spec fn xml_document_body(x: docx_rs::XMLDocx) -> Seq<BodyItem>;

/// The total size in bytes of the parts that `x` holds.
pub uninterp spec fn xml_parts_size(x: docx_rs::XMLDocx) -> nat;

/// The body that the `word/document.xml` entry of a ZIP archive with these
/// bytes encodes; `None` when there is no such entry.
pub uninterp spec fn archived_document_body(bytes: Seq<u8>) -> Option<Seq<BodyItem>>;

/// A table row of a bold `label` cell and a plain `value` cell.
pub open spec fn kv_row(label: Seq<char>, value: Seq<char>) -> Seq<Seq<Seq<RunText>>> {
    seq![
        seq![seq![RunText { text: run_text(label), bold: true, size: None }]],
        seq![seq![RunText { text: run_text(value), bold: false, size: None }]],
    ]
}

/// The body item that a block becomes.
pub open spec fn block_item(b: DocBlockView) -> BodyItem {
    match b {
        DocBlockView::Heading(text, size) => BodyItem::Paragraph(seq![RunText { text: run_text(text), bold: true, size: Some(size) }]),
        DocBlockView::Blank => BodyItem::Paragraph(Seq::empty()),
        DocBlockView::Table(rows) => BodyItem::Table(rows.map_values(|r: (Seq<char>, Seq<char>)| kv_row(r.0, r.1))),
        DocBlockView::Text(text) => BodyItem::Paragraph(seq![RunText { text: run_text(text), bold: false, size: None }]),
    }
}

/// The body of the document made of `blocks`, one item per block.
pub open spec fn document_items(blocks: Seq<DocBlockView>) -> Seq<BodyItem> {
    blocks.map_values(|b: DocBlockView| block_item(b))
}

/// The bytes a ZIP archive starts with: the local file header signature.
pub open spec fn zip_signature() -> Seq<u8> {
    seq![0x50u8, 0x4bu8, 0x03u8, 0x04u8]
}

/// Calls `Docx::new`: an empty document.
#[verifier::external_body]
fn docx_new() -> (d: docx_rs::Docx)
    ensures
        docx_body(d) == Seq::<BodyItem>::empty(),
{
    docx_rs::Docx::new()
}

/// Calls `Docx::add_paragraph`: the document with the paragraph appended.
#[verifier::external_body]
fn docx_add_paragraph(d: docx_rs::Docx, p: docx_rs::Paragraph) -> (r: docx_rs::Docx)
    ensures
        docx_body(r) == docx_body(d).push(BodyItem::Paragraph(paragraph_runs(p))),
{
    d.add_paragraph(p)
}

/// Calls `Docx::add_table`: the document with the table appended.
#[verifier::external_body]
fn docx_add_table(d: docx_rs::Docx, t: docx_rs::Table) -> (r: docx_rs::Docx)
    ensures
        docx_body(r) == docx_body(d).push(BodyItem::Table(table_rows(t))),
{
    d.add_table(t)
}

/// Calls `Docx::build`: the XML parts of the document. When every text of
/// the body holds only XML characters, the document part encodes the body;
/// docx-rs writes other characters (such as U+0001) unchecked, and the part
/// is then not well-formed XML, so nothing is stated of it.
#[verifier::external_body]
fn docx_build(d: docx_rs::Docx) -> (r: docx_rs::XMLDocx)
    ensures
        body_xml_ok(docx_body(d)) ==> xml_document_body(r) == docx_body(d),
{
    d.build()
}

/// Calls `XMLDocx::pack` into memory: the ZIP archive of the parts, with the
/// document part as `word/document.xml`, or the text of the ZIP error. The
/// writer into memory does not fail, and the ZIP writer (files stored, the
/// large-file option off) fails only on sizes past 4 GiB; so packing parts
/// that hold at most 2 GiB in all succeeds.
#[verifier::external_body]
fn xml_docx_pack(x: docx_rs::XMLDocx) -> (r: Result<Vec<u8>, String>)
    ensures
        r matches Ok(b) ==> b@.len() >= 4 && b@.take(4) == zip_signature(),
        r matches Ok(b) ==> archived_document_body(b@) == Some(xml_document_body(x)),
        xml_parts_size(x) <= 0x8000_0000 ==> r is Ok,
{
    let mut buf: Vec<u8> = Vec::new();
    match x.pack(std::io::Cursor::new(&mut buf)) {
        Ok(()) => Ok(buf),
        Err(e) => Err(e.to_string()),
    }
}

/// Calls `Paragraph::new`: an empty paragraph.
#[verifier::external_body]
fn paragraph_new() -> (p: docx_rs::Paragraph)
    ensures
        paragraph_runs(p) == Seq::<RunText>::empty(),
{
    docx_rs::Paragraph::new()
}

/// Calls `Run::new().add_text(text).size(size).bold()` and puts the run into
/// `Paragraph::new()` with `add_run`. The run is made here, not in verified
/// code, because `docx_rs::Run` shares its name with this crate's `Run`.
#[verifier::external_body]
fn bold_sized_paragraph(text: &str, size: usize) -> (p: docx_rs::Paragraph)
    ensures
        paragraph_runs(p) == seq![RunText { text: run_text(text@), bold: true, size: Some(size as nat) }],
{
    docx_rs::Paragraph::new().add_run(docx_rs::Run::new().add_text(text).size(size).bold())
}

/// Calls `Run::new().add_text(text).bold()` and puts the run into
/// `Paragraph::new()` with `add_run` (see [`bold_sized_paragraph`]).
#[verifier::external_body]
fn bold_paragraph(text: &str) -> (p: docx_rs::Paragraph)
    ensures
        paragraph_runs(p) == seq![RunText { text: run_text(text@), bold: true, size: None }],
{
    docx_rs::Paragraph::new().add_run(docx_rs::Run::new().add_text(text).bold())
}

/// Calls `Run::new().add_text(text)` and puts the run into `Paragraph::new()`
/// with `add_run` (see [`bold_sized_paragraph`]).
#[verifier::external_body]
fn plain_paragraph(text: &str) -> (p: docx_rs::Paragraph)
    ensures
        paragraph_runs(p) == seq![RunText { text: run_text(text@), bold: false, size: None }],
{
    docx_rs::Paragraph::new().add_run(docx_rs::Run::new().add_text(text))
}

/// Calls `Table::new` with the rows.
#[verifier::external_body]
fn table_new(rows: Vec<docx_rs::TableRow>) -> (t: docx_rs::Table)
    ensures
        table_rows(t) == rows@.map_values(|w: docx_rs::TableRow| row_cells(w)),
{
    docx_rs::Table::new(rows)
}

/// Calls `TableRow::new` with the cells.
#[verifier::external_body]
fn table_row_new(cells: Vec<docx_rs::TableCell>) -> (r: docx_rs::TableRow)
    ensures
        row_cells(r) == cells@.map_values(|c: docx_rs::TableCell| cell_paragraphs(c)),
{
    docx_rs::TableRow::new(cells)
}

/// Calls `TableCell::new`: an empty cell.
#[verifier::external_body]
fn table_cell_new() -> (c: docx_rs::TableCell)
    ensures
        cell_paragraphs(c) == Seq::<Seq<RunText>>::empty(),
{
    docx_rs::TableCell::new()
}

/// Calls `TableCell::add_paragraph`: the cell with the paragraph appended.
#[verifier::external_body]
fn table_cell_add_paragraph(c: docx_rs::TableCell, p: docx_rs::Paragraph) -> (d: docx_rs::TableCell)
    ensures
        cell_paragraphs(d) == cell_paragraphs(c).push(paragraph_runs(p)),
{
    c.add_paragraph(p)
}

/// A table row of a bold label cell and a plain value cell.
fn make_kv_row(label: &str, value: &str) -> (r: docx_rs::TableRow)
    ensures
        row_cells(r) == kv_row(label@, value@),
{
    let label_cell = table_cell_add_paragraph(table_cell_new(), bold_paragraph(label));
    let value_cell = table_cell_add_paragraph(table_cell_new(), plain_paragraph(value));
    let mut cells: Vec<docx_rs::TableCell> = Vec::new();
    cells.push(label_cell);
    cells.push(value_cell);
    let r = table_row_new(cells);
    proof {
        assert(cells@.map_values(|c: docx_rs::TableCell| cell_paragraphs(c)) =~= kv_row(label@, value@));
    }
    r
}

/// The customer's document: one body item per block of
/// [`customer_docx_blocks`], in order.
pub fn customer_document(report: &RecoveryReport) -> (d: docx_rs::Docx)
    requires
        bytes_sum(report.recovered@, false) <= u64::MAX,
    ensures
        docx_body(d) == document_items(customer_blocks(report.recovered@, string_seqs(report.wish_labels@))),
{
    let blocks = customer_docx_blocks(report);
    let ghost bv = blocks_view(blocks@);
    let mut doc = docx_new();
    let n = blocks.len();
    let mut i: usize = 0;
    while i < n
        invariant
            n == blocks@.len(),
            i <= n,
            bv == blocks_view(blocks@),
            docx_body(doc) == document_items(bv.take(i as int)),
        decreases n - i,
    {
        let ghost before = docx_body(doc);
        match &blocks[i] {
            DocBlock::Heading { text, size } => {
                doc = docx_add_paragraph(doc, bold_sized_paragraph(text.as_str(), *size));
            },
            DocBlock::Blank => {
                doc = docx_add_paragraph(doc, paragraph_new());
            },
            DocBlock::Table { rows } => {
                let mut trs: Vec<docx_rs::TableRow> = Vec::new();
                let m = rows.len();
                let mut j: usize = 0;
                while j < m
                    invariant
                        m == rows@.len(),
                        j <= m,
                        trs@.map_values(|w: docx_rs::TableRow| row_cells(w))
                            == rows@.take(j as int).map_values(|r: (String, String)| kv_row(r.0@, r.1@)),
                    decreases m - j,
                {
                    let row = make_kv_row(rows[j].0.as_str(), rows[j].1.as_str());
                    let ghost tb = trs@;
                    trs.push(row);
                    proof {
                        assert(trs@ == tb.push(row));
                        assert(rows@.take(j as int + 1) =~= rows@.take(j as int).push(rows@[j as int]));
                        assert(trs@.map_values(|w: docx_rs::TableRow| row_cells(w))
                            =~= tb.map_values(|w: docx_rs::TableRow| row_cells(w)).push(row_cells(row)));
                        assert(rows@.take(j as int + 1).map_values(|r: (String, String)| kv_row(r.0@, r.1@))
                            =~= rows@.take(j as int).map_values(|r: (String, String)| kv_row(r.0@, r.1@)).push(kv_row(rows@[j as int].0@, rows@[j as int].1@)));
                    }
                    j = j + 1;
                }
                proof {
                    assert(rows@.take(m as int) =~= rows@);
                    assert(rows@.map_values(|r: (String, String)| kv_row(r.0@, r.1@))
                        =~= rows@.map_values(|r: (String, String)| (r.0@, r.1@)).map_values(|r: (Seq<char>, Seq<char>)| kv_row(r.0, r.1)));
                }
                doc = docx_add_table(doc, table_new(trs));
            },
            DocBlock::Text { text } => {
                doc = docx_add_paragraph(doc, plain_paragraph(text.as_str()));
            },
        }
        proof {
            assert(bv[i as int] == block_view(blocks@[i as int]));
            assert(bv.take(i as int + 1) =~= bv.take(i as int).push(bv[i as int]));
            assert(document_items(bv.take(i as int + 1)) =~= document_items(bv.take(i as int)).push(block_item(bv[i as int])));
            assert(docx_body(doc) =~= before.push(block_item(bv[i as int])));
        }
        i = i + 1;
    }
    proof {
        assert(bv.take(n as int) =~= bv);
    }
    doc
}

/// The customer's report as a `.docx` archive: [`customer_document`]
/// packed, a ZIP archive. A failure to pack the archive is `Template` with
/// `docx pack error: ` and the cause; it comes only when the parts built for
/// the document hold more than 2 GiB in all.
pub fn render_customer_docx(report: &RecoveryReport) -> (r: Result<Vec<u8>, ReportError>)
    requires
        bytes_sum(report.recovered@, false) <= u64::MAX,
    ensures
        r matches Ok(b) ==> b@.len() >= 4 && b@.take(4) == zip_signature(),
        body_xml_ok(document_items(customer_blocks(report.recovered@, string_seqs(report.wish_labels@))))
            ==> (r matches Ok(b) ==> archived_document_body(b@) == Some(document_items(customer_blocks(report.recovered@, string_seqs(report.wish_labels@))))),
        r matches Err(e) ==> (e matches ReportError::Template(m)
            && exists|cause: Seq<char>| m@ == "docx pack error: "@ + cause),
        r is Err ==> exists|x: docx_rs::XMLDocx| #[trigger] xml_parts_size(x) > 0x8000_0000
            && (body_xml_ok(document_items(customer_blocks(report.recovered@, string_seqs(report.wish_labels@))))
                ==> xml_document_body(x) == document_items(customer_blocks(report.recovered@, string_seqs(report.wish_labels@)))),
{
    let doc = customer_document(report);
    let built = docx_build(doc);
    let ghost parts = built;
    match xml_docx_pack(built) {
        Ok(bytes) => Ok(bytes),
        Err(cause) => {
            proof {
                assert(xml_parts_size(parts) > 0x8000_0000);
            }
            let mut m = String::from_str("docx pack error: ");
            push_str(&mut m, cause.as_str());
            Err(ReportError::Template(m))
        },
    }
}

} // verus!
