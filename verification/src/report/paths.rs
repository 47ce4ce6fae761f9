//! Where the written reports went.

use vstd::prelude::*;
use std::path::PathBuf;

verus! {

/// The four files written by the report writer: the customer's Word report
/// (`report_customer.docx`), the customer's list of files to check
/// (`recovered_files.txt`), the staff HTML report (`report_internal.html`)
/// and the CSV (`report.csv`).
#[derive(Debug, Clone)]
pub struct ReportPaths {
    pub customer_docx: PathBuf,
    pub invalid_txt: PathBuf,
    pub internal_html: PathBuf,
    pub csv: PathBuf,
}

/// The three business reports: the customer's Word report on the delivery
/// drive, the staff HTML report and the CSV (with a UTF-8 byte order mark)
/// in the company's storage.
#[derive(Debug, Clone)]
pub struct BusinessReportPaths {
    pub customer_docx: PathBuf,
    pub internal_html: PathBuf,
    pub csv: PathBuf,
}

} // verus!
