//! The error of building a report.

use vstd::prelude::*;
use vstd::string::StringExecFns;
use crate::text::push_str;

verus! {

#[verifier::external_type_specification]
#[verifier::external_body]
pub struct ExCsvError(csv::Error);

/// What can go wrong while a report is built or written.
#[derive(Debug)]
pub enum ReportError {
    /// Writing a file or creating a directory failed.
    Io(std::io::Error),
    /// The CSV writer failed.
    Csv(csv::Error),
    /// The document could not be put together (bad UTF-8, packing failed).
    Template(String),
}

/// Calls `std::io::Error`'s `Display`: the text of the error.
#[verifier::external_body]
pub(crate) fn io_error_text(e: &std::io::Error) -> (r: String)
{
    e.to_string()
}

/// Calls `csv::Error`'s `Display`: the text of the error.
#[verifier::external_body]
fn csv_error_text(e: &csv::Error) -> (r: String)
{
    e.to_string()
}

impl ReportError {
    /// The message of the error: `I/O error: ..`, `CSV error: ..` or
    /// `Template rendering error: ..` followed by the cause.
    pub fn message(&self) -> (r: String)
        ensures
            self is Io ==> exists|cause: Seq<char>| r@ == "I/O error: "@ + cause,
            self is Csv ==> exists|cause: Seq<char>| r@ == "CSV error: "@ + cause,
            self matches ReportError::Template(t) ==> r@ == "Template rendering error: "@ + t@,
    {
        match self {
            ReportError::Io(e) => {
                let mut s = String::from_str("I/O error: ");
                let cause = io_error_text(e);
                push_str(&mut s, cause.as_str());
                s
            },
            ReportError::Csv(e) => {
                let mut s = String::from_str("CSV error: ");
                let cause = csv_error_text(e);
                push_str(&mut s, cause.as_str());
                s
            },
            ReportError::Template(t) => {
                let mut s = String::from_str("Template rendering error: ");
                push_str(&mut s, t.as_str());
                s
            },
        }
    }
}

impl From<std::io::Error> for ReportError {
    fn from(e: std::io::Error) -> (r: ReportError) {
        ReportError::Io(e)
    }
}

impl vstd::std_specs::convert::FromSpecImpl<std::io::Error> for ReportError {
    open spec fn obeys_from_spec() -> bool {
        true
    }

    open spec fn from_spec(e: std::io::Error) -> ReportError {
        ReportError::Io(e)
    }
}

impl From<csv::Error> for ReportError {
    fn from(e: csv::Error) -> (r: ReportError) {
        ReportError::Csv(e)
    }
}

impl vstd::std_specs::convert::FromSpecImpl<csv::Error> for ReportError {
    open spec fn obeys_from_spec() -> bool {
        true
    }

    open spec fn from_spec(e: csv::Error) -> ReportError {
        ReportError::Csv(e)
    }
}

} // verus!
