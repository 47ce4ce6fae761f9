//! Reports of a recovery run: the customer's list of files to check, the CSV
//! for other systems and the customer's Word document.

pub mod error;
pub mod escape;
pub mod format;
pub mod docx_customer;
pub mod txt_customer;
pub mod csv;
pub mod paths;
pub mod html_internal;
