//! Read-only NTFS reader, recovery planning and report building for a data
//! recovery workbench.

pub mod le;
pub mod text;
pub mod grouping;
pub mod boot_sector;
pub mod fixup;
pub mod mft;
pub mod attribute;
pub mod time;
pub mod attributes;
pub mod volume;
pub mod path;
pub mod file;
pub mod recovery;
pub mod report;
