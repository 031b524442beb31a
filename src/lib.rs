//! Turns `Cargo.lock` package lists into aligned `cargo.crates` blocks.

pub mod archive;
pub mod cli;
pub mod error;
pub mod format;
pub mod lockfile;
pub mod merge;
pub mod package;
pub mod source;

pub use archive::{extract_cargo_lock_from_pkg, find_manifest_entry, path_names_manifest};
pub use cli::{classify_arg, scan_args, ArgKind, CliPlan};
pub use error::Error;
pub use format::{format_cargo_crates, formatted_block, AlignmentMode};
pub use lockfile::lockfile_from_str;
pub use merge::{dedup_checksummed, resolve_lockfile_packages};
pub use package::Package;
pub use source::{
    classify_source, lockfile_from_crate_archive, parse_crate_spec, SourceKind, DEFAULT_SOURCE,
};
