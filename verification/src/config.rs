//! The configuration values the core consumes: attribute-key renames and the
//! resolved file-import parameters. Loading and merging configuration from
//! files, environment and command line is the unverified rim's concern; the
//! core only receives the resolved values.

use vstd::prelude::*;

verus! {

/// Declares `std::path::PathBuf` so the import parameters can carry trace
/// directory paths; the core never reads inside one.
#[verifier::external_type_specification]
#[verifier::external_body]
pub struct ExPathBuf(std::path::PathBuf);

/// One attribute-key rename: occurrences of the original key are imported
/// under the new key.
#[derive(Clone, PartialEq, Eq, Debug, Default)]
pub struct AttrKeyRename {
    /// The attr key to rename.
    pub original: String,
    /// The new attr key name to use.
    pub new: String,
}

/// The resolved parameters of a file-based import.
#[derive(Clone, PartialEq, Eq, Debug, Default)]
pub struct ImportConfig {
    /// Overrides the name of the trace object the decoder creates.
    pub trace_name: Option<String>,
    /// Nanoseconds added to the offset of every clock class.
    pub clock_class_offset_ns: Option<i64>,
    /// Seconds added to the offset of every clock class.
    pub clock_class_offset_s: Option<i64>,
    /// Forces every clock class origin to the Unix epoch.
    pub force_clock_class_origin_unix_epoch: Option<bool>,
    /// The trace directories to import.
    pub inputs: Vec<std::path::PathBuf>,
}

} // verus!
