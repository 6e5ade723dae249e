//! Metadata about an asset.

use vstd::prelude::*;

verus! {

/// Metadata about an asset.
#[derive(Clone, Debug)]
pub struct Asset {
    /// A copyright message suitable for display to credit the content creator.
    pub copyright: Option<String>,
    /// The tool that generated this asset.
    pub generator: Option<String>,
    /// The version of the interchange format this asset targets.
    pub version: String,
    /// The minimum version of the format this asset requires.
    pub min_version: Option<String>,
}

} // verus!
