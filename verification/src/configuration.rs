//! The versions of the connector configuration.
use vstd::prelude::*;

verus! {

/// The version of a configuration.
#[derive(Debug, Copy, Clone, PartialEq, Eq, Structural)]
pub enum VersionTag {
    Version3,
    Version4,
    Version5,
}

} // verus!
