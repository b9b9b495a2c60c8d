//! The failure conditions of hive decoding and navigation.

use vstd::prelude::*;

verus! {

/// Every way a decode or lookup step can fail.  All are terminal: no
/// component retries, and each caller passes the first failure on unchanged.
#[derive(Clone, Copy, Debug, PartialEq, Eq, Structural)]
pub enum HiveError {
    /// Fewer bytes are available than a fixed- or declared-length read needs.
    Truncated,
    /// A required signature or tag does not match its expected magic.
    MalformedRecord,
    /// The file header's format flag is not the one supported mode.
    UnsupportedFormat,
    /// A name field's bytes do not decode under their declared encoding.
    InvalidText,
    /// No subkey of the requested name exists under the key node.
    SubkeyNotFound,
    /// No value of the requested name exists under the key node.
    ValueNotFound,
    /// The key node's value-list offset is the all-ones sentinel.
    ValueListAbsent,
    /// A subkey-list tag outside the four recognized encodings.
    UnsupportedListType,
}

} // verus!
