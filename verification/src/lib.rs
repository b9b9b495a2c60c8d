//! Verified reader for the Windows registry hive binary format.
//!
//! The library decodes the on-disk records of a hive image held in memory
//! (file header, key nodes, value records, the four subkey-list encodings,
//! and the segmented large-value format) and walks them to locate a named
//! value under a key path.  Every decoder is specified by a total spec
//! function over the byte sequence, and each executable function is proved
//! to return exactly what its spec function says.

pub mod error;
pub mod hive;
pub mod list;
pub mod name;
pub mod raw;
pub mod record;
pub mod value;

pub use error::HiveError;
