//! Reading the document model of an EPUB archive: metadata, chapters, table of
//! contents and content files.

use vstd::prelude::*;

pub mod archive;
pub mod chapters;
pub mod cover;
pub mod epub;
pub mod error;
pub mod files;
pub mod model;
pub mod navigation;
pub mod outline;
pub mod package;
pub mod path;
pub mod scan;
pub mod text;

pub use epub::Epub;

verus! {

/// The sum of two numbers that fits in 64 bits.
pub fn add(left: u64, right: u64) -> (sum: u64)
    requires
        left + right <= u64::MAX,
    ensures
        sum == left + right,
{
    left + right
}

} // verus!
