//! The ways in which reading a publication fails.

use vstd::prelude::*;
use vstd::string::StringExecFns;

verus! {

/// Why a publication could not be read. Each names the step that failed;
/// nothing is returned of a publication whose reading failed.
#[derive(Debug, Clone, Copy, PartialEq, Eq, Structural)]
pub enum EpubError {
    /// The archive cannot be opened, or holds no readable container
    /// locator at `META-INF/container.xml`.
    MissingContainer,
    /// The container locator does not have the form of one.
    MalformedContainer,
    /// The container locator names no package document.
    NoRootFile,
    /// The archive holds no readable package document at the path that the
    /// container locator names.
    MissingPackage,
    /// The package document does not have the form of one.
    MalformedPackage,
}

impl EpubError {
    /// What the error says, as text.
    pub open spec fn text(self) -> Seq<char> {
        match self {
            EpubError::MissingContainer => "container locator is missing or unreadable"@,
            EpubError::MalformedContainer => "container locator is malformed"@,
            EpubError::NoRootFile => "container locator names no package document"@,
            EpubError::MissingPackage => "package document is missing or unreadable"@,
            EpubError::MalformedPackage => "package document is malformed"@,
        }
    }

    /// A sentence that describes the error.
    pub fn message(&self) -> (r: String)
        ensures
            r@ == self.text(),
    {
        match self {
            EpubError::MissingContainer => String::from_str(
                "container locator is missing or unreadable",
            ),
            EpubError::MalformedContainer => String::from_str("container locator is malformed"),
            EpubError::NoRootFile => String::from_str(
                "container locator names no package document",
            ),
            EpubError::MissingPackage => String::from_str(
                "package document is missing or unreadable",
            ),
            EpubError::MalformedPackage => String::from_str("package document is malformed"),
        }
    }
}

} // verus!
