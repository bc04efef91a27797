//! The error taxonomy of the packaging pipeline.

use vstd::prelude::*;
use vstd::string::StringExecFns;

verus! {

/// What can go wrong while a package is assembled or saved.
///
/// Every failure is terminal for the current invocation: no partial package
/// is ever produced alongside one of these.
#[derive(Debug)]
pub enum NugetError {
    /// A binary artifact could not be read; holds the path that failed.
    Io(String),
    /// The archive could not be built or finalized.
    Archive,
}

impl NugetError {
    /// A short human-readable account of the error.
    pub fn describe(&self) -> (s: String)
        ensures
            self matches NugetError::Io(p) ==> s@ == "could not read binary at "@ + p@,
            self is Archive ==> s@ == "could not build the package archive"@,
    {
        match self {
            NugetError::Io(p) => {
                let mut s: String = String::from_str("could not read binary at ");
                s.append(p.as_str());
                s
            },
            NugetError::Archive => String::from_str("could not build the package archive"),
        }
    }
}

} // verus!
