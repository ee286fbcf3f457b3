//! The version value and its field-update copies.

use vstd::prelude::*;

verus! {

/// A version number made of three unsigned components.
///
/// Any combination of components is a valid version. Two versions are equal
/// exactly when all three components are equal.
#[derive(PartialEq, Eq, Structural, Ord, Debug)]
pub struct Version {
    pub major: u32,
    pub minor: u32,
    pub revision: u32,
}

impl Clone for Version {
    fn clone(&self) -> (copy: Self)
        ensures
            copy == *self,
    {
        Version { major: self.major, minor: self.minor, revision: self.revision }
    }
}

impl Version {
    /// Creates a version from its three components.
    pub fn new(major: u32, minor: u32, revision: u32) -> (v: Self)
        ensures
            v == (Version { major, minor, revision }),
    {
        Version { major, minor, revision }
    }

    /// Copies the version, replacing the major number.
    pub fn with_major(&self, major: u32) -> (v: Self)
        ensures
            v == (Version { major, minor: self.minor, revision: self.revision }),
    {
        Version { major, minor: self.minor, revision: self.revision }
    }

    /// Copies the version, replacing the minor number.
    pub fn with_minor(&self, minor: u32) -> (v: Self)
        ensures
            v == (Version { major: self.major, minor, revision: self.revision }),
    {
        Version { major: self.major, minor, revision: self.revision }
    }

    /// Copies the version, replacing the revision number.
    pub fn with_revision(&self, revision: u32) -> (v: Self)
        ensures
            v == (Version { major: self.major, minor: self.minor, revision }),
    {
        Version { major: self.major, minor: self.minor, revision }
    }
}

} // verus!
