//! The order of versions: by major, then minor, then revision.

use core::cmp::Ordering;
use vstd::prelude::*;
use crate::version::Version;

verus! {

impl Version {
    /// Whether `self` is the lower version: the first component in which the
    /// two differ, taken in the order major, minor, revision, is smaller in
    /// `self`.
    pub open spec fn precedes(self, other: Version) -> bool {
        ||| self.major < other.major
        ||| self.major == other.major && self.minor < other.minor
        ||| self.major == other.major && self.minor == other.minor && self.revision
            < other.revision
    }

    /// How `self` stands to `other` in the order of versions.
    pub open spec fn ordering(self, other: Version) -> Ordering {
        if self.precedes(other) {
            Ordering::Less
        } else if other.precedes(self) {
            Ordering::Greater
        } else {
            Ordering::Equal
        }
    }

    /// Compares two versions by major, then minor, then revision.
    pub fn compare(&self, other: &Version) -> (o: Ordering)
        ensures
            o == self.ordering(*other),
    {
        match self.major.cmp(&other.major) {
            Ordering::Equal => match self.minor.cmp(&other.minor) {
                Ordering::Equal => self.revision.cmp(&other.revision),
                o => o,
            },
            o => o,
        }
    }
}

impl PartialOrd for Version {
    fn partial_cmp(&self, other: &Version) -> (o: Option<Ordering>) {
        Some(self.compare(other))
    }
}

impl vstd::std_specs::cmp::PartialOrdSpecImpl for Version {
    open spec fn obeys_partial_cmp_spec() -> bool {
        true
    }

    open spec fn partial_cmp_spec(&self, other: &Version) -> Option<Ordering> {
        Some(self.ordering(*other))
    }
}

/// Of two versions exactly one holds: the first is lower, they are equal, or
/// the second is lower.
pub proof fn lemma_order_is_total(x: Version, y: Version)
    ensures
        x.precedes(y) || x == y || y.precedes(x),
        !(x.precedes(y) && x == y),
        !(x.precedes(y) && y.precedes(x)),
        !(x == y && y.precedes(x)),
        x.ordering(y) == Ordering::Less <==> x.precedes(y),
        x.ordering(y) == Ordering::Equal <==> x == y,
        x.ordering(y) == Ordering::Greater <==> y.precedes(x),
{
}

/// A version lower than a second, which is lower than a third, is lower than
/// the third.
pub proof fn lemma_order_is_transitive(x: Version, y: Version, z: Version)
    requires
        x.precedes(y),
        y.precedes(z),
    ensures
        x.precedes(z),
{
}

} // verus!
