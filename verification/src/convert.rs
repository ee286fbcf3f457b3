//! Versions from integers and from tuples of integers.
//!
//! Any integer of 8 to 64 bits, signed or unsigned, can stand for a
//! component. A value that lies in `0 ..= u32::MAX` is kept as it is; any
//! other is wrapped into that range by dropping all but its low 32 bits, as
//! a cast to `u32` does.

use vstd::prelude::*;
use vstd::std_specs::convert::FromSpecImpl;
use crate::version::Version;

verus! {

/// The component that stands for the integer `n`: `n` itself where it lies
/// in `0 ..= u32::MAX`, and else the one value in that range that differs
/// from `n` by a multiple of 2^32.
pub open spec fn wrap(n: int) -> u32 {
    (n % 0x1_0000_0000) as u32
}

/// An integer type whose values can stand for a version component.
pub trait Component: Sized {
    /// The integer that `self` holds.
    spec fn value(self) -> int;

    /// The component for `self`: its value, wrapped into 32 bits.
    fn component(self) -> (c: u32)
        ensures
            c == wrap(self.value()),
    ;
}

impl Component for u8 {
    open spec fn value(self) -> int {
        self as int
    }

    fn component(self) -> (c: u32) {
        self as u32
    }
}

impl Component for u16 {
    open spec fn value(self) -> int {
        self as int
    }

    fn component(self) -> (c: u32) {
        self as u32
    }
}

impl Component for u32 {
    open spec fn value(self) -> int {
        self as int
    }

    fn component(self) -> (c: u32) {
        self
    }
}

impl Component for u64 {
    open spec fn value(self) -> int {
        self as int
    }

    fn component(self) -> (c: u32) {
        let c = #[verifier::truncate] (self as u32);
        assert(c == self % 0x1_0000_0000) by (bit_vector)
            requires
                c == self as u32,
        ;
        c
    }
}

impl Component for usize {
    open spec fn value(self) -> int {
        self as int
    }

    fn component(self) -> (c: u32) {
        (self as u64).component()
    }
}

impl Component for i8 {
    open spec fn value(self) -> int {
        self as int
    }

    fn component(self) -> (c: u32) {
        (self as i32).component()
    }
}

impl Component for i16 {
    open spec fn value(self) -> int {
        self as int
    }

    fn component(self) -> (c: u32) {
        (self as i32).component()
    }
}

impl Component for i32 {
    open spec fn value(self) -> int {
        self as int
    }

    fn component(self) -> (c: u32) {
        let c = #[verifier::truncate] (self as u32);
        assert(self >= 0 ==> c == self) by (bit_vector)
            requires
                c == self as u32,
        ;
        assert(self < 0 ==> c == self + 0x1_0000_0000) by (bit_vector)
            requires
                c == self as u32,
        ;
        c
    }
}

impl Component for i64 {
    open spec fn value(self) -> int {
        self as int
    }

    fn component(self) -> (c: u32) {
        let c = #[verifier::truncate] (self as u32);
        assert(c == (self as int) % 0x1_0000_0000) by (bit_vector)
            requires
                c == self as u32,
        ;
        c
    }
}

impl Component for isize {
    open spec fn value(self) -> int {
        self as int
    }

    fn component(self) -> (c: u32) {
        (self as i64).component()
    }
}

impl<N: Component> From<N> for Version {
    /// The version with the major number `elem`, and minor and revision zero.
    fn from(elem: N) -> (v: Version) {
        Version { major: elem.component(), minor: 0, revision: 0 }
    }
}

impl<N: Component> FromSpecImpl<N> for Version {
    open spec fn obeys_from_spec() -> bool {
        true
    }

    open spec fn from_spec(elem: N) -> Version {
        Version { major: wrap(elem.value()), minor: 0, revision: 0 }
    }
}

impl<N: Component> From<(N, N)> for Version {
    /// The version with the major and minor numbers of `elem`, and revision
    /// zero.
    fn from(elem: (N, N)) -> (v: Version) {
        Version { major: elem.0.component(), minor: elem.1.component(), revision: 0 }
    }
}

impl<N: Component> FromSpecImpl<(N, N)> for Version {
    open spec fn obeys_from_spec() -> bool {
        true
    }

    open spec fn from_spec(elem: (N, N)) -> Version {
        Version { major: wrap(elem.0.value()), minor: wrap(elem.1.value()), revision: 0 }
    }
}

impl<N: Component> From<(N, N, N)> for Version {
    /// The version with the major, minor and revision numbers of `elem`.
    fn from(elem: (N, N, N)) -> (v: Version) {
        Version {
            major: elem.0.component(),
            minor: elem.1.component(),
            revision: elem.2.component(),
        }
    }
}

impl<N: Component> FromSpecImpl<(N, N, N)> for Version {
    open spec fn obeys_from_spec() -> bool {
        true
    }

    open spec fn from_spec(elem: (N, N, N)) -> Version {
        Version {
            major: wrap(elem.0.value()),
            minor: wrap(elem.1.value()),
            revision: wrap(elem.2.value()),
        }
    }
}

/// Wrapping keeps a value that already fits a component.
pub proof fn lemma_wrap_keeps(n: int)
    requires
        0 <= n <= u32::MAX,
    ensures
        wrap(n) == n,
{
}

/// Wrapping gives the one component that differs from the value by a
/// multiple of 2^32.
pub proof fn lemma_wrap_is_congruent(n: int)
    ensures
        (n - wrap(n)) % 0x1_0000_0000 == 0,
{
}

/// Converting a `u32` gives the version that `new` builds from it and two
/// zeros; a pair, from its two numbers and a zero; a triple, from its three
/// numbers.
pub proof fn lemma_from_is_new(a: u32, b: u32, c: u32)
    ensures
        <Version as vstd::std_specs::convert::FromSpec<u32>>::from_spec(a) == (Version {
            major: a,
            minor: 0,
            revision: 0,
        }),
        <Version as vstd::std_specs::convert::FromSpec<(u32, u32)>>::from_spec((a, b)) == (Version {
            major: a,
            minor: b,
            revision: 0,
        }),
        <Version as vstd::std_specs::convert::FromSpec<(u32, u32, u32)>>::from_spec((a, b, c))
            == (Version { major: a, minor: b, revision: c }),
{
}

} // verus!
