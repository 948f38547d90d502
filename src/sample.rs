//! The sample capability and the stereo sample.

use vstd::prelude::*;

verus! {

/// One instant of audio for a fixed channel layout, with the arithmetic the
/// graph nodes combine samples with.
pub trait Sample: Copy {
    /// The silence value: the additive identity.
    fn equilibrium() -> Self;

    /// The value one, in every channel.
    fn unit() -> Self;

    fn plus(self, rhs: Self) -> Self;

    fn minus(self, rhs: Self) -> Self;

    fn times(self, rhs: Self) -> Self;

    fn over(self, rhs: Self) -> Self;
}

/// A two-channel sample.
#[derive(Clone, Copy, Default, PartialEq)]
pub struct Stereo<T> {
    pub left: T,
    pub right: T,
}

impl<T: Copy> Stereo<T> {
    /// Both channels set to `v`.
    pub fn both(v: T) -> (r: Stereo<T>)
        ensures
            r.left == v,
            r.right == v,
    {
        Stereo { left: v, right: v }
    }
}

impl<T: Sample> Sample for Stereo<T> {
    fn equilibrium() -> Stereo<T> {
        Stereo { left: T::equilibrium(), right: T::equilibrium() }
    }

    fn unit() -> Stereo<T> {
        Stereo { left: T::unit(), right: T::unit() }
    }

    fn plus(self, rhs: Stereo<T>) -> Stereo<T> {
        Stereo { left: self.left.plus(rhs.left), right: self.right.plus(rhs.right) }
    }

    fn minus(self, rhs: Stereo<T>) -> Stereo<T> {
        Stereo { left: self.left.minus(rhs.left), right: self.right.minus(rhs.right) }
    }

    fn times(self, rhs: Stereo<T>) -> Stereo<T> {
        Stereo { left: self.left.times(rhs.left), right: self.right.times(rhs.right) }
    }

    fn over(self, rhs: Stereo<T>) -> Stereo<T> {
        Stereo { left: self.left.over(rhs.left), right: self.right.over(rhs.right) }
    }
}

} // verus!
