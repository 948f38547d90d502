//! Complex numbers and wavetables over a sample type.

use vstd::prelude::*;

use crate::sample::Sample;

verus! {

/// A complex number over a sample type.
#[derive(Clone, Copy, PartialEq)]
pub struct Complex<F> {
    pub real: F,
    pub imaginary: F,
}

pub fn complex<F>(re: F, im: F) -> (r: Complex<F>)
    ensures
        r.real == re,
        r.imaginary == im,
{
    Complex { real: re, imaginary: im }
}

impl<F> Complex<F> {
    pub fn from(re: F, im: F) -> (r: Complex<F>)
        ensures
            r.real == re,
            r.imaginary == im,
    {
        Complex { real: re, imaginary: im }
    }
}

impl<F: Sample> Complex<F> {
    /// Zero in both parts.
    pub fn new() -> (r: Complex<F>)
        ensures
            call_ensures(F::equilibrium, (), r.real),
            call_ensures(F::equilibrium, (), r.imaginary),
    {
        Complex { real: F::equilibrium(), imaginary: F::equilibrium() }
    }
}

impl<F: Sample> Complex<F> {
    /// The parts `ac + bd` and `ad + bc` of the operands `a + bi` and `c + di`.
    pub fn times(self, rhs: Complex<F>) -> (r: Complex<F>)
        ensures
            exists|ac: F, bd: F|
                call_ensures(F::times, (self.real, rhs.real), ac) && call_ensures(
                    F::times,
                    (self.imaginary, rhs.imaginary),
                    bd,
                ) && call_ensures(F::plus, (ac, bd), r.real),
            exists|ad: F, bc: F|
                call_ensures(F::times, (self.real, rhs.imaginary), ad) && call_ensures(
                    F::times,
                    (self.imaginary, rhs.real),
                    bc,
                ) && call_ensures(F::plus, (ad, bc), r.imaginary),
    {
        let ac = self.real.times(rhs.real);
        let adi = self.real.times(rhs.imaginary);
        let bci = self.imaginary.times(rhs.real);
        let bd = self.imaginary.times(rhs.imaginary);
        let r = Complex { real: ac.plus(bd), imaginary: adi.plus(bci) };
        assert(call_ensures(F::times, (self.real, rhs.real), ac) && call_ensures(
            F::times,
            (self.imaginary, rhs.imaginary),
            bd,
        ) && call_ensures(F::plus, (ac, bd), r.real));
        assert(call_ensures(F::times, (self.real, rhs.imaginary), adi) && call_ensures(
            F::times,
            (self.imaginary, rhs.real),
            bci,
        ) && call_ensures(F::plus, (adi, bci), r.imaginary));
        r
    }

    pub fn plus(self, rhs: Complex<F>) -> (r: Complex<F>)
        ensures
            call_ensures(F::plus, (self.real, rhs.real), r.real),
            call_ensures(F::plus, (self.imaginary, rhs.imaginary), r.imaginary),
    {
        Complex { real: self.real.plus(rhs.real), imaginary: self.imaginary.plus(rhs.imaginary) }
    }
}

/// Sixteen single-cycle tables of `C` points each.
pub struct Wavetable<F, const C: usize> {
    pub table: Vec<[F; C]>,
}

impl<F: Sample, const C: usize> Wavetable<F, C> {
    /// Sixteen silent tables.
    pub fn new() -> (r: Wavetable<F, C>)
        ensures
            r.table@.len() == 16,
            forall|k: int, i: int|
                0 <= k < 16 && 0 <= i < C ==> call_ensures(F::equilibrium, (), #[trigger] r.table@[k]@[i]),
    {
        let z = F::equilibrium();
        let row = [z; C];
        assert(forall|i: int| 0 <= i < C ==> row@[i] == z);
        let mut table: Vec<[F; C]> = Vec::new();
        let mut i: usize = 0;
        while i < 16
            invariant
                i <= 16,
                table@.len() == i,
                forall|k: int| 0 <= k < i ==> table@[k] == row,
            decreases 16 - i,
        {
            table.push(row);
            i = i + 1;
        }
        Wavetable { table }
    }
}

impl<F, const C: usize> Wavetable<F, C> {
    /// The number of points in each table.
    pub fn len(&self) -> (r: usize)
        ensures
            r == C,
    {
        C
    }
}

} // verus!
