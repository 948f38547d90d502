//! Signal-graph capabilities and their static combinators.

use vstd::prelude::*;

use crate::buffer::Buffer;
use crate::sample::Sample;

verus! {

/// A node with no input that yields one value per call.
pub trait Generator {
    type Output;

    fn reset(&mut self);

    fn prepare(&mut self, sample_rate: u32, block_size: usize);

    fn generate(&mut self) -> Self::Output;
}

/// A node that turns one input value into one output value per call.
pub trait Processor {
    type Input;

    type Output;

    fn reset(&mut self);

    fn prepare(&mut self, sample_rate: u32, block_size: usize);

    fn process(&mut self, input: Self::Input) -> Self::Output;
}

/// One call of `generate`.
pub fn generate_once<G: Generator>(generator: &mut G) -> (r: G::Output)
    ensures
        exists|m: &mut G|
            #![trigger call_ensures(G::generate, (m,), r)]
            mut_ref_current(m) == *old(generator) && mut_ref_future(m) == *final(generator) && call_ensures(
                G::generate,
                (m,),
                r,
            ),
{
    generator.generate()
}

/// One call of `process`.
pub fn process_once<P: Processor>(processor: &mut P, input: P::Input) -> (r: P::Output)
    ensures
        exists|m: &mut P|
            #![trigger call_ensures(P::process, (m, input), r)]
            mut_ref_current(m) == *old(processor) && mut_ref_future(m) == *final(processor)
                && call_ensures(P::process, (m, input), r),
{
    processor.process(input)
}

/// Fills `output` by calling `generator.generate()` once per item, in index order.
pub fn generate_block<G: Generator>(generator: &mut G, output: &mut Buffer<G::Output>)
    ensures
        final(output)@.len() == old(output)@.len(),
{
    let n = output.len();
    let mut i: usize = 0;
    while i < n
        invariant
            i <= n,
            n == output@.len(),
        decreases n - i,
    {
        let v = generate_once(generator);
        output.set(i, v);
        i = i + 1;
    }
}

/// Fills `output` by calling `processor.process` once per item, in index order,
/// on the item of `input` at the same index. Items beyond the shorter buffer are
/// left alone.
pub fn process_block<P: Processor>(
    processor: &mut P,
    input: &Buffer<P::Input>,
    output: &mut Buffer<P::Output>,
) where P::Input: Copy
    ensures
        final(output)@.len() == old(output)@.len(),
        forall|i: int|
            input@.len() <= i < old(output)@.len() ==> final(output)@[i] == old(output)@[i],
{
    let n = output.len();
    let m = if input.len() < n {
        input.len()
    } else {
        n
    };
    let mut i: usize = 0;
    while i < m
        invariant
            i <= m,
            m <= n,
            m <= input@.len(),
            m == n || m == input@.len(),
            n == output@.len(),
            n == old(output)@.len(),
            forall|k: int| input@.len() <= k < n ==> output@[k] == old(output)@[k],
        decreases m - i,
    {
        let x = *input.get(i);
        let v = process_once(processor, x);
        output.set(i, v);
        i = i + 1;
    }
}

/// A node handle for building graphs by composition.
#[derive(Clone, Copy)]
pub struct AudioNode<P>(pub P);

impl<G: Generator> Generator for AudioNode<G> {
    type Output = G::Output;

    fn reset(&mut self) {
    }

    fn prepare(&mut self, sample_rate: u32, block_size: usize) {
    }

    fn generate(&mut self) -> (r: G::Output)
        ensures
            exists|m: &mut G|
                #![trigger call_ensures(G::generate, (m,), r)]
                mut_ref_current(m) == old(self).0 && mut_ref_future(m) == final(self).0
                    && call_ensures(G::generate, (m,), r),
    {
        generate_once(&mut self.0)
    }
}

impl<P: Processor> Processor for AudioNode<P> {
    type Input = P::Input;

    type Output = P::Output;

    fn reset(&mut self) {
    }

    fn prepare(&mut self, sample_rate: u32, block_size: usize) {
        self.0.prepare(sample_rate, block_size);
    }

    fn process(&mut self, input: P::Input) -> (r: P::Output)
        ensures
            exists|m: &mut P|
                #![trigger call_ensures(P::process, (m, input), r)]
                mut_ref_current(m) == old(self).0 && mut_ref_future(m) == final(self).0
                    && call_ensures(P::process, (m, input), r),
    {
        process_once(&mut self.0, input)
    }
}

/// Serial composition: the output of the first node feeds the second.
#[derive(Clone, Copy)]
pub struct Chain<P1, P2>(pub P1, pub P2);

pub fn chain<A: Processor, B: Processor<Input = A::Output>>(first: A, second: B) -> (r: AudioNode<
    Chain<A, B>,
>)
    ensures
        r.0.0 == first,
        r.0.1 == second,
{
    AudioNode(Chain(first, second))
}

impl<P1: Processor, P2: Processor<Input = P1::Output>> Processor for Chain<P1, P2> {
    type Input = P1::Input;

    type Output = P2::Output;

    fn reset(&mut self) {
    }

    fn prepare(&mut self, sample_rate: u32, block_size: usize) {
        self.0.prepare(sample_rate, block_size);
        self.1.prepare(sample_rate, block_size);
    }

    /// The second node's result on the first node's result, one call each.
    fn process(&mut self, input: P1::Input) -> (r: P2::Output)
        ensures
            exists|mid: P1::Output, m1: &mut P1, m2: &mut P2|
                #![trigger call_ensures(P1::process, (m1, input), mid), call_ensures(P2::process, (m2, mid), r)]
                {
                    &&& mut_ref_current(m1) == old(self).0
                    &&& mut_ref_future(m1) == final(self).0
                    &&& call_ensures(P1::process, (m1, input), mid)
                    &&& mut_ref_current(m2) == old(self).1
                    &&& mut_ref_future(m2) == final(self).1
                    &&& call_ensures(P2::process, (m2, mid), r)
                },
    {
        let between = process_once(&mut self.0, input);
        process_once(&mut self.1, between)
    }
}

impl<G: Generator, P: Processor<Input = G::Output>> Generator for Chain<G, P> {
    type Output = P::Output;

    fn reset(&mut self) {
    }

    fn prepare(&mut self, sample_rate: u32, block_size: usize) {
    }

    /// The processor's result on the generator's output, one call each.
    fn generate(&mut self) -> (r: P::Output)
        ensures
            exists|mid: G::Output, m1: &mut G, m2: &mut P|
                #![trigger call_ensures(G::generate, (m1,), mid), call_ensures(P::process, (m2, mid), r)]
                {
                    &&& mut_ref_current(m1) == old(self).0
                    &&& mut_ref_future(m1) == final(self).0
                    &&& call_ensures(G::generate, (m1,), mid)
                    &&& mut_ref_current(m2) == old(self).1
                    &&& mut_ref_future(m2) == final(self).1
                    &&& call_ensures(P::process, (m2, mid), r)
                },
    {
        let between = generate_once(&mut self.0);
        process_once(&mut self.1, between)
    }
}

/// Independent composition over a pair: each side sees its own half of the input.
#[derive(Clone, Copy)]
pub struct Parallel<A, B>(pub A, pub B);

pub fn parallel<A: Processor, B: Processor>(first: A, second: B) -> (r: AudioNode<Parallel<A, B>>)
    ensures
        r.0.0 == first,
        r.0.1 == second,
{
    AudioNode(Parallel(first, second))
}

impl<A: Processor, B: Processor> Processor for Parallel<A, B> {
    type Input = (A::Input, B::Input);

    type Output = (A::Output, B::Output);

    fn reset(&mut self) {
    }

    fn prepare(&mut self, sample_rate: u32, block_size: usize) {
        self.0.prepare(sample_rate, block_size);
        self.1.prepare(sample_rate, block_size);
    }

    /// Each side's result on its own half of the input.
    fn process(&mut self, input: (A::Input, B::Input)) -> (r: (A::Output, B::Output))
        ensures
            exists|m1: &mut A, m2: &mut B|
                #![trigger call_ensures(A::process, (m1, input.0), r.0), call_ensures(B::process, (m2, input.1), r.1)]
                {
                    &&& mut_ref_current(m1) == old(self).0
                    &&& mut_ref_future(m1) == final(self).0
                    &&& call_ensures(A::process, (m1, input.0), r.0)
                    &&& mut_ref_current(m2) == old(self).1
                    &&& mut_ref_future(m2) == final(self).1
                    &&& call_ensures(B::process, (m2, input.1), r.1)
                },
    {
        let x = process_once(&mut self.0, input.0);
        let y = process_once(&mut self.1, input.1);
        let r = (x, y);
        assert(r.0 == x && r.1 == y);
        r
    }
}

/// Duplicates the single output of a node into a pair.
#[derive(Clone, Copy)]
pub struct Split<P>(pub P);

pub fn split<P: Processor>(processor: P) -> (r: AudioNode<Split<P>>)
    ensures
        r.0.0 == processor,
{
    AudioNode(Split(processor))
}

impl<P: Processor> Processor for Split<P> where P::Output: Copy {
    type Input = P::Input;

    type Output = (P::Output, P::Output);

    fn reset(&mut self) {
    }

    fn prepare(&mut self, sample_rate: u32, block_size: usize) {
        self.0.prepare(sample_rate, block_size);
    }

    /// The node's result, twice.
    fn process(&mut self, input: P::Input) -> (r: (P::Output, P::Output))
        ensures
            r.1 == r.0,
            exists|m: &mut P|
                #![trigger call_ensures(P::process, (m, input), r.0)]
                mut_ref_current(m) == old(self).0 && mut_ref_future(m) == final(self).0
                    && call_ensures(P::process, (m, input), r.0),
    {
        let output = process_once(&mut self.0, input);
        let r = (output, output);
        assert(r.0 == output);
        r
    }
}

/// Collapses a tuple of samples into one by adding them, left to right.
pub trait TupleMerge {
    type Output;

    fn merge(self) -> Self::Output;
}

impl<F: Sample> TupleMerge for (F, F) {
    type Output = F;

    fn merge(self) -> (r: F)
        ensures
            call_ensures(F::plus, (self.0, self.1), r),
    {
        self.0.plus(self.1)
    }
}

impl<F: Sample> TupleMerge for (F, F, F) {
    type Output = F;

    fn merge(self) -> (r: F)
        ensures
            exists|a: F|
                call_ensures(F::plus, (self.0, self.1), a) && call_ensures(F::plus, (a, self.2), r),
    {
        let a = self.0.plus(self.1);
        let r = a.plus(self.2);
        assert(call_ensures(F::plus, (self.0, self.1), a) && call_ensures(F::plus, (a, self.2), r));
        r
    }
}

impl<F: Sample> TupleMerge for (F, F, F, F) {
    type Output = F;

    fn merge(self) -> (r: F)
        ensures
            exists|a: F, b: F|
                call_ensures(F::plus, (self.0, self.1), a) && call_ensures(F::plus, (a, self.2), b)
                    && call_ensures(F::plus, (b, self.3), r),
    {
        let a = self.0.plus(self.1);
        let b = a.plus(self.2);
        let r = b.plus(self.3);
        assert(call_ensures(F::plus, (self.0, self.1), a) && call_ensures(F::plus, (a, self.2), b)
            && call_ensures(F::plus, (b, self.3), r));
        r
    }
}

/// Post-composes a node whose output is a tuple with the addition of its parts.
#[derive(Clone, Copy)]
pub struct Merge<P>(pub P);

pub fn merge<P: Processor>(processor: P) -> (r: AudioNode<Merge<P>>) where P::Output: TupleMerge
    ensures
        r.0.0 == processor,
{
    AudioNode(Merge(processor))
}

impl<P: Processor> Processor for Merge<P> where P::Output: TupleMerge {
    type Input = P::Input;

    type Output = <P::Output as TupleMerge>::Output;

    fn reset(&mut self) {
    }

    fn prepare(&mut self, sample_rate: u32, block_size: usize) {
        self.0.prepare(sample_rate, block_size);
    }

    /// The sum of the parts of the node's result.
    fn process(&mut self, input: P::Input) -> (r: <P::Output as TupleMerge>::Output)
        ensures
            exists|t: P::Output, m: &mut P|
                #![trigger call_ensures(P::process, (m, input), t)]
                {
                    &&& mut_ref_current(m) == old(self).0
                    &&& mut_ref_future(m) == final(self).0
                    &&& call_ensures(P::process, (m, input), t)
                    &&& call_ensures(<P::Output as TupleMerge>::merge, (t,), r)
                },
    {
        let t = process_once(&mut self.0, input);
        t.merge()
    }
}

} // verus!

verus! {

/// An index below `C`.
struct Choice<const C: usize> {
    at: usize,
}

impl<const C: usize> Choice<C> {
    #[verifier::type_invariant]
    spec fn inv(self) -> bool {
        self.at < C
    }

    closed spec fn value(&self) -> usize {
        self.at
    }

    fn new(at: usize) -> (r: Choice<C>)
        requires
            at < C,
        ensures
            r.value() == at,
    {
        Choice { at }
    }

    fn get(&self) -> (r: usize)
        ensures
            r == self.value(),
            r < C,
    {
        proof {
            use_type_invariant(self);
        }
        self.at
    }
}

/// A choice of one among `C` generators of the same type; only the chosen one
/// advances.
pub struct Switcher<const C: usize, G> {
    v: [G; C],
    index: Choice<C>,
}

impl<const C: usize, G> Switcher<C, G> {
    /// The index of the chosen generator.
    pub closed spec fn chosen(&self) -> usize {
        self.index.value()
    }

    pub closed spec fn generators(&self) -> Seq<G> {
        self.v@
    }

    /// A switcher over `v` with the first generator chosen.
    pub fn from(v: [G; C]) -> (r: Switcher<C, G>)
        requires
            C > 0,
        ensures
            r.chosen() == 0,
            r.generators() == v@,
    {
        Switcher { v, index: Choice::new(0) }
    }

    pub fn switch(&mut self, index: usize)
        requires
            index < C,
        ensures
            final(self).chosen() == index,
            final(self).generators() == old(self).generators(),
    {
        self.index = Choice::new(index);
    }
}

impl<const C: usize, G: Generator> Generator for Switcher<C, G> {
    type Output = G::Output;

    fn reset(&mut self) {
        let mut i: usize = 0;
        while i < C
            decreases C - i,
        {
            self.v[i].reset();
            i = i + 1;
        }
    }

    fn prepare(&mut self, sample_rate: u32, block_size: usize) {
        let mut i: usize = 0;
        while i < C
            decreases C - i,
        {
            self.v[i].prepare(sample_rate, block_size);
            i = i + 1;
        }
    }

    /// The chosen generator's next output; only the chosen one advances.
    fn generate(&mut self) -> (r: G::Output)
        ensures
            final(self).chosen() == old(self).chosen(),
            old(self).chosen() < C,
            final(self).generators() == old(self).generators().update(
                old(self).chosen() as int,
                final(self).generators()[old(self).chosen() as int],
            ),
            exists|m: &mut G|
                #![trigger call_ensures(G::generate, (m,), r)]
                mut_ref_current(m) == old(self).generators()[old(self).chosen() as int]
                    && mut_ref_future(m) == final(self).generators()[old(self).chosen() as int]
                    && call_ensures(G::generate, (m,), r),
    {
        let at = self.index.get();
        generate_once(&mut self.v[at])
    }
}

} // verus!

verus! {

/// `C` processors of one type applied one after another to a single value.
pub struct Series<A, const C: usize>(pub [A; C]);

impl<A: Processor<Output = <A as Processor>::Input>, const C: usize> Processor for Series<A, C> {
    type Input = A::Input;

    type Output = A::Input;

    fn reset(&mut self) {
    }

    fn prepare(&mut self, sample_rate: u32, block_size: usize) {
    }

    fn process(&mut self, input: A::Input) -> A::Input {
        let mut v = input;
        let mut i: usize = 0;
        while i < C
            decreases C - i,
        {
            v = self.0[i].process(v);
            i = i + 1;
        }
        v
    }
}

} // verus!

