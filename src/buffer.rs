//! Owned item buffers, their element-wise operations, and the ring buffer.

use vstd::prelude::*;

use crate::sample::Sample;

verus! {

/// Relies on `Vec::capacity`: the number of items the vector holds room for,
/// which is never below its length.
#[verifier::external_body]
fn vec_capacity<T>(v: &Vec<T>) -> (r: usize)
    ensures
        r >= v@.len(),
{
    v.capacity()
}

/// An owning, growable run of items in insertion order.
pub struct Buffer<T> {
    items: Vec<T>,
}

impl<T> View for Buffer<T> {
    type V = Seq<T>;

    closed spec fn view(&self) -> Seq<T> {
        self.items@
    }
}

impl<T> Buffer<T> {
    pub fn from(items: Vec<T>) -> (r: Buffer<T>)
        ensures
            r@ == items@,
    {
        Buffer { items }
    }

    pub fn new() -> (r: Buffer<T>)
        ensures
            r@.len() == 0,
    {
        Buffer { items: Vec::new() }
    }

    /// An empty buffer with room for `capacity` items.
    pub fn with_capacity(capacity: usize) -> (r: Buffer<T>)
        ensures
            r@.len() == 0,
    {
        Buffer { items: Vec::with_capacity(capacity) }
    }

    pub fn capacity(&self) -> (r: usize)
        ensures
            r >= self@.len(),
    {
        vec_capacity(&self.items)
    }

    pub fn len(&self) -> (r: usize)
        ensures
            r == self@.len(),
    {
        self.items.len()
    }

    pub fn push(&mut self, item: T)
        ensures
            final(self)@ == old(self)@.push(item),
    {
        self.items.push(item);
    }

    pub fn clear(&mut self)
        ensures
            final(self)@.len() == 0,
    {
        self.items.clear();
    }

    pub fn as_slice(&self) -> (r: &[T])
        ensures
            r@ == self@,
    {
        self.items.as_slice()
    }

    pub fn set(&mut self, index: usize, value: T)
        requires
            index < old(self)@.len(),
        ensures
            final(self)@ == old(self)@.update(index as int, value),
    {
        self.items.set(index, value);
    }

    pub fn get(&self, index: usize) -> (r: &T)
        requires
            index < self@.len(),
        ensures
            *r == self@[index as int],
    {
        &self.items[index]
    }
}

impl<T: Copy> Buffer<T> {
    /// A buffer of `size` copies of `value`.
    pub fn init(value: T, size: usize) -> (r: Buffer<T>)
        ensures
            r@ == Seq::new(size as nat, |_i: int| value),
    {
        let mut items: Vec<T> = Vec::with_capacity(size);
        let mut i: usize = 0;
        while i < size
            invariant
                i <= size,
                items@ == Seq::new(i as nat, |_i: int| value),
            decreases size - i,
        {
            items.push(value);
            i = i + 1;
            assert(items@ =~= Seq::new(i as nat, |_i: int| value));
        }
        Buffer { items }
    }

    /// Sets every item to `value`.
    pub fn fill(&mut self, value: T)
        ensures
            final(self)@ == Seq::new(old(self)@.len(), |_i: int| value),
    {
        let n = self.items.len();
        let mut i: usize = 0;
        while i < n
            invariant
                i <= n,
                n == self.items@.len(),
                forall|j: int| 0 <= j < i ==> self.items@[j] == value,
            decreases n - i,
        {
            self.items.set(i, value);
            i = i + 1;
        }
        assert(self.items@ =~= Seq::new(n as nat, |_i: int| value));
    }

    /// Replaces each item `v` with `f(v)`, in index order.
    pub fn apply<F: Fn(T) -> T>(&mut self, f: F)
        requires
            forall|i: int| 0 <= i < old(self)@.len() ==> f.requires((old(self)@[i],)),
        ensures
            final(self)@.len() == old(self)@.len(),
            forall|i: int| 0 <= i < old(self)@.len() ==> f.ensures((old(self)@[i],), final(self)@[i]),
    {
        let ghost before = old(self)@;
        let n = self.items.len();
        let mut i: usize = 0;
        while i < n
            invariant
                i <= n,
                n == before.len(),
                self.items@.len() == n,
                forall|j: int| 0 <= j < n ==> #[trigger] f.requires((before[j],)),
                forall|j: int| 0 <= j < i ==> f.ensures((before[j],), self.items@[j]),
                forall|j: int| i <= j < n ==> self.items@[j] == before[j],
            decreases n - i,
        {
            let x = self.items[i];
            assert(f.requires((before[i as int],)));
            let v = f(x);
            self.items.set(i, v);
            i = i + 1;
        }
    }

    /// Replaces each item `v` with `f(v, w)`, where `w` is the item of `other` at the
    /// same index. Items beyond the shorter of the two buffers are left as they are.
    pub fn zip_apply<I: Copy, F: Fn(T, I) -> T>(&mut self, other: &Buffer<I>, f: F)
        requires
            forall|i: int|
                0 <= i < old(self)@.len() && i < other@.len() ==> f.requires(
                    (old(self)@[i], other@[i]),
                ),
        ensures
            final(self)@.len() == old(self)@.len(),
            forall|i: int|
                0 <= i < old(self)@.len() && i < other@.len() ==> f.ensures(
                    (old(self)@[i], other@[i]),
                    final(self)@[i],
                ),
            forall|i: int| other@.len() <= i < old(self)@.len() ==> final(self)@[i] == old(self)@[i],
    {
        let ghost before = self.items@;
        let n = self.items.len();
        let m = if other.items.len() < n {
            other.items.len()
        } else {
            n
        };
        let mut i: usize = 0;
        while i < m
            invariant
                i <= m,
                m <= n,
                m <= other@.len(),
                m == n || m == other@.len(),
                n == before.len(),
                self.items@.len() == n,
                forall|j: int| 0 <= j < n && j < other@.len() ==> f.requires((before[j], other@[j])),
                forall|j: int| 0 <= j < i ==> f.ensures((before[j], other@[j]), self.items@[j]),
                forall|j: int| i <= j < n ==> self.items@[j] == before[j],
            decreases m - i,
        {
            let v = f(self.items[i], other.items[i]);
            self.items.set(i, v);
            i = i + 1;
        }
    }

    /// Copies `src` item for item into this buffer.
    pub fn copy_from(&mut self, src: &Buffer<T>)
        requires
            old(self)@.len() == src@.len(),
        ensures
            final(self)@ == src@,
    {
        let n = self.items.len();
        let mut i: usize = 0;
        while i < n
            invariant
                i <= n,
                n == self.items@.len(),
                n == src@.len(),
                forall|j: int| 0 <= j < i ==> self.items@[j] == src@[j],
            decreases n - i,
        {
            self.items.set(i, src.items[i]);
            i = i + 1;
        }
        assert(self.items@ =~= src@);
    }

    /// Copies this buffer item for item into `dest`.
    pub fn copy_to(&self, dest: &mut Buffer<T>)
        requires
            old(dest)@.len() == self@.len(),
        ensures
            final(dest)@ == self@,
    {
        dest.copy_from(self);
    }

    /// Makes this buffer hold exactly the items of `src`.
    pub fn replace(&mut self, src: &Buffer<T>)
        ensures
            final(self)@ == src@,
    {
        self.items.clear();
        self.append(src);
        assert(self.items@ =~= src@);
    }

    /// Pushes the items of `src`, in order, after the items already held.
    pub fn append(&mut self, src: &Buffer<T>)
        ensures
            final(self)@ == old(self)@ + src@,
    {
        let ghost before = self.items@;
        let n = src.items.len();
        let mut i: usize = 0;
        while i < n
            invariant
                i <= n,
                n == src@.len(),
                self.items@ == before + src@.take(i as int),
            decreases n - i,
        {
            self.items.push(src.items[i]);
            i = i + 1;
            assert(self.items@ =~= before + src@.take(i as int));
        }
        assert(src@.take(n as int) =~= src@);
    }
}

} // verus!

verus! {

/// A fixed run of samples read and overwritten in a cycle of `len` steps.
pub struct RingBuffer<S> {
    buffer: Buffer<S>,
    length: usize,
    index: usize,
}

impl<S> RingBuffer<S> {
    pub closed spec fn items(&self) -> Seq<S> {
        self.buffer@
    }

    /// The number of steps in one cycle.
    pub closed spec fn cycle(&self) -> usize {
        self.length
    }

    /// The index of the next item read and overwritten.
    pub closed spec fn cursor(&self) -> usize {
        self.index
    }

    pub fn len(&self) -> (r: usize)
        ensures
            r == self.cycle(),
    {
        self.length
    }

    pub fn capacity(&self) -> (r: usize)
        ensures
            r >= self.items().len(),
    {
        self.buffer.capacity()
    }
}

impl<S: Copy> RingBuffer<S> {
    /// A ring of `size` copies of `value`, with a cycle of one step.
    pub fn init(value: S, size: usize) -> (r: RingBuffer<S>)
        ensures
            r.items() == Seq::new(size as nat, |_i: int| value),
            r.cycle() == 1,
            r.cursor() == 0,
    {
        RingBuffer { buffer: Buffer::init(value, size), length: 1, index: 0 }
    }

    /// Returns the item at the cursor, stores `input` in its place and moves the
    /// cursor one step around the cycle.
    pub fn next(&mut self, input: S) -> (r: S)
        requires
            old(self).cursor() < old(self).items().len(),
            old(self).cycle() > 0,
        ensures
            r == old(self).items()[old(self).cursor() as int],
            final(self).items() == old(self).items().update(old(self).cursor() as int, input),
            final(self).cursor() == (old(self).cursor() + 1) % (old(self).cycle() as int),
            final(self).cycle() == old(self).cycle(),
    {
        let _n = self.buffer.len();
        let output = *self.buffer.get(self.index);
        self.buffer.set(self.index, input);
        self.index = (self.index + 1) % self.length;
        output
    }
}

impl<S: Sample> RingBuffer<S> {
    /// Grows the ring to `length` items, new ones silent, where it holds fewer;
    /// otherwise makes the cycle `length` steps and silences the items past it.
    pub fn resize(&mut self, length: usize)
        ensures
            final(self).cursor() == old(self).cursor(),
            length > old(self).items().len() ==> {
                &&& final(self).items().len() == length
                &&& final(self).items().take(old(self).items().len() as int) == old(self).items()
                &&& forall|k: int|
                    old(self).items().len() <= k < length ==> call_ensures(
                        S::equilibrium,
                        (),
                        #[trigger] final(self).items()[k],
                    )
                &&& final(self).cycle() == old(self).cycle()
            },
            length <= old(self).items().len() ==> {
                &&& final(self).items().len() == old(self).items().len()
                &&& final(self).items().take(length as int) == old(self).items().take(length as int)
                &&& forall|k: int|
                    length <= k < old(self).items().len() ==> call_ensures(
                        S::equilibrium,
                        (),
                        #[trigger] final(self).items()[k],
                    )
                &&& final(self).cycle() == length
            },
    {
        let n = self.buffer.len();
        if length > n {
            let mut i: usize = n;
            while i < length
                invariant
                    n <= i <= length,
                    self.buffer@.len() == i,
                    self.buffer@.take(n as int) == old(self).buffer@,
                    forall|k: int|
                        n <= k < i ==> call_ensures(S::equilibrium, (), #[trigger] self.buffer@[k]),
                    self.length == old(self).length,
                    self.index == old(self).index,
                decreases length - i,
            {
                let z = S::equilibrium();
                self.buffer.push(z);
                i = i + 1;
                assert(self.buffer@.take(n as int) =~= old(self).buffer@);
            }
        } else {
            self.length = length;
            let mut i: usize = length;
            while i < n
                invariant
                    length <= i <= n,
                    self.buffer@.len() == n,
                    self.buffer@.take(length as int) == old(self).buffer@.take(length as int),
                    forall|k: int|
                        length <= k < i ==> call_ensures(S::equilibrium, (), #[trigger] self.buffer@[k]),
                    self.length == length,
                    self.index == old(self).index,
                decreases n - i,
            {
                let z = S::equilibrium();
                self.buffer.set(i, z);
                i = i + 1;
                assert(self.buffer@.take(length as int) =~= old(self).buffer@.take(length as int));
            }
        }
    }
}

} // verus!

verus! {

/// `total` can come out of adding up `items` left to right, starting from silence.
pub open spec fn is_sum<T: Sample>(items: Seq<T>, total: T) -> bool
    decreases items.len(),
{
    if items.len() == 0 {
        call_ensures(T::equilibrium, (), total)
    } else {
        exists|prior: T|
            #![trigger call_ensures(T::plus, (prior, items.last()), total)]
            is_sum(items.drop_last(), prior) && call_ensures(T::plus, (prior, items.last()), total)
    }
}

/// `count` can come out of adding one `n` times, starting from silence.
pub open spec fn is_count<T: Sample>(n: nat, count: T) -> bool
    decreases n,
{
    if n == 0 {
        call_ensures(T::equilibrium, (), count)
    } else {
        exists|prior: T, one: T|
            is_count((n - 1) as nat, prior) && call_ensures(T::unit, (), one) && call_ensures(
                T::plus,
                (prior, one),
                count,
            )
    }
}

impl<T: Sample> Buffer<T> {
    /// Sets every item to silence.
    pub fn equilibrate(&mut self)
        ensures
            final(self)@.len() == old(self)@.len(),
            forall|i: int, j: int|
                0 <= i < final(self)@.len() && 0 <= j < final(self)@.len() ==> final(self)@[i]
                    == final(self)@[j],
            forall|i: int|
                0 <= i < final(self)@.len() ==> call_ensures(T::equilibrium, (), final(self)@[i]),
    {
        let z = T::equilibrium();
        self.fill(z);
    }

    /// Adds to each item the item of `src` at the same index.
    pub fn add_from(&mut self, src: &Buffer<T>)
        ensures
            final(self)@.len() == old(self)@.len(),
            forall|i: int|
                0 <= i < old(self)@.len() && i < src@.len() ==> call_ensures(
                    T::plus,
                    (old(self)@[i], src@[i]),
                    final(self)@[i],
                ),
            forall|i: int| src@.len() <= i < old(self)@.len() ==> final(self)@[i] == old(self)@[i],
    {
        self.zip_apply(src, T::plus);
    }

    /// Subtracts from each item the item of `src` at the same index.
    pub fn sub_from(&mut self, src: &Buffer<T>)
        ensures
            final(self)@.len() == old(self)@.len(),
            forall|i: int|
                0 <= i < old(self)@.len() && i < src@.len() ==> call_ensures(
                    T::minus,
                    (old(self)@[i], src@[i]),
                    final(self)@[i],
                ),
            forall|i: int| src@.len() <= i < old(self)@.len() ==> final(self)@[i] == old(self)@[i],
    {
        self.zip_apply(src, T::minus);
    }

    /// Multiplies each item by the item of `src` at the same index.
    pub fn mul_from(&mut self, src: &Buffer<T>)
        ensures
            final(self)@.len() == old(self)@.len(),
            forall|i: int|
                0 <= i < old(self)@.len() && i < src@.len() ==> call_ensures(
                    T::times,
                    (old(self)@[i], src@[i]),
                    final(self)@[i],
                ),
            forall|i: int| src@.len() <= i < old(self)@.len() ==> final(self)@[i] == old(self)@[i],
    {
        self.zip_apply(src, T::times);
    }

    /// Divides each item by the item of `src` at the same index.
    pub fn div_from(&mut self, src: &Buffer<T>)
        ensures
            final(self)@.len() == old(self)@.len(),
            forall|i: int|
                0 <= i < old(self)@.len() && i < src@.len() ==> call_ensures(
                    T::over,
                    (old(self)@[i], src@[i]),
                    final(self)@[i],
                ),
            forall|i: int| src@.len() <= i < old(self)@.len() ==> final(self)@[i] == old(self)@[i],
    {
        self.zip_apply(src, T::over);
    }

    /// The arithmetic mean of the items: their sum, left to right from silence,
    /// divided by their count, counted by adding one per item from silence.
    pub fn rms(&self) -> (r: T)
        ensures
            exists|total: T, count: T|
                is_sum(self@, total) && is_count(self@.len(), count) && call_ensures(
                    T::over,
                    (total, count),
                    r,
                ),
    {
        let mut total = T::equilibrium();
        let mut count = T::equilibrium();
        let n = self.items.len();
        let mut i: usize = 0;
        while i < n
            invariant
                i <= n,
                n == self.items@.len(),
                is_sum(self@.take(i as int), total),
                is_count(i as nat, count),
            decreases n - i,
        {
            let ghost prior_total = total;
            let ghost prior_count = count;
            let x = self.items[i];
            total = total.plus(x);
            let one = T::unit();
            count = count.plus(one);
            proof {
                let items = self@.take(i + 1);
                assert(items.drop_last() =~= self@.take(i as int));
                assert(items.last() == x);
                assert(is_sum(items, total));
                assert(is_count((i + 1) as nat, count));
            }
            i = i + 1;
        }
        assert(self@.take(n as int) =~= self@);
        total.over(count)
    }
}

} // verus!
