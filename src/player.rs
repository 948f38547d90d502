//! Shared sample data, the playback cursor over it, and interpolation.

use vstd::prelude::*;

use std::sync::Arc;

use crate::buffer::Buffer;
use crate::graph::Generator;
use crate::sample::Sample;

verus! {

/// Loaded sample data, shared and never changed after loading, with a trim
/// region and an optional base pitch (the bit pattern of an `f32` in Hz).
#[derive(Clone)]
pub struct SampleFile<S> {
    pub buffer: Arc<Buffer<S>>,
    pub path: String,
    pub start: usize,
    pub end: usize,
    pub pitch: Option<u32>,
}

impl<S> SampleFile<S> {
    /// The items of the shared buffer.
    pub open spec fn data(&self) -> Seq<S> {
        self.buffer@
    }

    /// The trim region lies within the data.
    pub open spec fn wf(&self) -> bool {
        self.start <= self.end <= self.data().len()
    }

    /// The whole of `buffer`, with no base pitch.
    pub fn from(buffer: Arc<Buffer<S>>, path: String) -> (r: SampleFile<S>)
        ensures
            r.data() == buffer@,
            r.path@ == path@,
            r.start == 0,
            r.end == buffer@.len(),
            r.pitch.is_none(),
            r.wf(),
    {
        let end = buffer.len();
        SampleFile { buffer, path, start: 0, end, pitch: None }
    }

    pub fn set_pitch(&mut self, hz: u32)
        ensures
            final(self).pitch == Some(hz),
            final(self).data() == old(self).data(),
            final(self).start == old(self).start,
            final(self).end == old(self).end,
            final(self).path == old(self).path,
    {
        self.pitch = Some(hz);
    }

    pub fn set_unpitched(&mut self)
        ensures
            final(self).pitch.is_none(),
            final(self).data() == old(self).data(),
            final(self).start == old(self).start,
            final(self).end == old(self).end,
            final(self).path == old(self).path,
    {
        self.pitch = None;
    }

    pub fn path(&self) -> (r: &str)
        ensures
            r@ == self.path@,
    {
        self.path.as_str()
    }

    pub fn as_slice(&self) -> (r: &[S])
        ensures
            r@ == self.data(),
    {
        self.buffer.as_slice()
    }

    pub fn len(&self) -> (r: usize)
        ensures
            r == self.data().len(),
    {
        self.buffer.len()
    }
}

/// A playback cursor over a sample file.
pub struct SamplePlayer<T> {
    sample: Option<SampleFile<T>>,
    playing: bool,
    index: usize,
    start: usize,
    end: usize,
    should_loop: bool,
}

impl<T> SamplePlayer<T> {
    #[verifier::type_invariant]
    spec fn inv(self) -> bool {
        match self.sample {
            Some(f) => f.wf(),
            None => true,
        }
    }

    pub closed spec fn loaded(&self) -> bool {
        self.sample.is_some()
    }

    /// The data of the sample set, empty while none is.
    pub closed spec fn data(&self) -> Seq<T> {
        match self.sample {
            Some(f) => f.data(),
            None => Seq::empty(),
        }
    }

    /// The end of the trim region of the sample set.
    pub closed spec fn file_end(&self) -> usize {
        match self.sample {
            Some(f) => f.end,
            None => 0,
        }
    }

    /// The start of the trim region of the sample set.
    pub closed spec fn file_start(&self) -> usize {
        match self.sample {
            Some(f) => f.start,
            None => 0,
        }
    }

    pub closed spec fn cursor(&self) -> usize {
        self.index
    }

    pub closed spec fn region_start(&self) -> usize {
        self.start
    }

    pub closed spec fn region_end(&self) -> usize {
        self.end
    }

    pub closed spec fn looping(&self) -> bool {
        self.should_loop
    }

    pub closed spec fn is_playing(&self) -> bool {
        self.playing
    }

    /// The index of the data that the next step reads, if any. Looping playback
    /// reads the cursor wrapped into the region, `region_start + (cursor -
    /// region_start) % (region_end - region_start)`; it is silent where the region
    /// is empty, reversed or beyond the data, or where the cursor is before the
    /// region. Other playback reads the cursor while it is below the end of the
    /// file's trim region.
    pub open spec fn read_index(&self) -> Option<int> {
        if !self.is_playing() || self.region_start() == self.region_end() || !self.loaded() {
            None
        } else if self.looping() {
            if self.region_start() < self.region_end() && self.region_end() <= self.data().len()
                && self.region_start() <= self.cursor() {
                Some(
                    self.region_start() + (self.cursor() - self.region_start()) % (
                    self.region_end() - self.region_start()) as int,
                )
            } else {
                None
            }
        } else if self.cursor() < self.file_end() {
            Some(self.cursor() as int)
        } else {
            None
        }
    }

    /// The cursor after a step that reads: one on, wrapping back to the region
    /// start at the region end when looping.
    pub open spec fn next_cursor(&self) -> int {
        if self.looping() {
            self.region_start() + ((self.cursor() - self.region_start()) % (self.region_end()
                - self.region_start()) as int + 1) % (self.region_end() - self.region_start()) as int
        } else {
            self.cursor() + 1
        }
    }

    /// All but the cursor are equal.
    pub open spec fn same_but_cursor(&self, other: &SamplePlayer<T>) -> bool {
        &&& self.loaded() == other.loaded()
        &&& self.data() == other.data()
        &&& self.file_start() == other.file_start()
        &&& self.file_end() == other.file_end()
        &&& self.region_start() == other.region_start()
        &&& self.region_end() == other.region_end()
        &&& self.looping() == other.looping()
        &&& self.is_playing() == other.is_playing()
    }

    pub fn new() -> (r: SamplePlayer<T>)
        ensures
            !r.loaded(),
            !r.is_playing(),
            !r.looping(),
            r.cursor() == 0,
            r.region_start() == 0,
            r.region_end() == 0,
    {
        SamplePlayer {
            sample: None,
            playing: false,
            index: 0,
            start: 0,
            end: 0,
            should_loop: false,
        }
    }

    /// Sets the sample to play, with the cursor and the region at its trim region.
    pub fn set_sample(&mut self, sample: SampleFile<T>)
        requires
            sample.wf(),
        ensures
            final(self).loaded(),
            final(self).data() == sample.data(),
            final(self).file_start() == sample.start,
            final(self).file_end() == sample.end,
            final(self).cursor() == sample.start,
            final(self).region_start() == sample.start,
            final(self).region_end() == sample.end,
            final(self).looping() == old(self).looping(),
            final(self).is_playing() == old(self).is_playing(),
    {
        proof {
            use_type_invariant(&*self);
        }
        self.index = sample.start;
        self.start = sample.start;
        self.end = sample.end;
        self.sample = Some(sample);
    }

    pub fn set_loop(&mut self, should_loop: bool)
        ensures
            final(self).looping() == should_loop,
            final(self).cursor() == old(self).cursor(),
            final(self).is_playing() == old(self).is_playing(),
            final(self).region_start() == old(self).region_start(),
            final(self).region_end() == old(self).region_end(),
            final(self).loaded() == old(self).loaded(),
            final(self).data() == old(self).data(),
            final(self).file_start() == old(self).file_start(),
            final(self).file_end() == old(self).file_end(),
    {
        proof {
            use_type_invariant(&*self);
        }
        self.should_loop = should_loop;
    }

    pub fn set_start(&mut self, start: usize)
        ensures
            final(self).region_start() == start,
            final(self).cursor() == old(self).cursor(),
            final(self).is_playing() == old(self).is_playing(),
            final(self).looping() == old(self).looping(),
            final(self).region_end() == old(self).region_end(),
            final(self).loaded() == old(self).loaded(),
            final(self).data() == old(self).data(),
            final(self).file_start() == old(self).file_start(),
            final(self).file_end() == old(self).file_end(),
    {
        proof {
            use_type_invariant(&*self);
        }
        self.start = start;
    }

    pub fn set_end(&mut self, end: usize)
        ensures
            final(self).region_end() == end,
            final(self).cursor() == old(self).cursor(),
            final(self).is_playing() == old(self).is_playing(),
            final(self).looping() == old(self).looping(),
            final(self).region_start() == old(self).region_start(),
            final(self).loaded() == old(self).loaded(),
            final(self).data() == old(self).data(),
            final(self).file_start() == old(self).file_start(),
            final(self).file_end() == old(self).file_end(),
    {
        proof {
            use_type_invariant(&*self);
        }
        self.end = end;
    }

    /// The sample set, if any.
    pub fn file(&self) -> (r: &Option<SampleFile<T>>)
        ensures
            r.is_some() == self.loaded(),
            r.is_some() ==> {
                &&& r.unwrap().data() == self.data()
                &&& r.unwrap().start == self.file_start()
                &&& r.unwrap().end == self.file_end()
                &&& r.unwrap().wf()
            },
    {
        proof {
            use_type_invariant(self);
        }
        &self.sample
    }

    /// The cursor as an absolute index into the data.
    pub fn index(&self) -> (r: usize)
        ensures
            r == self.cursor(),
    {
        self.index
    }

    pub fn start(&self) -> (r: usize)
        ensures
            r == self.region_start(),
    {
        self.start
    }

    pub fn end(&self) -> (r: usize)
        ensures
            r == self.region_end(),
    {
        self.end
    }

    /// The cursor relative to the region start once a sample is set.
    pub fn position(&self) -> (r: usize)
        requires
            self.loaded() ==> self.region_start() <= self.cursor(),
        ensures
            r == if self.loaded() {
                self.cursor() - self.region_start()
            } else {
                self.cursor() as int
            },
    {
        match &self.sample {
            Some(_sample) => self.index - self.start,
            None => self.index,
        }
    }

    /// Puts the cursor at `position` from the region start once a sample is set.
    pub fn set_position(&mut self, position: usize)
        requires
            old(self).loaded() ==> position + old(self).region_start() <= usize::MAX,
        ensures
            final(self).cursor() == if old(self).loaded() {
                position + old(self).region_start()
            } else {
                position as int
            },
            old(self).same_but_cursor(&*final(self)),
    {
        proof {
            use_type_invariant(&*self);
        }
        match &self.sample {
            Some(_sample) => {
                self.index = position + self.start;
            },
            None => {
                self.index = position;
            },
        }
    }

    pub fn playing(&self) -> (r: bool)
        ensures
            r == self.is_playing(),
    {
        self.playing
    }

    pub fn play(&mut self)
        ensures
            final(self).is_playing(),
            final(self).cursor() == old(self).cursor(),
            final(self).looping() == old(self).looping(),
            final(self).region_start() == old(self).region_start(),
            final(self).region_end() == old(self).region_end(),
            final(self).loaded() == old(self).loaded(),
            final(self).data() == old(self).data(),
            final(self).file_start() == old(self).file_start(),
            final(self).file_end() == old(self).file_end(),
    {
        proof {
            use_type_invariant(&*self);
        }
        self.playing = true;
    }

    pub fn pause(&mut self)
        ensures
            !final(self).is_playing(),
            final(self).cursor() == old(self).cursor(),
            final(self).looping() == old(self).looping(),
            final(self).region_start() == old(self).region_start(),
            final(self).region_end() == old(self).region_end(),
            final(self).loaded() == old(self).loaded(),
            final(self).data() == old(self).data(),
            final(self).file_start() == old(self).file_start(),
            final(self).file_end() == old(self).file_end(),
    {
        proof {
            use_type_invariant(&*self);
        }
        self.playing = false;
    }

    /// Stops playback and puts the cursor back at the file's trim start (0 with no
    /// sample set).
    pub fn stop(&mut self)
        ensures
            !final(self).is_playing(),
            final(self).cursor() == old(self).file_start(),
            final(self).looping() == old(self).looping(),
            final(self).region_start() == old(self).region_start(),
            final(self).region_end() == old(self).region_end(),
            final(self).loaded() == old(self).loaded(),
            final(self).data() == old(self).data(),
            final(self).file_start() == old(self).file_start(),
            final(self).file_end() == old(self).file_end(),
    {
        proof {
            use_type_invariant(&*self);
        }
        self.playing = false;
        match &self.sample {
            Some(sample) => {
                self.index = sample.start;
            },
            None => {
                self.index = 0;
            },
        }
    }
}

impl<T: Copy> SamplePlayer<T> {
    /// Advances playback by one step: the item read, or `None` where the step is
    /// silent. The cursor moves on exactly when an item is read.
    pub fn next_item(&mut self) -> (r: Option<T>)
        ensures
            r == match old(self).read_index() {
                Some(i) => Some(old(self).data()[i]),
                None => None,
            },
            final(self).cursor() == if old(self).read_index().is_some() {
                old(self).next_cursor()
            } else {
                old(self).cursor() as int
            },
            old(self).same_but_cursor(&*final(self)),
    {
        proof {
            use_type_invariant(&*self);
        }
        if !self.playing || self.start == self.end {
            return None;
        }
        match &self.sample {
            None => None,
            Some(sample) => {
                if self.should_loop {
                    if self.start < self.end && self.end <= sample.len() && self.start <= self.index {
                        let len = self.end - self.start;
                        let pos = (self.index - self.start) % len;
                        self.index = self.start + (pos + 1) % len;
                        Some(*sample.buffer.get(self.start + pos))
                    } else {
                        None
                    }
                } else if self.index < sample.end {
                    let at = self.index;
                    self.index = self.index + 1;
                    Some(*sample.buffer.get(at))
                } else {
                    None
                }
            },
        }
    }
}

impl<T: Sample> Generator for SamplePlayer<T> {
    type Output = T;

    fn reset(&mut self) {
    }

    fn prepare(&mut self, sample_rate: u32, block_size: usize) {
    }

    /// The next item of the sample, or silence where the step is silent.
    fn generate(&mut self) -> (r: T)
        ensures
            match old(self).read_index() {
                Some(i) => r == old(self).data()[i],
                None => call_ensures(T::equilibrium, (), r),
            },
            final(self).cursor() == if old(self).read_index().is_some() {
                old(self).next_cursor()
            } else {
                old(self).cursor() as int
            },
            old(self).same_but_cursor(&*final(self)),
    {
        match self.next_item() {
            Some(v) => v,
            None => T::equilibrium(),
        }
    }
}

} // verus!

verus! {

/// The grain window for a sample of `length` items: `start`, then `start + span`
/// from that clamped start, each clamped into `[0, length - 1]`.
pub fn grain_region(length: usize, start: usize, span: usize) -> (r: (usize, usize))
    requires
        length > 0,
    ensures
        r.0 == if start < length {
            start as int
        } else {
            length - 1
        },
        r.1 == if r.0 + span < length {
            r.0 + span
        } else {
            length - 1
        },
{
    let last = length - 1;
    let first = if start < last {
        start
    } else {
        last
    };
    let end = if span < last - first {
        first + span
    } else {
        last
    };
    (first, end)
}

/// Blends the two most recent source samples by a fractional phase.
pub trait Interpolator: Sized {
    type Item: Sample;

    fn new() -> Self;

    fn reset(&mut self);

    fn next_sample(&mut self, input: Self::Item);

    fn interpolate(&self, x: Self::Item) -> Self::Item;
}

/// Linear interpolation between the previous sample and the latest one:
/// `last + (prev - last) * x`, where `prev` is the latest sample pulled.
pub struct Linear<S> {
    pub last: S,
    pub prev: S,
}

impl<S: Copy> Linear<S> {
    /// Takes `input` as the latest sample; the one before becomes the previous.
    pub fn push_sample(&mut self, input: S)
        ensures
            final(self).last == old(self).prev,
            final(self).prev == input,
    {
        self.last = self.prev;
        self.prev = input;
    }
}

impl<S: Sample> Linear<S> {
    /// `last + (prev - last) * x`, computed with the sample type's operations.
    pub fn blend(&self, x: S) -> (r: S)
        ensures
            exists|d: S, m: S|
                call_ensures(S::minus, (self.prev, self.last), d) && call_ensures(
                    S::times,
                    (d, x),
                    m,
                ) && call_ensures(S::plus, (m, self.last), r),
    {
        let d = self.prev.minus(self.last);
        let m = d.times(x);
        m.plus(self.last)
    }
}

impl<S: Sample> Interpolator for Linear<S> {
    type Item = S;

    fn new() -> (r: Linear<S>)
        ensures
            call_ensures(S::equilibrium, (), r.last),
            call_ensures(S::equilibrium, (), r.prev),
    {
        Linear { last: S::equilibrium(), prev: S::equilibrium() }
    }

    fn reset(&mut self)
        ensures
            call_ensures(S::equilibrium, (), final(self).last),
            call_ensures(S::equilibrium, (), final(self).prev),
    {
        self.last = S::equilibrium();
        self.prev = S::equilibrium();
    }

    fn next_sample(&mut self, input: S)
        ensures
            final(self).last == old(self).prev,
            final(self).prev == input,
    {
        self.push_sample(input);
    }

    fn interpolate(&self, x: S) -> (r: S)
        ensures
            exists|d: S, m: S|
                call_ensures(S::minus, (self.prev, self.last), d) && call_ensures(
                    S::times,
                    (d, x),
                    m,
                ) && call_ensures(S::plus, (m, self.last), r),
    {
        self.blend(x)
    }
}

/// Something that can be loaded from a path.
pub trait Loadable {
    fn load(path: &str) -> Result<Self, String> where Self: Sized;
}

} // verus!

verus! {

/// One-shot playback whose cursor has reached the end of the file's trim region
/// reads nothing more, so each further step is silent and leaves the cursor where
/// it is.
pub proof fn law_one_shot_stays_at_end<T>(p: SamplePlayer<T>)
    requires
        !p.looping(),
        p.cursor() >= p.file_end(),
    ensures
        p.read_index().is_none(),
{
}

/// Looping playback over a region that fits the data reads only inside the region,
/// and its cursor stays inside the region.
pub proof fn law_loop_reads_inside_region<T>(p: SamplePlayer<T>)
    requires
        p.looping(),
        p.read_index().is_some(),
    ensures
        p.region_start() <= p.read_index().unwrap() < p.region_end(),
        p.read_index().unwrap() < p.data().len(),
        p.region_start() <= p.next_cursor() < p.region_end(),
{
}

} // verus!
