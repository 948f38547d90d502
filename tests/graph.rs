use synthkit::{
    AudioNode, Buffer, Chain, Generator, Merge, Parallel, Processor, Sample, Series, Split,
    Switcher, TupleMerge, chain, generate_block, merge, parallel, process_block, split,
};

#[derive(Clone, Copy, PartialEq, Debug)]
struct Level(i64);

impl Sample for Level {
    fn equilibrium() -> Level {
        Level(0)
    }
    fn unit() -> Level {
        Level(1)
    }
    fn plus(self, rhs: Level) -> Level {
        Level(self.0 + rhs.0)
    }
    fn minus(self, rhs: Level) -> Level {
        Level(self.0 - rhs.0)
    }
    fn times(self, rhs: Level) -> Level {
        Level(self.0 * rhs.0)
    }
    fn over(self, rhs: Level) -> Level {
        Level(self.0 / rhs.0)
    }
}

struct Counter(i64);

impl Generator for Counter {
    type Output = i64;
    fn reset(&mut self) {
        self.0 = 0;
    }
    fn prepare(&mut self, _sample_rate: u32, _block_size: usize) {}
    fn generate(&mut self) -> i64 {
        self.0 += 1;
        self.0
    }
}

struct AddN(i64);

impl Processor for AddN {
    type Input = i64;
    type Output = i64;
    fn reset(&mut self) {}
    fn prepare(&mut self, _sample_rate: u32, _block_size: usize) {}
    fn process(&mut self, input: i64) -> i64 {
        input + self.0
    }
}

struct Double;

impl Processor for Double {
    type Input = i64;
    type Output = i64;
    fn reset(&mut self) {}
    fn prepare(&mut self, _sample_rate: u32, _block_size: usize) {}
    fn process(&mut self, input: i64) -> i64 {
        input * 2
    }
}

struct Pair;

impl Processor for Pair {
    type Input = i64;
    type Output = (Level, Level);
    fn reset(&mut self) {}
    fn prepare(&mut self, _sample_rate: u32, _block_size: usize) {}
    fn process(&mut self, input: i64) -> (Level, Level) {
        (Level(input), Level(10 * input))
    }
}

#[test]
fn generate_block_in_order() {
    let mut g = Counter(0);
    let mut out = Buffer::init(0i64, 4);
    generate_block(&mut g, &mut out);
    assert_eq!(out.as_slice(), &[1, 2, 3, 4]);
}

#[test]
fn process_block_pairs_by_position() {
    let mut p = AddN(100);
    let input = Buffer::from(vec![1i64, 2, 3]);
    let mut out = Buffer::init(0i64, 4);
    process_block(&mut p, &input, &mut out);
    assert_eq!(out.as_slice(), &[101, 102, 103, 0]);
}

#[test]
fn chain_composes_in_order() {
    let mut node = chain(AddN(1), Double);
    assert_eq!(node.0.process(3), 8);
    let mut direct = Chain(Double, AddN(1));
    assert_eq!(direct.process(3), 7);
}

#[test]
fn parallel_split_merge() {
    let mut par = parallel(AddN(1), Double);
    assert_eq!(par.0.process((1, 5)), (2, 10));
    let mut sp = split(AddN(2));
    assert_eq!(sp.0.process(1), (3, 3));
    let mut m = merge(Pair);
    assert_eq!(m.0.process(2), Level(22));
    let mut m2 = Merge(Pair);
    assert_eq!(m2.process(1), Level(11));
    assert_eq!((Level(1), Level(2), Level(3)).merge(), Level(6));
    assert_eq!((Level(1), Level(2), Level(3), Level(4)).merge(), Level(10));
    let mut pp = Parallel(Double, Double);
    assert_eq!(pp.process((1, 2)), (2, 4));
    let mut s = Split(Double);
    assert_eq!(s.process(4), (8, 8));
}

#[test]
fn series_applies_each_stage() {
    let mut s = Series([AddN(1), AddN(2), AddN(3)]);
    assert_eq!(s.process(10), 16);
}

#[test]
fn switcher_advances_only_chosen() {
    let mut sw = Switcher::from([Counter(0), Counter(100)]);
    assert_eq!(sw.generate(), 1);
    sw.switch(1);
    assert_eq!(sw.generate(), 101);
    sw.switch(0);
    assert_eq!(sw.generate(), 2);
    sw.reset();
    assert_eq!(sw.generate(), 1);
}

#[test]
fn generator_chained_into_processor() {
    let mut g = Chain(Counter(0), Double);
    assert_eq!(g.generate(), 2);
    assert_eq!(g.generate(), 4);
    let mut node = AudioNode(Counter(5));
    assert_eq!(node.generate(), 6);
}
