use synthkit::{
    Buffer, Bus, Channel, Complex, RingBuffer, Sample, Wavetable, complex, name_to_num,
};

#[derive(Clone, Copy, PartialEq, Debug)]
struct Level(f64);

impl Sample for Level {
    fn equilibrium() -> Level {
        Level(0.0)
    }
    fn unit() -> Level {
        Level(1.0)
    }
    fn plus(self, rhs: Level) -> Level {
        Level(self.0 + rhs.0)
    }
    fn minus(self, rhs: Level) -> Level {
        Level(self.0 - rhs.0)
    }
    fn times(self, rhs: Level) -> Level {
        Level(self.0 * rhs.0)
    }
    fn over(self, rhs: Level) -> Level {
        Level(self.0 / rhs.0)
    }
}

fn levels(v: &[f64]) -> Buffer<Level> {
    Buffer::from(v.iter().map(|x| Level(*x)).collect())
}

fn items(b: &Buffer<Level>) -> Vec<f64> {
    b.as_slice().iter().map(|l| l.0).collect()
}

#[test]
fn init_fill_and_push() {
    let mut b = Buffer::init(7u8, 3);
    assert_eq!(b.as_slice(), &[7, 7, 7]);
    assert!(b.capacity() >= 3);
    b.fill(2);
    assert_eq!(b.as_slice(), &[2, 2, 2]);
    b.push(9);
    assert_eq!(b.len(), 4);
    assert_eq!(*b.get(3), 9);
    b.clear();
    assert_eq!(b.len(), 0);
    let e: Buffer<u8> = Buffer::with_capacity(8);
    assert_eq!(e.len(), 0);
}

#[test]
fn elementwise_arithmetic() {
    let mut a = levels(&[1.0, 2.0, 3.0]);
    let b = levels(&[4.0, 5.0, 6.0]);
    a.add_from(&b);
    assert_eq!(items(&a), vec![5.0, 7.0, 9.0]);
    a.sub_from(&b);
    assert_eq!(items(&a), vec![1.0, 2.0, 3.0]);
    a.mul_from(&b);
    assert_eq!(items(&a), vec![4.0, 10.0, 18.0]);
    a.div_from(&b);
    assert_eq!(items(&a), vec![1.0, 2.0, 3.0]);
    a.equilibrate();
    assert_eq!(items(&a), vec![0.0, 0.0, 0.0]);
}

#[test]
fn rms_is_the_mean() {
    let a = levels(&[1.0, 2.0, 6.0]);
    assert_eq!(a.rms(), Level(3.0));
}

#[test]
fn apply_and_zip_apply() {
    let mut a = Buffer::from(vec![1u32, 2, 3]);
    a.apply(|v: u32| if v < 1000 { v * 10 } else { v });
    assert_eq!(a.as_slice(), &[10, 20, 30]);
    let w = Buffer::from(vec![1u32, 2]);
    a.zip_apply(&w, |v: u32, x: u32| if v < 1000 && x < 1000 { v + x } else { v });
    assert_eq!(a.as_slice(), &[11, 22, 30]);
}

#[test]
fn copy_replace_append() {
    let src = Buffer::from(vec![1i32, 2, 3]);
    let mut dest = Buffer::init(0i32, 3);
    dest.copy_from(&src);
    assert_eq!(dest.as_slice(), &[1, 2, 3]);
    let mut other = Buffer::init(0i32, 3);
    src.copy_to(&mut other);
    assert_eq!(other.as_slice(), &[1, 2, 3]);
    let mut r = Buffer::from(vec![9i32]);
    r.append(&src);
    assert_eq!(r.as_slice(), &[9, 1, 2, 3]);
    r.replace(&src);
    assert_eq!(r.as_slice(), &[1, 2, 3]);
    r.set(0, 5);
    assert_eq!(r.as_slice(), &[5, 2, 3]);
}

#[test]
fn ring_buffer_cycles() {
    let mut ring = RingBuffer::init(Level(0.0), 4);
    assert_eq!(ring.len(), 1);
    assert!(ring.capacity() >= 4);
    ring.resize(3);
    assert_eq!(ring.len(), 3);
    assert_eq!(ring.next(Level(1.0)), Level(0.0));
    assert_eq!(ring.next(Level(2.0)), Level(0.0));
    assert_eq!(ring.next(Level(3.0)), Level(0.0));
    assert_eq!(ring.next(Level(4.0)), Level(1.0));
    assert_eq!(ring.next(Level(5.0)), Level(2.0));
}

#[test]
fn ring_buffer_grows() {
    let mut ring = RingBuffer::init(Level(1.0), 2);
    ring.resize(5);
    assert_eq!(ring.len(), 1);
    assert!(ring.capacity() >= 5);
    assert_eq!(ring.next(Level(7.0)), Level(1.0));
    assert_eq!(ring.next(Level(8.0)), Level(7.0));
}

#[test]
fn bus_channels() {
    let mut bus: Bus<Buffer<u8>> = Bus::new();
    assert_eq!(bus.num_channels(), 0);
    bus.add_channel(Channel::new(Buffer::init(1u8, 2), true));
    bus.add_channel(Channel::new(Buffer::init(2u8, 2), false));
    assert_eq!(bus.len(), 2);
    assert!(bus.connected(0));
    assert!(!bus.connected(1));
    assert!(!bus.channel(1).connected());
    bus.channel_mut(1).set_connected(true);
    assert!(bus.connected(1));
    bus.channel_mut(0).get_mut().push(3);
    assert_eq!(bus.channel(0).get().as_slice(), &[1, 1, 3]);
}

#[test]
fn note_names() {
    assert_eq!(name_to_num("C0"), Some(12));
    assert_eq!(name_to_num("C#0"), Some(13));
    assert_eq!(name_to_num("A4"), Some(69));
    assert_eq!(name_to_num("B9"), Some(131));
    assert_eq!(name_to_num("A#3"), Some(58));
    assert_eq!(name_to_num("E#3"), None);
    assert_eq!(name_to_num("H2"), None);
    assert_eq!(name_to_num("C10"), None);
    assert_eq!(name_to_num(""), None);
    assert_eq!(name_to_num("Cb4"), None);
}

#[test]
fn complex_parts() {
    let a = complex(Level(1.0), Level(2.0));
    let b = Complex::from(Level(3.0), Level(4.0));
    let s = a.plus(b);
    assert!(s == Complex::from(Level(4.0), Level(6.0)));
    let p = a.times(b);
    assert!(p == Complex::from(Level(11.0), Level(10.0)));
    assert!(Complex::<Level>::new() == complex(Level(0.0), Level(0.0)));
}

#[test]
fn wavetable_shape() {
    let w: Wavetable<Level, 8> = Wavetable::new();
    assert_eq!(w.len(), 8);
    assert_eq!(w.table.len(), 16);
    assert!(w.table.iter().all(|row| row.iter().all(|v| *v == Level(0.0))));
}
