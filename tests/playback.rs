use std::sync::Arc;

use synthkit::{
    Buffer, Generator, Interpolator, Linear, Sample, SampleFile, SamplePlayer, Stereo,
};

#[derive(Clone, Copy, PartialEq, Debug)]
struct Level(f32);

impl Sample for Level {
    fn equilibrium() -> Level {
        Level(0.0)
    }
    fn unit() -> Level {
        Level(1.0)
    }
    fn plus(self, rhs: Level) -> Level {
        Level(self.0 + rhs.0)
    }
    fn minus(self, rhs: Level) -> Level {
        Level(self.0 - rhs.0)
    }
    fn times(self, rhs: Level) -> Level {
        Level(self.0 * rhs.0)
    }
    fn over(self, rhs: Level) -> Level {
        Level(self.0 / rhs.0)
    }
}

fn ramp(n: usize) -> SampleFile<Level> {
    let items: Vec<Level> = (0..n).map(|i| Level(i as f32 + 1.0)).collect();
    SampleFile::from(Arc::new(Buffer::from(items)), String::from("ramp.wav"))
}

#[test]
fn one_shot_stops_at_end_and_goes_silent() {
    let file = ramp(100);
    assert_eq!(file.start, 0);
    assert_eq!(file.end, 100);
    let mut player: SamplePlayer<Level> = SamplePlayer::new();
    player.set_sample(file);
    player.play();
    for i in 0..100 {
        assert_eq!(player.generate(), Level(i as f32 + 1.0));
    }
    assert_eq!(player.position(), 100);
    assert!(player.playing());
    assert_eq!(player.generate(), Level(0.0));
    assert_eq!(player.position(), 100);
}

#[test]
fn stopped_player_is_silent() {
    let mut player: SamplePlayer<Level> = SamplePlayer::new();
    player.set_sample(ramp(4));
    assert_eq!(player.generate(), Level(0.0));
    assert_eq!(player.next_item(), None);
    assert_eq!(player.position(), 0);
}

#[test]
fn looping_wraps_inside_region() {
    let mut player: SamplePlayer<Level> = SamplePlayer::new();
    player.set_sample(ramp(10));
    player.set_loop(true);
    player.set_start(2);
    player.set_end(5);
    player.set_position(0);
    player.play();
    let mut got: Vec<Level> = Vec::new();
    let mut positions: Vec<usize> = Vec::new();
    for _ in 0..7 {
        got.push(player.generate());
        positions.push(player.position());
    }
    // reads indices 2,3,4,2,3,4,2 -> values index + 1; the cursor wraps within [2, 5)
    let want = vec![Level(3.0), Level(4.0), Level(5.0), Level(3.0), Level(4.0), Level(5.0), Level(3.0)];
    assert_eq!(got, want);
    assert_eq!(positions, vec![1, 2, 0, 1, 2, 0, 1]);
}

#[test]
fn looping_reversed_region_is_silent() {
    let mut player: SamplePlayer<Level> = SamplePlayer::new();
    player.set_sample(ramp(10));
    player.set_loop(true);
    player.set_start(6);
    player.set_end(3);
    player.play();
    assert_eq!(player.next_item(), None);
}

#[test]
fn stop_rewinds_to_trim_start() {
    let mut file = ramp(10);
    file.start = 3;
    file.end = 8;
    let mut player: SamplePlayer<Level> = SamplePlayer::new();
    player.set_sample(file);
    player.play();
    assert_eq!(player.generate(), Level(4.0));
    assert_eq!(player.generate(), Level(5.0));
    assert_eq!(player.position(), 2);
    player.stop();
    assert!(!player.playing());
    assert_eq!(player.position(), 0);
    player.pause();
    assert!(!player.playing());
}

#[test]
fn sample_file_accessors() {
    let mut file = ramp(3);
    assert_eq!(file.len(), 3);
    assert_eq!(file.path(), "ramp.wav");
    assert_eq!(file.as_slice()[2], Level(3.0));
    file.set_pitch(440.0f32.to_bits());
    assert_eq!(file.pitch, Some(440.0f32.to_bits()));
    file.set_unpitched();
    assert_eq!(file.pitch, None);
}

#[test]
fn linear_interpolation_endpoints() {
    let mut lin: Linear<Level> = Linear::new();
    lin.next_sample(Level(2.0));
    lin.next_sample(Level(6.0));
    assert_eq!(lin.last, Level(2.0));
    assert_eq!(lin.prev, Level(6.0));
    assert_eq!(lin.interpolate(Level(0.0)), Level(2.0));
    assert_eq!(lin.interpolate(Level(1.0)), Level(6.0));
    assert_eq!(lin.interpolate(Level(0.5)), Level(4.0));
    lin.reset();
    assert_eq!(lin.interpolate(Level(0.5)), Level(0.0));
}

#[test]
fn stereo_arithmetic_is_per_channel() {
    let a = Stereo { left: Level(1.0), right: Level(2.0) };
    let b = Stereo { left: Level(3.0), right: Level(5.0) };
    assert!(a.plus(b) == Stereo { left: Level(4.0), right: Level(7.0) });
    assert!(b.minus(a) == Stereo { left: Level(2.0), right: Level(3.0) });
    assert!(a.times(b) == Stereo { left: Level(3.0), right: Level(10.0) });
    assert!(b.over(a) == Stereo { left: Level(3.0), right: Level(2.5) });
    assert!(Stereo::<Level>::equilibrium() == Stereo::both(Level(0.0)));
}

#[test]
fn grain_region_clamps_into_sample() {
    assert_eq!(synthkit::grain_region(100, 10, 5), (10, 15));
    assert_eq!(synthkit::grain_region(100, 150, 5), (99, 99));
    assert_eq!(synthkit::grain_region(100, 90, 50), (90, 99));
    assert_eq!(synthkit::grain_region(100, 0, usize::MAX), (0, 99));
    assert_eq!(synthkit::grain_region(1, 0, 0), (0, 0));
}

#[test]
fn looping_cursor_beyond_region_wraps_back() {
    let mut player: SamplePlayer<Level> = SamplePlayer::new();
    player.set_sample(ramp(10));
    player.set_loop(true);
    player.set_start(2);
    player.set_end(5);
    player.set_position(4);
    player.play();
    // cursor 6 -> position 4 -> 4 % 3 = 1 -> index 3
    assert_eq!(player.generate(), Level(4.0));
    assert_eq!(player.position(), 2);
}

#[test]
fn looping_cursor_before_region_is_silent() {
    let mut player: SamplePlayer<Level> = SamplePlayer::new();
    player.set_sample(ramp(10));
    player.set_loop(true);
    player.set_start(6);
    player.set_end(9);
    player.play();
    assert_eq!(player.generate(), Level(0.0));
    assert_eq!(player.index(), 0);
}
