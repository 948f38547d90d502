use synthkit::{Buffer, Event, Id, IdCounter, NoteMessage, NotePlayer};

fn bits(v: f32) -> u32 {
    v.to_bits()
}

#[test]
fn two_voices_third_note_dropped() {
    let mut player = NotePlayer::with_voices(2);
    let a = Id(1);
    let b = Id(2);
    let c = Id(3);
    player.note_on(a, bits(440.0), bits(0.8));
    player.note_on(b, bits(220.0), bits(0.5));
    player.note_on(c, bits(110.0), bits(0.3));
    let queue = player.queue();
    assert_eq!(queue.len(), 2);
    assert_eq!(queue[0].voice_index, 0);
    assert!(queue[0].message.id == a);
    assert_eq!(queue[1].voice_index, 1);
    assert!(queue[1].message.id == b);

    let mut buf: Buffer<NoteMessage> = Buffer::new();
    player.generate(0, &mut buf);
    assert_eq!(buf.len(), 1);
    let m = *buf.get(0);
    assert!(m.id == a);
    assert!(m.note == Event::NoteOn { pitch: bits(440.0), pressure: bits(0.8) });
    assert_eq!(player.playing().len(), 1);

    player.note_off(a);
    let mut buf: Buffer<NoteMessage> = Buffer::new();
    player.generate(0, &mut buf);
    assert_eq!(buf.len(), 1);
    assert!(buf.get(0).note == Event::NoteOff);
    assert!(player.playing().iter().all(|p| p.id != a));
}

#[test]
fn note_off_without_match_changes_nothing() {
    let mut player = NotePlayer::new();
    player.note_on(Id(7), bits(440.0), bits(1.0));
    let mut buf: Buffer<NoteMessage> = Buffer::new();
    player.generate(0, &mut buf);
    player.note_off(Id(99));
    assert_eq!(player.queue().len(), 0);
    assert_eq!(player.playing().len(), 1);
}

#[test]
fn render_drains_only_its_voice() {
    let mut player = NotePlayer::with_voices(3);
    player.note_on(Id(1), bits(100.0), bits(0.1));
    player.note_on(Id(2), bits(200.0), bits(0.2));
    let mut buf: Buffer<NoteMessage> = Buffer::new();
    player.generate(1, &mut buf);
    assert_eq!(buf.len(), 1);
    assert!(buf.get(0).id == Id(2));
    assert_eq!(player.queue().len(), 1);
    assert_eq!(player.queue()[0].voice_index, 0);
    let mut again: Buffer<NoteMessage> = Buffer::new();
    player.generate(1, &mut again);
    assert_eq!(again.len(), 0);
}

#[test]
fn pitch_message_retunes_playing_note() {
    let mut player = NotePlayer::with_voices(2);
    player.note_on(Id(5), bits(440.0), bits(0.5));
    let mut buf: Buffer<NoteMessage> = Buffer::new();
    player.generate(0, &mut buf);
    player.message(NoteMessage { id: Id(5), offset: 3, note: Event::Pitch(bits(880.0)) });
    assert_eq!(player.queue().len(), 1);
    assert_eq!(player.queue()[0].voice_index, 0);
    let mut buf: Buffer<NoteMessage> = Buffer::new();
    player.generate(0, &mut buf);
    assert_eq!(buf.len(), 1);
    assert_eq!(buf.get(0).offset, 3);
    assert_eq!(player.playing()[0].pitch, bits(880.0));
}

#[test]
fn pressure_for_unknown_note_is_not_queued() {
    let mut player = NotePlayer::new();
    player.message(NoteMessage { id: Id(1), offset: 0, note: Event::Pressure(bits(0.4)) });
    assert_eq!(player.queue().len(), 0);
}

#[test]
fn freed_voice_is_reused_lowest_first() {
    let mut player = NotePlayer::with_voices(2);
    player.note_on(Id(1), bits(1.0), bits(1.0));
    player.note_on(Id(2), bits(2.0), bits(1.0));
    let mut buf: Buffer<NoteMessage> = Buffer::new();
    player.generate(0, &mut buf);
    player.generate(1, &mut buf);
    player.note_off(Id(1));
    player.generate(0, &mut buf);
    player.note_on(Id(3), bits(3.0), bits(1.0));
    let q = player.queue();
    assert_eq!(q.len(), 1);
    assert_eq!(q[0].voice_index, 0);
}

#[test]
fn id_counter_counts_up() {
    let mut counter = IdCounter::new();
    let a = Id::new(&mut counter);
    let b = counter.next_id();
    assert_eq!(a.num(), 1);
    assert_eq!(b.num(), 2);
    assert_eq!(counter.last_id(), 2);
}

#[test]
fn cancel_withdraws_only_listed_note_ons() {
    let mut player = NotePlayer::with_voices(4);
    player.note_on(Id(1), bits(440.0), bits(1.0));
    player.note_on(Id(2), bits(220.0), bits(1.0));
    player.note_on(Id(3), bits(440.0), bits(1.0));
    player.cancel_note_ons(&vec![bits(440.0)]);
    let q = player.queue();
    assert_eq!(q.len(), 1);
    assert!(q[0].message.id == Id(2));
    assert_eq!(q[0].voice_index, 1);
}

#[test]
fn message_routes_on_off_and_others() {
    let mut player = NotePlayer::with_voices(2);
    player.message(NoteMessage { id: Id(4), offset: 9, note: Event::NoteOn { pitch: bits(330.0), pressure: bits(0.2) } });
    assert_eq!(player.queue().len(), 1);
    assert_eq!(player.queue()[0].message.offset, 0);
    let mut buf: Buffer<NoteMessage> = Buffer::new();
    player.generate(0, &mut buf);
    player.message(NoteMessage { id: Id(4), offset: 2, note: Event::Other(7, bits(0.5)) });
    assert_eq!(player.queue().len(), 1);
    assert!(player.queue()[0].message.note == Event::Other(7, bits(0.5)));
    player.message(NoteMessage { id: Id(4), offset: 5, note: Event::NoteOff });
    assert_eq!(player.queue().len(), 2);
    assert!(player.queue()[1].message.note == Event::NoteOff);
    assert_eq!(player.playing().len(), 0);
    let mut out: Buffer<NoteMessage> = Buffer::new();
    player.generate(0, &mut out);
    assert_eq!(out.len(), 2);
    assert!(out.get(0).note == Event::Other(7, bits(0.5)));
    assert!(out.get(1).note == Event::NoteOff);
    assert_eq!(player.queue().len(), 0);
}

#[test]
fn default_pool_has_sixteen_voices() {
    let mut player = NotePlayer::new();
    assert_eq!(player.max_voice(), 16);
    for i in 0..17u64 {
        player.note_on(Id(i + 1), bits(100.0), bits(1.0));
    }
    let q = player.queue();
    assert_eq!(q.len(), 16);
    for (k, e) in q.iter().enumerate() {
        assert_eq!(e.voice_index as usize, k);
    }
}
