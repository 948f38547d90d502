//! The polyphonic voice scheduler, specified as transitions of its state.

use vstd::prelude::*;

use crate::buffer::Buffer;
use crate::event::{Event, Id, NoteMessage};
use crate::pool::{
    law_cancel_keeps_wf, law_empty_is_wf, law_message_keeps_wf, law_note_off_keeps_wf,
    law_note_on_keeps_wf, law_render_keeps_wf,
};

verus! {

/// An instruction waiting to be rendered into the event buffer of one voice.
#[derive(Clone, Copy, PartialEq, Eq, Structural)]
pub struct NoteQueued {
    pub voice_index: u32,
    pub message: NoteMessage,
}

/// A sounding note: the voice it holds, its identity and its current pitch.
#[derive(Clone, Copy, PartialEq, Eq, Structural)]
pub struct NotePlaying {
    pub voice_index: u32,
    pub id: Id,
    pub pitch: u32,
}

/// The scheduler as a value: pending instructions, sounding notes, voice count.
#[verifier::ext_equal]
pub struct NoteState {
    pub queue: Seq<NoteQueued>,
    pub playing: Seq<NotePlaying>,
    pub max_voice: u32,
}

pub open spec fn other_id(id: Id) -> spec_fn(NotePlaying) -> bool {
    |p: NotePlaying| p.id != id
}

pub open spec fn for_voice(voice: u32) -> spec_fn(NoteQueued) -> bool {
    |q: NoteQueued| q.voice_index == voice
}

pub open spec fn other_voice(voice: u32) -> spec_fn(NoteQueued) -> bool {
    |q: NoteQueued| q.voice_index != voice
}

pub open spec fn message_of() -> spec_fn(NoteQueued) -> NoteMessage {
    |q: NoteQueued| q.message
}

pub open spec fn note_on_message(id: Id, pitch: u32, pressure: u32) -> NoteMessage {
    NoteMessage { id, offset: 0, note: Event::NoteOn { pitch, pressure } }
}

pub open spec fn note_off_message(id: Id) -> NoteMessage {
    NoteMessage { id, offset: 0, note: Event::NoteOff }
}

/// One queued copy of `message` for each entry of `playing` whose identity is `id`,
/// addressed to that entry's voice, in list order.
pub open spec fn to_voices_of(playing: Seq<NotePlaying>, id: Id, message: NoteMessage) -> Seq<
    NoteQueued,
>
    decreases playing.len(),
{
    if playing.len() == 0 {
        Seq::empty()
    } else {
        let rest = to_voices_of(playing.drop_last(), id, message);
        if playing.last().id == id {
            rest.push(NoteQueued { voice_index: playing.last().voice_index, message })
        } else {
            rest
        }
    }
}

/// Sets the pitch of every entry of identity `id` to `pitch`.
pub open spec fn retune(playing: Seq<NotePlaying>, id: Id, pitch: u32) -> Seq<NotePlaying> {
    playing.map_values(
        |p: NotePlaying|
            if p.id == id {
                NotePlaying { voice_index: p.voice_index, id: p.id, pitch }
            } else {
                p
            },
    )
}

/// What rendering one instruction does to the list of sounding notes.
pub open spec fn apply_queued(playing: Seq<NotePlaying>, q: NoteQueued) -> Seq<NotePlaying> {
    match q.message.note {
        Event::NoteOn { pitch, pressure: _ } => playing.push(
            NotePlaying { voice_index: q.voice_index, id: q.message.id, pitch },
        ),
        Event::NoteOff => playing.filter(other_id(q.message.id)),
        Event::Pitch(pitch) => retune(playing, q.message.id, pitch),
        _ => playing,
    }
}

/// The sounding notes after rendering, in order, the instructions of `queue` that
/// are addressed to `voice`.
pub open spec fn apply_for_voice(playing: Seq<NotePlaying>, queue: Seq<NoteQueued>, voice: u32) -> Seq<
    NotePlaying,
>
    decreases queue.len(),
{
    if queue.len() == 0 {
        playing
    } else {
        let before = apply_for_voice(playing, queue.drop_last(), voice);
        if queue.last().voice_index == voice {
            apply_queued(before, queue.last())
        } else {
            before
        }
    }
}

/// Keeps an instruction unless it is a note-on whose pitch is one of `pitches`.
pub open spec fn not_note_on_of(pitches: Seq<u32>) -> spec_fn(NoteQueued) -> bool {
    |q: NoteQueued|
        match q.message.note {
            Event::NoteOn { pitch, pressure: _ } => !pitches.contains(pitch),
            _ => true,
        }
}

impl NoteState {
    pub open spec fn playing_on(self, v: u32) -> bool {
        exists|i: int| 0 <= i < self.playing.len() && #[trigger] self.playing[i].voice_index == v
    }

    pub open spec fn queued_on(self, v: u32) -> bool {
        exists|i: int| 0 <= i < self.queue.len() && #[trigger] self.queue[i].voice_index == v
    }

    /// A voice is busy while it sounds a note or has an instruction pending.
    pub open spec fn busy(self, v: u32) -> bool {
        self.playing_on(v) || self.queued_on(v)
    }

    /// `v` is the lowest voice below `max_voice` that is not busy.
    pub open spec fn first_free(self, v: u32) -> bool {
        &&& v < self.max_voice
        &&& !self.busy(v)
        &&& forall|w: u32| w < v ==> #[trigger] self.busy(w)
    }

    /// The voices below `max_voice` that are busy.
    pub open spec fn taken_voices(self) -> Set<u32> {
        Set::new(|v: u32| v < self.max_voice && self.busy(v))
    }

    pub open spec fn has_free_voice(self) -> bool {
        exists|v: u32| self.first_free(v)
    }

    pub open spec fn free_voice(self) -> u32 {
        choose|v: u32| self.first_free(v)
    }

    /// A note-on goes to the lowest free voice; with no voice free it is dropped.
    pub open spec fn note_on(self, id: Id, pitch: u32, pressure: u32) -> NoteState {
        if self.has_free_voice() {
            NoteState {
                queue: self.queue.push(
                    NoteQueued {
                        voice_index: self.free_voice(),
                        message: note_on_message(id, pitch, pressure),
                    },
                ),
                playing: self.playing,
                max_voice: self.max_voice,
            }
        } else {
            self
        }
    }

    /// A note-off is queued for every voice that sounds `id`, and `id` stops counting
    /// as sounding at once.
    pub open spec fn note_off(self, id: Id) -> NoteState {
        NoteState {
            queue: self.queue + to_voices_of(self.playing, id, note_off_message(id)),
            playing: self.playing.filter(other_id(id)),
            max_voice: self.max_voice,
        }
    }

    pub open spec fn message(self, m: NoteMessage) -> NoteState {
        match m.note {
            Event::NoteOn { pitch, pressure } => self.note_on(m.id, pitch, pressure),
            Event::NoteOff => self.note_off(m.id),
            _ => NoteState {
                queue: self.queue + to_voices_of(self.playing, m.id, m),
                playing: self.playing,
                max_voice: self.max_voice,
            },
        }
    }

    /// Pending note-ons of the given pitches are withdrawn.
    pub open spec fn cancel_note_ons(self, pitches: Seq<u32>) -> NoteState {
        NoteState {
            queue: self.queue.filter(not_note_on_of(pitches)),
            playing: self.playing,
            max_voice: self.max_voice,
        }
    }

    /// The messages that rendering `voice` hands out, in queue order.
    pub open spec fn rendered(self, voice: u32) -> Seq<NoteMessage> {
        self.queue.filter(for_voice(voice)).map_values(message_of())
    }

    /// The state after rendering `voice`: its instructions leave the queue and take
    /// effect on the sounding notes.
    pub open spec fn render(self, voice: u32) -> NoteState {
        NoteState {
            queue: self.queue.filter(other_voice(voice)),
            playing: apply_for_voice(self.playing, self.queue, voice),
            max_voice: self.max_voice,
        }
    }
}

} // verus!

verus! {

/// Removes, in place and keeping order, every entry whose identity is `id`.
fn remove_id(v: &mut Vec<NotePlaying>, id: Id)
    ensures
        final(v)@ == old(v)@.filter(other_id(id)),
{
    let ghost before = old(v)@;
    let n = v.len();
    let mut i: usize = 0;
    let mut j: usize = 0;
    while i < n
        invariant
            j <= i <= n,
            n == before.len(),
            v@.len() == n,
            v@.subrange(0, j as int) == before.take(i as int).filter(other_id(id)),
            forall|k: int| i <= k < n ==> v@[k] == before[k],
        decreases n - i,
    {
        let p = v[i];
        proof {
            reveal(Seq::filter);
            assert(before.take(i + 1).drop_last() =~= before.take(i as int));
            assert(before.take(i + 1).last() == p);
        }
        if p.id != id {
            v.set(j, p);
            j = j + 1;
        }
        i = i + 1;
        assert(v@.subrange(0, j as int) =~= before.take(i as int).filter(other_id(id)));
    }
    v.truncate(j);
    assert(before.take(n as int) =~= before);
    assert(v@ =~= before.filter(other_id(id)));
}

/// Removes, in place and keeping order, every entry addressed to `voice`.
fn remove_voice(v: &mut Vec<NoteQueued>, voice: u32)
    ensures
        final(v)@ == old(v)@.filter(other_voice(voice)),
{
    let ghost before = old(v)@;
    let n = v.len();
    let mut i: usize = 0;
    let mut j: usize = 0;
    while i < n
        invariant
            j <= i <= n,
            n == before.len(),
            v@.len() == n,
            v@.subrange(0, j as int) == before.take(i as int).filter(other_voice(voice)),
            forall|k: int| i <= k < n ==> v@[k] == before[k],
        decreases n - i,
    {
        let q = v[i];
        proof {
            reveal(Seq::filter);
            assert(before.take(i + 1).drop_last() =~= before.take(i as int));
            assert(before.take(i + 1).last() == q);
        }
        if q.voice_index != voice {
            v.set(j, q);
            j = j + 1;
        }
        i = i + 1;
        assert(v@.subrange(0, j as int) =~= before.take(i as int).filter(other_voice(voice)));
    }
    v.truncate(j);
    assert(before.take(n as int) =~= before);
    assert(v@ =~= before.filter(other_voice(voice)));
}

fn pitch_listed(pitches: &Vec<u32>, pitch: u32) -> (r: bool)
    ensures
        r == pitches@.contains(pitch),
{
    let mut i: usize = 0;
    while i < pitches.len()
        invariant
            i <= pitches@.len(),
            forall|k: int| 0 <= k < i ==> pitches@[k] != pitch,
        decreases pitches@.len() - i,
    {
        if pitches[i] == pitch {
            return true;
        }
        i = i + 1;
    }
    false
}

fn keeps_note_on(q: NoteQueued, pitches: &Vec<u32>) -> (r: bool)
    ensures
        r == not_note_on_of(pitches@)(q),
{
    match q.message.note {
        Event::NoteOn { pitch, pressure: _ } => !pitch_listed(pitches, pitch),
        _ => true,
    }
}

/// Removes, in place and keeping order, every pending note-on of a listed pitch.
fn remove_note_ons(v: &mut Vec<NoteQueued>, pitches: &Vec<u32>)
    ensures
        final(v)@ == old(v)@.filter(not_note_on_of(pitches@)),
{
    let ghost before = old(v)@;
    let ghost keep = not_note_on_of(pitches@);
    let n = v.len();
    let mut i: usize = 0;
    let mut j: usize = 0;
    while i < n
        invariant
            j <= i <= n,
            n == before.len(),
            v@.len() == n,
            keep == not_note_on_of(pitches@),
            v@.subrange(0, j as int) == before.take(i as int).filter(keep),
            forall|k: int| i <= k < n ==> v@[k] == before[k],
        decreases n - i,
    {
        let q = v[i];
        proof {
            reveal(Seq::filter);
            assert(before.take(i + 1).drop_last() =~= before.take(i as int));
            assert(before.take(i + 1).last() == q);
        }
        if keeps_note_on(q, pitches) {
            v.set(j, q);
            j = j + 1;
        }
        i = i + 1;
        assert(v@.subrange(0, j as int) =~= before.take(i as int).filter(keep));
    }
    v.truncate(j);
    assert(before.take(n as int) =~= before);
    assert(v@ =~= before.filter(keep));
}

/// Sets the pitch of every entry of identity `id`.
fn retune_in_place(v: &mut Vec<NotePlaying>, id: Id, pitch: u32)
    ensures
        final(v)@ == retune(old(v)@, id, pitch),
{
    let ghost before = old(v)@;
    let n = v.len();
    let mut i: usize = 0;
    while i < n
        invariant
            i <= n,
            n == before.len(),
            v@.len() == n,
            forall|k: int| 0 <= k < i ==> v@[k] == retune(before, id, pitch)[k],
            forall|k: int| i <= k < n ==> v@[k] == before[k],
        decreases n - i,
    {
        let p = v[i];
        if p.id == id {
            v.set(i, NotePlaying { voice_index: p.voice_index, id: p.id, pitch });
        }
        i = i + 1;
    }
    assert(v@ =~= retune(before, id, pitch));
}

fn voice_in_playing(playing: &Vec<NotePlaying>, voice: u32) -> (r: bool)
    ensures
        r == exists|i: int| 0 <= i < playing@.len() && #[trigger] playing@[i].voice_index == voice,
{
    let mut i: usize = 0;
    while i < playing.len()
        invariant
            i <= playing@.len(),
            forall|k: int| 0 <= k < i ==> #[trigger] playing@[k].voice_index != voice,
        decreases playing@.len() - i,
    {
        if playing[i].voice_index == voice {
            return true;
        }
        i = i + 1;
    }
    false
}

fn voice_in_queue(queue: &Vec<NoteQueued>, voice: u32) -> (r: bool)
    ensures
        r == exists|i: int| 0 <= i < queue@.len() && #[trigger] queue@[i].voice_index == voice,
{
    let mut i: usize = 0;
    while i < queue.len()
        invariant
            i <= queue@.len(),
            forall|k: int| 0 <= k < i ==> #[trigger] queue@[k].voice_index != voice,
        decreases queue@.len() - i,
    {
        if queue[i].voice_index == voice {
            return true;
        }
        i = i + 1;
    }
    false
}

/// The polyphonic voice scheduler: maps note events onto a bounded pool of voices.
pub struct NotePlayer {
    queue: Vec<NoteQueued>,
    playing: Vec<NotePlaying>,
    max_voice: u32,
}

impl View for NotePlayer {
    type V = NoteState;

    closed spec fn view(&self) -> NoteState {
        NoteState { queue: self.queue@, playing: self.playing@, max_voice: self.max_voice }
    }
}

impl NotePlayer {
    /// A scheduler of 16 voices with nothing queued or playing.
    pub fn new() -> (r: NotePlayer)
        ensures
            r@.queue.len() == 0,
            r@.playing.len() == 0,
            r@.max_voice == 16,
            r@.wf(),
    {
        NotePlayer::with_voices(16)
    }

    /// A scheduler of `max_voice` voices with nothing queued or playing.
    pub fn with_voices(max_voice: u32) -> (r: NotePlayer)
        ensures
            r@.queue.len() == 0,
            r@.playing.len() == 0,
            r@.max_voice == max_voice,
            r@.wf(),
    {
        let r = NotePlayer {
            queue: Vec::with_capacity(64),
            playing: Vec::with_capacity(64),
            max_voice,
        };
        proof {
            law_empty_is_wf(r@);
        }
        r
    }

    pub fn max_voice(&self) -> (r: u32)
        ensures
            r == self@.max_voice,
    {
        self.max_voice
    }

    /// The sounding notes, in the order they started.
    pub fn playing(&self) -> (r: &Vec<NotePlaying>)
        ensures
            r@ == self@.playing,
    {
        &self.playing
    }

    /// The instructions not yet rendered, in the order they were queued.
    pub fn queue(&self) -> (r: &Vec<NoteQueued>)
        ensures
            r@ == self@.queue,
    {
        &self.queue
    }

    /// Queues a note-on for the lowest voice that neither sounds a note nor has an
    /// instruction pending. With every voice taken the note is dropped.
    pub fn note_on(&mut self, id: Id, pitch: u32, pressure: u32)
        ensures
            final(self)@ == old(self)@.note_on(id, pitch, pressure),
            old(self)@.wf() ==> final(self)@.wf(),
    {
        proof {
            if old(self)@.wf() {
                law_note_on_keeps_wf(self@, id, pitch, pressure);
            }
        }
        let ghost s0 = self@;
        let mut i: u32 = 0;
        while i < self.max_voice
            invariant
                self@ == s0,
                s0 == old(self)@,
                s0.wf() ==> s0.note_on(id, pitch, pressure).wf(),
                forall|w: u32| w < i ==> #[trigger] s0.busy(w),
            decreases s0.max_voice - i,
        {
            let in_playing = voice_in_playing(&self.playing, i);
            let in_queue = voice_in_queue(&self.queue, i);
            if !in_playing && !in_queue {
                proof {
                    assert(s0.first_free(i));
                    let c = s0.free_voice();
                    assert(s0.first_free(c));
                    if c < i {
                        assert(s0.busy(c));
                    }
                    if i < c {
                        assert(s0.busy(i));
                    }
                }
                self.queue.push(
                    NoteQueued {
                        voice_index: i,
                        message: NoteMessage {
                            id,
                            offset: 0,
                            note: Event::NoteOn { pitch, pressure },
                        },
                    },
                );
                assert(self@ =~= s0.note_on(id, pitch, pressure));
                return;
            }
            proof {
                assert(self.playing@ == s0.playing && self.queue@ == s0.queue);
                if in_playing {
                    assert(s0.playing_on(i));
                } else {
                    assert(s0.queued_on(i));
                }
            }
            i = i + 1;
        }
        proof {
            if s0.has_free_voice() {
                let c = s0.free_voice();
                assert(s0.first_free(c));
                assert(s0.busy(c));
            }
        }
    }

    /// Queues `message` once for each sounding entry of identity `id`.
    fn queue_for_id(&mut self, id: Id, message: NoteMessage)
        ensures
            final(self)@.queue == old(self)@.queue + to_voices_of(old(self)@.playing, id, message),
            final(self)@.playing == old(self)@.playing,
            final(self)@.max_voice == old(self)@.max_voice,
    {
        let ghost s0 = self@;
        let n = self.playing.len();
        let mut i: usize = 0;
        while i < n
            invariant
                i <= n,
                n == s0.playing.len(),
                self.playing@ == s0.playing,
                self.max_voice == s0.max_voice,
                self.queue@ == s0.queue + to_voices_of(s0.playing.take(i as int), id, message),
            decreases n - i,
        {
            let p = self.playing[i];
            proof {
                assert(s0.playing.take(i + 1).drop_last() =~= s0.playing.take(i as int));
                assert(s0.playing.take(i + 1).last() == p);
            }
            if p.id == id {
                self.queue.push(NoteQueued { voice_index: p.voice_index, message });
            }
            i = i + 1;
            assert(self.queue@ =~= s0.queue + to_voices_of(s0.playing.take(i as int), id, message));
        }
        assert(s0.playing.take(n as int) =~= s0.playing);
    }

    /// Queues a note-off for every voice that sounds `id`, then forgets `id` as
    /// sounding. With no such voice nothing changes.
    pub fn note_off(&mut self, id: Id)
        ensures
            final(self)@ == old(self)@.note_off(id),
            old(self)@.wf() ==> final(self)@.wf(),
    {
        proof {
            if old(self)@.wf() {
                law_note_off_keeps_wf(self@, id);
            }
        }
        self.queue_for_id(id, NoteMessage { id, offset: 0, note: Event::NoteOff });
        remove_id(&mut self.playing, id);
    }

    /// Routes a message: note-on and note-off as above; any other kind is queued for
    /// each voice that sounds the message's identity.
    pub fn message(&mut self, message: NoteMessage)
        ensures
            final(self)@ == old(self)@.message(message),
            old(self)@.wf() ==> final(self)@.wf(),
    {
        proof {
            if old(self)@.wf() {
                law_message_keeps_wf(self@, message);
            }
        }
        match message.note {
            Event::NoteOn { pitch, pressure } => {
                self.note_on(message.id, pitch, pressure);
            },
            Event::NoteOff => {
                self.note_off(message.id);
            },
            _ => {
                self.queue_for_id(message.id, message);
            },
        }
    }

    /// Withdraws every pending note-on whose pitch is one of `pitches`.
    pub fn cancel_note_ons(&mut self, pitches: &Vec<u32>)
        ensures
            final(self)@ == old(self)@.cancel_note_ons(pitches@),
            old(self)@.wf() ==> final(self)@.wf(),
    {
        proof {
            if old(self)@.wf() {
                law_cancel_keeps_wf(self@, pitches@);
            }
        }
        remove_note_ons(&mut self.queue, pitches);
    }

    fn apply_one(&mut self, q: NoteQueued)
        ensures
            final(self)@.playing == apply_queued(old(self)@.playing, q),
            final(self)@.queue == old(self)@.queue,
            final(self)@.max_voice == old(self)@.max_voice,
    {
        match q.message.note {
            Event::NoteOn { pitch, pressure: _ } => {
                self.playing.push(
                    NotePlaying { voice_index: q.voice_index, id: q.message.id, pitch },
                );
            },
            Event::NoteOff => {
                remove_id(&mut self.playing, q.message.id);
            },
            Event::Pitch(pitch) => {
                retune_in_place(&mut self.playing, q.message.id, pitch);
            },
            _ => {},
        }
    }

    /// Renders every pending instruction for `voice`, in queue order: each takes
    /// effect on the sounding notes and is pushed to `output`, then all of them
    /// leave the queue.
    pub fn generate(&mut self, voice: u32, output: &mut Buffer<NoteMessage>)
        ensures
            final(self)@ == old(self)@.render(voice),
            final(output)@ == old(output)@ + old(self)@.rendered(voice),
            old(self)@.wf() ==> final(self)@.wf(),
    {
        proof {
            if old(self)@.wf() {
                law_render_keeps_wf(self@, voice);
            }
        }
        let ghost s0 = self@;
        let ghost out0 = output@;
        let n = self.queue.len();
        let mut i: usize = 0;
        while i < n
            invariant
                i <= n,
                n == s0.queue.len(),
                self.queue@ == s0.queue,
                self.max_voice == s0.max_voice,
                self.playing@ == apply_for_voice(s0.playing, s0.queue.take(i as int), voice),
                output@ == out0 + s0.queue.take(i as int).filter(for_voice(voice)).map_values(
                    message_of(),
                ),
            decreases n - i,
        {
            let q = self.queue[i];
            proof {
                reveal(Seq::filter);
                assert(s0.queue.take(i + 1).drop_last() =~= s0.queue.take(i as int));
                assert(s0.queue.take(i + 1).last() == q);
            }
            if q.voice_index == voice {
                self.apply_one(q);
                output.push(q.message);
            }
            i = i + 1;
            assert(output@ =~= out0 + s0.queue.take(i as int).filter(for_voice(voice)).map_values(
                message_of(),
            ));
        }
        assert(s0.queue.take(n as int) =~= s0.queue);
        remove_voice(&mut self.queue, voice);
        assert(self@ =~= s0.render(voice));
    }
}

} // verus!

verus! {

proof fn lemma_lowest_free_exists(s: NoteState, v: u32)
    requires
        v < s.max_voice,
        !s.busy(v),
    ensures
        s.has_free_voice(),
    decreases v,
{
    if forall|w: u32| w < v ==> #[trigger] s.busy(w) {
        assert(s.first_free(v));
    } else {
        let w = choose|w: u32| w < v && !#[trigger] s.busy(w);
        lemma_lowest_free_exists(s, w);
    }
}

proof fn lemma_no_match_queues_nothing(playing: Seq<NotePlaying>, id: Id, message: NoteMessage)
    requires
        forall|i: int| 0 <= i < playing.len() ==> #[trigger] playing[i].id != id,
    ensures
        to_voices_of(playing, id, message).len() == 0,
    decreases playing.len(),
{
    if playing.len() > 0 {
        lemma_no_match_queues_nothing(playing.drop_last(), id, message);
    }
}

proof fn lemma_no_match_keeps_all(playing: Seq<NotePlaying>, id: Id)
    requires
        forall|i: int| 0 <= i < playing.len() ==> #[trigger] playing[i].id != id,
    ensures
        playing.filter(other_id(id)) == playing,
    decreases playing.len(),
{
    reveal(Seq::filter);
    if playing.len() > 0 {
        lemma_no_match_keeps_all(playing.drop_last(), id);
        assert(playing.drop_last().push(playing.last()) =~= playing);
    }
}

proof fn lemma_voices_below(n: u32)
    ensures
        Set::new(|v: u32| v < n).finite(),
        Set::new(|v: u32| v < n).len() == n,
    decreases n,
{
    if n == 0 {
        assert(Set::new(|v: u32| v < n) =~= Set::<u32>::empty());
    } else {
        let m = (n - 1) as u32;
        lemma_voices_below(m);
        assert(Set::new(|v: u32| v < n) =~= Set::new(|v: u32| v < m).insert(m));
    }
}

/// While fewer than `max_voice` voices are busy, a note-on is queued for a voice
/// below `max_voice` that nothing else holds: no sounding note and no pending
/// instruction. So notes started one after another while voices remain each get
/// a voice of their own.
pub proof fn law_note_on_takes_free_voice(s: NoteState, id: Id, pitch: u32, pressure: u32)
    requires
        s.taken_voices().len() < s.max_voice,
    ensures
        ({
            let t = s.note_on(id, pitch, pressure);
            &&& t.playing == s.playing
            &&& t.queue.len() == s.queue.len() + 1
            &&& t.queue.drop_last() == s.queue
            &&& t.queue.last().voice_index < s.max_voice
            &&& !s.busy(t.queue.last().voice_index)
            &&& t.busy(t.queue.last().voice_index)
            &&& t.queue.last().message == note_on_message(id, pitch, pressure)
        }),
{
    lemma_voices_below(s.max_voice);
    vstd::set_lib::lemma_len_subset(s.taken_voices(), Set::new(|v: u32| v < s.max_voice));
    if forall|v: u32| v < s.max_voice ==> #[trigger] s.busy(v) {
        assert(s.taken_voices() =~= Set::new(|v: u32| v < s.max_voice));
    }
    let v = choose|v: u32| v < s.max_voice && !s.busy(v);
    lemma_lowest_free_exists(s, v);
    let t = s.note_on(id, pitch, pressure);
    assert(t.queue.drop_last() =~= s.queue);
    assert(t.queue[t.queue.len() - 1].voice_index == t.queue.last().voice_index);
}

/// With all `max_voice` voices busy, a further note-on is dropped: nothing changes.
pub proof fn law_note_on_when_full(s: NoteState, id: Id, pitch: u32, pressure: u32)
    requires
        s.taken_voices().len() == s.max_voice,
    ensures
        s.note_on(id, pitch, pressure) == s,
{
    lemma_voices_below(s.max_voice);
    vstd::set_lib::lemma_len_subset(s.taken_voices(), Set::new(|v: u32| v < s.max_voice));
    vstd::set_lib::lemma_subset_equality(s.taken_voices(), Set::new(|v: u32| v < s.max_voice));
    if s.has_free_voice() {
        let c = s.free_voice();
        assert(s.first_free(c));
        assert(Set::new(|v: u32| v < s.max_voice).contains(c));
        assert(s.taken_voices().contains(c));
        assert(s.busy(c));
    }
}

/// A note-off for an identity that no sounding note has changes nothing.
pub proof fn law_note_off_unmatched(s: NoteState, id: Id)
    requires
        forall|i: int| 0 <= i < s.playing.len() ==> #[trigger] s.playing[i].id != id,
    ensures
        s.note_off(id) == s,
{
    lemma_no_match_queues_nothing(s.playing, id, note_off_message(id));
    lemma_no_match_keeps_all(s.playing, id);
    assert(s.queue + to_voices_of(s.playing, id, note_off_message(id)) =~= s.queue);
    assert(s.note_off(id) =~= s);
}

/// Rendering a voice hands out each instruction queued for it once, in queue
/// order, and leaves none for it behind; instructions for other voices stay, in
/// order. Rendering the same voice again hands out nothing.
pub proof fn law_render_drains_voice(s: NoteState, voice: u32)
    ensures
        s.rendered(voice).len() == s.queue.filter(for_voice(voice)).len(),
        forall|k: int|
            0 <= k < s.rendered(voice).len() ==> s.rendered(voice)[k] == s.queue.filter(
                for_voice(voice),
            )[k].message,
        forall|k: int|
            0 <= k < s.queue.filter(for_voice(voice)).len() ==> (#[trigger] s.queue.filter(
                for_voice(voice),
            )[k]).voice_index == voice,
        !s.render(voice).queued_on(voice),
        s.render(voice).queue == s.queue.filter(other_voice(voice)),
        s.render(voice).rendered(voice).len() == 0,
{
    let r = s.render(voice);
    assert forall|k: int| 0 <= k < s.queue.filter(for_voice(voice)).len() implies (#[trigger] s.queue.filter(
        for_voice(voice),
    )[k]).voice_index == voice by {
        s.queue.lemma_filter_pred(for_voice(voice), k);
    }
    assert forall|i: int| 0 <= i < r.queue.len() implies #[trigger] r.queue[i].voice_index != voice by {
        s.queue.lemma_filter_pred(other_voice(voice), i);
    }
    if r.queue.filter(for_voice(voice)).len() > 0 {
        r.queue.lemma_filter_pred(for_voice(voice), 0);
        r.queue.lemma_filter_contains_rev(for_voice(voice), r.queue.filter(for_voice(voice))[0]);
    }
}

} // verus!
