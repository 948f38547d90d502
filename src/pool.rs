//! Well-formedness of the voice scheduler's state, kept by every operation.

use vstd::prelude::*;

use crate::event::{Event, Id, NoteMessage};
use crate::voices::{
    NotePlaying, NoteQueued, NoteState, apply_for_voice, apply_queued, for_voice,
    not_note_on_of, other_id, other_voice, retune, to_voices_of,
};

verus! {

pub open spec fn is_note_on(q: NoteQueued) -> bool {
    match q.message.note {
        Event::NoteOn { .. } => true,
        _ => false,
    }
}

/// Some entry of `p` sounds on voice `w`.
pub open spec fn holds_voice(p: Seq<NotePlaying>, w: u32) -> bool {
    exists|i: int| 0 <= i < p.len() && #[trigger] p[i].voice_index == w
}

/// No two entries of `p` sound on the same voice.
pub open spec fn voices_distinct(p: Seq<NotePlaying>) -> bool {
    forall|i: int, j: int|
        0 <= i < p.len() && 0 <= j < p.len() && i != j ==> #[trigger] p[i].voice_index
            != #[trigger] p[j].voice_index
}

/// The sounding notes after applying `entries` in order, whatever voice they name.
pub open spec fn apply_all(p: Seq<NotePlaying>, entries: Seq<NoteQueued>) -> Seq<NotePlaying>
    decreases entries.len(),
{
    if entries.len() == 0 {
        p
    } else {
        apply_queued(apply_all(p, entries.drop_last()), entries.last())
    }
}

impl NoteState {
    /// No voice sounds two notes, and a voice with a note-on pending holds nothing
    /// else: no sounding note and no other pending instruction.
    pub open spec fn wf(self) -> bool {
        &&& voices_distinct(self.playing)
        &&& forall|k: int|
            0 <= k < self.queue.len() && #[trigger] is_note_on(self.queue[k]) ==> {
                &&& !holds_voice(self.playing, self.queue[k].voice_index)
                &&& self.queue.filter(for_voice(self.queue[k].voice_index)).len() == 1
            }
    }
}

proof fn lemma_filter_holds<A>(s: Seq<A>, pred: spec_fn(A) -> bool, i: int)
    requires
        0 <= i < s.filter(pred).len(),
    ensures
        exists|j: int| 0 <= j < s.len() && s[j] == s.filter(pred)[i],
        pred(s.filter(pred)[i]),
{
    s.lemma_filter_pred(pred, i);
    assert(s.filter(pred).contains(s.filter(pred)[i]));
    s.lemma_filter_contains_rev(pred, s.filter(pred)[i]);
}

proof fn lemma_filter_keeps_distinct(p: Seq<NotePlaying>, pred: spec_fn(NotePlaying) -> bool)
    requires
        voices_distinct(p),
    ensures
        voices_distinct(p.filter(pred)),
    decreases p.len(),
{
    reveal(Seq::filter);
    if p.len() > 0 {
        let init = p.drop_last();
        assert(voices_distinct(init)) by {
            assert forall|i: int, j: int|
                0 <= i < init.len() && 0 <= j < init.len() && i != j implies #[trigger] init[i].voice_index
                != #[trigger] init[j].voice_index by {
                assert(init[i] == p[i] && init[j] == p[j]);
            }
        }
        lemma_filter_keeps_distinct(init, pred);
        let f0 = init.filter(pred);
        if pred(p.last()) {
            assert forall|i: int| 0 <= i < f0.len() implies f0[i].voice_index != p.last().voice_index by {
                lemma_filter_holds(init, pred, i);
                let j = choose|j: int| 0 <= j < init.len() && init[j] == f0[i];
                assert(p[j] == init[j]);
                assert(p[p.len() - 1] == p.last());
            }
            let f = f0.push(p.last());
            assert forall|i: int, j: int|
                0 <= i < f.len() && 0 <= j < f.len() && i != j implies #[trigger] f[i].voice_index
                != #[trigger] f[j].voice_index by {
                if i < f0.len() && j < f0.len() {
                    assert(f[i] == f0[i] && f[j] == f0[j]);
                } else if i < f0.len() {
                    assert(f[i] == f0[i]);
                } else {
                    assert(f[j] == f0[j]);
                }
            }
        }
    }
}

proof fn lemma_filter_holds_voice(p: Seq<NotePlaying>, pred: spec_fn(NotePlaying) -> bool, w: u32)
    requires
        holds_voice(p.filter(pred), w),
    ensures
        holds_voice(p, w),
{
    let i = choose|i: int| 0 <= i < p.filter(pred).len() && #[trigger] p.filter(pred)[i].voice_index == w;
    lemma_filter_holds(p, pred, i);
    let j = choose|j: int| 0 <= j < p.len() && p[j] == p.filter(pred)[i];
    assert(p[j].voice_index == w);
}

proof fn lemma_to_voices_of(playing: Seq<NotePlaying>, id: Id, m: NoteMessage)
    ensures
        forall|k: int|
            0 <= k < to_voices_of(playing, id, m).len() ==> {
                &&& (#[trigger] to_voices_of(playing, id, m)[k]).message == m
                &&& holds_voice(playing, to_voices_of(playing, id, m)[k].voice_index)
            },
    decreases playing.len(),
{
    if playing.len() > 0 {
        let init = playing.drop_last();
        lemma_to_voices_of(init, id, m);
        let r = to_voices_of(playing, id, m);
        assert forall|k: int| 0 <= k < r.len() implies {
            &&& (#[trigger] r[k]).message == m
            &&& holds_voice(playing, r[k].voice_index)
        } by {
            let r0 = to_voices_of(init, id, m);
            if k < r0.len() {
                assert(r[k] == r0[k]);
                let i = choose|i: int| 0 <= i < init.len() && #[trigger] init[i].voice_index == r0[k].voice_index;
                assert(playing[i] == init[i]);
            } else {
                assert(playing[playing.len() - 1] == playing.last());
            }
        }
    }
}

proof fn lemma_absent_voice_filters_empty(q: Seq<NoteQueued>, w: u32)
    requires
        forall|i: int| 0 <= i < q.len() ==> #[trigger] q[i].voice_index != w,
    ensures
        q.filter(for_voice(w)).len() == 0,
    decreases q.len(),
{
    reveal(Seq::filter);
    if q.len() > 0 {
        let init = q.drop_last();
        assert forall|i: int| 0 <= i < init.len() implies #[trigger] init[i].voice_index != w by {
            assert(init[i] == q[i]);
        }
        lemma_absent_voice_filters_empty(init, w);
        assert(q[q.len() - 1] == q.last());
    }
}

proof fn lemma_filter_other_then_voice(q: Seq<NoteQueued>, v: u32, w: u32)
    requires
        v != w,
    ensures
        q.filter(other_voice(v)).filter(for_voice(w)) == q.filter(for_voice(w)),
    decreases q.len(),
{
    reveal(Seq::filter);
    if q.len() > 0 {
        lemma_filter_other_then_voice(q.drop_last(), v, w);
        let last = q.last();
        if last.voice_index != v {
            assert(q.filter(other_voice(v)).drop_last() =~= q.drop_last().filter(other_voice(v)));
            assert(q.filter(other_voice(v)).last() == last);
        }
    }
}

proof fn lemma_filter_len_of_filtered(
    q: Seq<NoteQueued>,
    keep: spec_fn(NoteQueued) -> bool,
    w: u32,
)
    ensures
        q.filter(keep).filter(for_voice(w)).len() <= q.filter(for_voice(w)).len(),
    decreases q.len(),
{
    reveal(Seq::filter);
    if q.len() > 0 {
        lemma_filter_len_of_filtered(q.drop_last(), keep, w);
        if keep(q.last()) {
            assert(q.filter(keep).drop_last() =~= q.drop_last().filter(keep));
            assert(q.filter(keep).last() == q.last());
        }
    }
}

proof fn lemma_apply_by_filter(p: Seq<NotePlaying>, q: Seq<NoteQueued>, v: u32)
    ensures
        apply_for_voice(p, q, v) == apply_all(p, q.filter(for_voice(v))),
    decreases q.len(),
{
    reveal(Seq::filter);
    if q.len() > 0 {
        lemma_apply_by_filter(p, q.drop_last(), v);
        if q.last().voice_index == v {
            let f = q.filter(for_voice(v));
            assert(f.drop_last() =~= q.drop_last().filter(for_voice(v)));
            assert(f.last() == q.last());
        }
    }
}

} // verus!

verus! {

proof fn lemma_retune_keeps_voices(p: Seq<NotePlaying>, id: Id, pitch: u32)
    ensures
        retune(p, id, pitch).len() == p.len(),
        forall|i: int|
            0 <= i < p.len() ==> (#[trigger] retune(p, id, pitch)[i]).voice_index == p[i].voice_index,
{
}

proof fn lemma_apply_without_note_on(p: Seq<NotePlaying>, e: Seq<NoteQueued>)
    requires
        voices_distinct(p),
        forall|k: int| 0 <= k < e.len() ==> !is_note_on(#[trigger] e[k]),
    ensures
        voices_distinct(apply_all(p, e)),
        forall|w: u32| holds_voice(apply_all(p, e), w) ==> holds_voice(p, w),
    decreases e.len(),
{
    if e.len() > 0 {
        let init = e.drop_last();
        assert forall|k: int| 0 <= k < init.len() implies !is_note_on(#[trigger] init[k]) by {
            assert(init[k] == e[k]);
        }
        lemma_apply_without_note_on(p, init);
        let r0 = apply_all(p, init);
        let q = e.last();
        assert(e[e.len() - 1] == q);
        match q.message.note {
            Event::NoteOff => {
                lemma_filter_keeps_distinct(r0, other_id(q.message.id));
                assert forall|w: u32| holds_voice(apply_all(p, e), w) implies holds_voice(p, w) by {
                    lemma_filter_holds_voice(r0, other_id(q.message.id), w);
                }
            },
            Event::Pitch(pitch) => {
                lemma_retune_keeps_voices(r0, q.message.id, pitch);
                let r = retune(r0, q.message.id, pitch);
                assert forall|i: int, j: int|
                    0 <= i < r.len() && 0 <= j < r.len() && i != j implies #[trigger] r[i].voice_index
                    != #[trigger] r[j].voice_index by {
                    assert(r[i].voice_index == r0[i].voice_index);
                    assert(r[j].voice_index == r0[j].voice_index);
                }
                assert forall|w: u32| holds_voice(apply_all(p, e), w) implies holds_voice(p, w) by {
                    let i = choose|i: int| 0 <= i < r.len() && #[trigger] r[i].voice_index == w;
                    assert(r0[i].voice_index == w);
                }
            },
            _ => {},
        }
    }
}

/// A scheduler with nothing queued or playing is well formed.
pub proof fn law_empty_is_wf(s: NoteState)
    requires
        s.queue.len() == 0,
        s.playing.len() == 0,
    ensures
        s.wf(),
{
}

/// A note-on keeps the scheduler well formed.
pub proof fn law_note_on_keeps_wf(s: NoteState, id: Id, pitch: u32, pressure: u32)
    requires
        s.wf(),
    ensures
        s.note_on(id, pitch, pressure).wf(),
{
    if s.has_free_voice() {
        let v = s.free_voice();
        assert(s.first_free(v));
        let t = s.note_on(id, pitch, pressure);
        let e = t.queue.last();
        assert(t.queue.drop_last() =~= s.queue);
        assert(t.queue[t.queue.len() - 1] == e);
        assert forall|k: int| 0 <= k < t.queue.len() && #[trigger] is_note_on(t.queue[k]) implies {
            &&& !holds_voice(t.playing, t.queue[k].voice_index)
            &&& t.queue.filter(for_voice(t.queue[k].voice_index)).len() == 1
        } by {
            reveal(Seq::filter);
            let w = t.queue[k].voice_index;
            if k < s.queue.len() {
                assert(t.queue[k] == s.queue[k]);
                assert(s.queued_on(w));
                assert(w != v);
            } else {
                assert(forall|i: int| 0 <= i < s.queue.len() ==> #[trigger] s.queue[i].voice_index != v);
                lemma_absent_voice_filters_empty(s.queue, v);
            }
        }
    }
}

/// A note-off keeps the scheduler well formed.
pub proof fn law_note_off_keeps_wf(s: NoteState, id: Id)
    requires
        s.wf(),
    ensures
        s.note_off(id).wf(),
{
    let t = s.note_off(id);
    let extra = to_voices_of(s.playing, id, NoteMessage { id, offset: 0, note: Event::NoteOff });
    lemma_filter_keeps_distinct(s.playing, other_id(id));
    lemma_to_voices_of(s.playing, id, NoteMessage { id, offset: 0, note: Event::NoteOff });
    assert forall|k: int| 0 <= k < t.queue.len() && #[trigger] is_note_on(t.queue[k]) implies {
        &&& !holds_voice(t.playing, t.queue[k].voice_index)
        &&& t.queue.filter(for_voice(t.queue[k].voice_index)).len() == 1
    } by {
        let w = t.queue[k].voice_index;
        if k >= s.queue.len() {
            assert(t.queue[k] == extra[k - s.queue.len()]);
        }
        assert(t.queue[k] == s.queue[k]);
        if holds_voice(t.playing, w) {
            lemma_filter_holds_voice(s.playing, other_id(id), w);
        }
        Seq::filter_distributes_over_add(s.queue, extra, for_voice(w));
        assert forall|i: int| 0 <= i < extra.len() implies #[trigger] extra[i].voice_index != w by {
            assert(holds_voice(s.playing, extra[i].voice_index));
        }
        lemma_absent_voice_filters_empty(extra, w);
    }
}

/// Any message keeps the scheduler well formed.
pub proof fn law_message_keeps_wf(s: NoteState, m: NoteMessage)
    requires
        s.wf(),
    ensures
        s.message(m).wf(),
{
    match m.note {
        Event::NoteOn { pitch, pressure } => {
            law_note_on_keeps_wf(s, m.id, pitch, pressure);
        },
        Event::NoteOff => {
            law_note_off_keeps_wf(s, m.id);
        },
        _ => {
            let t = s.message(m);
            let extra = to_voices_of(s.playing, m.id, m);
            lemma_to_voices_of(s.playing, m.id, m);
            assert forall|k: int| 0 <= k < t.queue.len() && #[trigger] is_note_on(t.queue[k]) implies {
                &&& !holds_voice(t.playing, t.queue[k].voice_index)
                &&& t.queue.filter(for_voice(t.queue[k].voice_index)).len() == 1
            } by {
                let w = t.queue[k].voice_index;
                if k >= s.queue.len() {
                    assert(t.queue[k] == extra[k - s.queue.len()]);
                }
                assert(t.queue[k] == s.queue[k]);
                Seq::filter_distributes_over_add(s.queue, extra, for_voice(w));
                assert forall|i: int| 0 <= i < extra.len() implies #[trigger] extra[i].voice_index != w by {
                    assert(holds_voice(s.playing, extra[i].voice_index));
                }
                lemma_absent_voice_filters_empty(extra, w);
            }
        },
    }
}

} // verus!

verus! {

/// Rendering a voice keeps the scheduler well formed.
pub proof fn law_render_keeps_wf(s: NoteState, v: u32)
    requires
        s.wf(),
    ensures
        s.render(v).wf(),
{
    let t = s.render(v);
    let f = s.queue.filter(for_voice(v));
    lemma_apply_by_filter(s.playing, s.queue, v);
    let pending_on = exists|k: int|
        0 <= k < s.queue.len() && #[trigger] is_note_on(s.queue[k]) && s.queue[k].voice_index == v;
    if pending_on {
        let k = choose|k: int|
            0 <= k < s.queue.len() && #[trigger] is_note_on(s.queue[k]) && s.queue[k].voice_index == v;
        let e = s.queue[k];
        s.queue.lemma_filter_contains(for_voice(v), k);
        assert(f.len() == 1);
        assert(f[0] == e);
        assert(f.drop_last() =~= Seq::<NoteQueued>::empty());
        assert(apply_all(s.playing, Seq::<NoteQueued>::empty()) == s.playing);
        assert(apply_all(s.playing, f.drop_last()) == s.playing);
        assert(f.last() == e);
        assert(apply_all(s.playing, f) == apply_queued(s.playing, e));
        let np = t.playing;
        assert(np.drop_last() =~= s.playing);
        assert(np.last().voice_index == v);
        assert forall|i: int, j: int|
            0 <= i < np.len() && 0 <= j < np.len() && i != j implies #[trigger] np[i].voice_index
            != #[trigger] np[j].voice_index by {
            if i < s.playing.len() && j < s.playing.len() {
                assert(np[i] == s.playing[i] && np[j] == s.playing[j]);
            } else if i < s.playing.len() {
                assert(np[i] == s.playing[i]);
                assert(np[j] == np.last());
            } else {
                assert(np[j] == s.playing[j]);
                assert(np[i] == np.last());
            }
        }
        assert forall|w: u32| w != v && holds_voice(np, w) implies holds_voice(s.playing, w) by {
            let i = choose|i: int| 0 <= i < np.len() && #[trigger] np[i].voice_index == w;
            assert(i < s.playing.len());
            assert(np[i] == s.playing[i]);
        }
    } else {
        assert forall|i: int| 0 <= i < f.len() implies !is_note_on(#[trigger] f[i]) by {
            lemma_filter_holds(s.queue, for_voice(v), i);
            let j = choose|j: int| 0 <= j < s.queue.len() && s.queue[j] == f[i];
            assert(s.queue[j].voice_index == v);
        }
        lemma_apply_without_note_on(s.playing, f);
    }
    assert forall|k: int| 0 <= k < t.queue.len() && #[trigger] is_note_on(t.queue[k]) implies {
        &&& !holds_voice(t.playing, t.queue[k].voice_index)
        &&& t.queue.filter(for_voice(t.queue[k].voice_index)).len() == 1
    } by {
        lemma_filter_holds(s.queue, other_voice(v), k);
        let j = choose|j: int| 0 <= j < s.queue.len() && s.queue[j] == t.queue[k];
        let w = t.queue[k].voice_index;
        assert(is_note_on(s.queue[j]));
        assert(w != v);
        lemma_filter_other_then_voice(s.queue, v, w);
    }
}

/// Withdrawing pending note-ons keeps the scheduler well formed.
pub proof fn law_cancel_keeps_wf(s: NoteState, pitches: Seq<u32>)
    requires
        s.wf(),
    ensures
        s.cancel_note_ons(pitches).wf(),
{
    let t = s.cancel_note_ons(pitches);
    assert forall|k: int| 0 <= k < t.queue.len() && #[trigger] is_note_on(t.queue[k]) implies {
        &&& !holds_voice(t.playing, t.queue[k].voice_index)
        &&& t.queue.filter(for_voice(t.queue[k].voice_index)).len() == 1
    } by {
        lemma_filter_holds(s.queue, not_note_on_of(pitches), k);
        let j = choose|j: int| 0 <= j < s.queue.len() && s.queue[j] == t.queue[k];
        let w = t.queue[k].voice_index;
        assert(is_note_on(s.queue[j]));
        lemma_filter_len_of_filtered(s.queue, not_note_on_of(pitches), w);
        t.queue.lemma_filter_contains(for_voice(w), k);
    }
}

} // verus!
