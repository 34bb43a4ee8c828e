//! The fixed pool of voices and the allocation of notes to its slots.
//!
//! Every slot, the first one included, can take a note, so the pool holds `NUM_VOICES`
//! sounding notes at most. A note-on that finds no free slot is dropped: no sounding voice is
//! ever taken over by another note.
use vstd::prelude::*;

use crate::envelope::{Voice, VoiceState};
use crate::NUM_VOICES;

verus! {

/// Highest MIDI note number.
pub const MAX_NOTE: u8 = 127;

/// Whether `v` is sounding `note`.
pub open spec fn plays(v: Voice, note: u8) -> bool {
    v.is_active() && v.note == note
}

/// `i` is the first slot of `vs` that sounds `note`.
pub open spec fn is_first_playing(vs: Seq<Voice>, i: int, note: u8) -> bool {
    &&& 0 <= i < vs.len()
    &&& plays(vs[i], note)
    &&& forall|j: int| 0 <= j < i ==> !plays(#[trigger] vs[j], note)
}

/// `i` is the first slot of `vs` that is off.
pub open spec fn is_first_free(vs: Seq<Voice>, i: int) -> bool {
    &&& 0 <= i < vs.len()
    &&& vs[i].state == VoiceState::Off
    &&& forall|j: int| 0 <= j < i ==> (#[trigger] vs[j]).state != VoiceState::Off
}

/// A pool in order: `NUM_VOICES` slots, each in order and bound to a MIDI note, and no note
/// sounding in two slots.
pub open spec fn pool_wf(vs: Seq<Voice>) -> bool {
    &&& vs.len() == NUM_VOICES
    &&& forall|i: int| 0 <= i < vs.len() ==> (#[trigger] vs[i]).wf() && vs[i].note <= MAX_NOTE
    &&& forall|i: int, j: int|
        0 <= i < vs.len() && 0 <= j < vs.len() && i != j && (#[trigger] vs[i]).is_active()
            && (#[trigger] vs[j]).is_active() ==> vs[i].note != vs[j].note
}

/// The pool after a note-on. A slot already sounding the note goes back to its attack and
/// keeps its amplitude; otherwise the first free slot takes the note and starts its attack
/// from silence; with no free slot, or a note out of the MIDI range, nothing changes.
pub open spec fn note_on_spec(vs: Seq<Voice>, note: u8) -> Seq<Voice> {
    if note > MAX_NOTE {
        vs
    } else if exists|i: int| is_first_playing(vs, i, note) {
        let i = choose|i: int| is_first_playing(vs, i, note);
        vs.update(i, Voice { state: VoiceState::Attack, ..vs[i] })
    } else if exists|i: int| is_first_free(vs, i) {
        let i = choose|i: int| is_first_free(vs, i);
        vs.update(i, Voice { state: VoiceState::Attack, note, amplitude: 0 })
    } else {
        vs
    }
}

/// The pool after a note-off: the slot sounding the note, in whatever phase, goes to its
/// release; if none does, nothing changes.
pub open spec fn note_off_spec(vs: Seq<Voice>, note: u8) -> Seq<Voice> {
    if exists|i: int| is_first_playing(vs, i, note) {
        let i = choose|i: int| is_first_playing(vs, i, note);
        vs.update(i, Voice { state: VoiceState::Release, ..vs[i] })
    } else {
        vs
    }
}

/// Number of sounding slots.
pub open spec fn active_count(vs: Seq<Voice>) -> nat
    decreases vs.len(),
{
    if vs.len() == 0 {
        0
    } else {
        active_count(vs.drop_last()) + if vs.last().is_active() {
            1nat
        } else {
            0nat
        }
    }
}

proof fn lemma_first_playing_unique(vs: Seq<Voice>, i: int, j: int, note: u8)
    requires
        is_first_playing(vs, i, note),
        is_first_playing(vs, j, note),
    ensures
        i == j,
{
    if i < j {
        assert(!plays(vs[i], note));
    } else if j < i {
        assert(!plays(vs[j], note));
    }
}

proof fn lemma_first_free_unique(vs: Seq<Voice>, i: int, j: int)
    requires
        is_first_free(vs, i),
        is_first_free(vs, j),
    ensures
        i == j,
{
    if i < j {
        assert(vs[i].state != VoiceState::Off);
    } else if j < i {
        assert(vs[j].state != VoiceState::Off);
    }
}

proof fn lemma_note_on_playing(vs: Seq<Voice>, i: int, note: u8)
    requires
        is_first_playing(vs, i, note),
        note <= MAX_NOTE,
    ensures
        note_on_spec(vs, note) == vs.update(i, Voice { state: VoiceState::Attack, ..vs[i] }),
{
    let c = choose|c: int| is_first_playing(vs, c, note);
    lemma_first_playing_unique(vs, i, c, note);
}

/// Reuse of a freed slot: once a release has turned a voice off, a note-on for a note that no
/// voice sounds takes that slot, if it is the first free one, starting its attack from silence
/// and leaving every other slot unchanged.
pub proof fn lemma_note_on_free(vs: Seq<Voice>, i: int, note: u8)
    requires
        is_first_free(vs, i),
        note <= MAX_NOTE,
        forall|j: int| 0 <= j < vs.len() ==> !plays(#[trigger] vs[j], note),
    ensures
        note_on_spec(vs, note) == vs.update(
            i,
            Voice { state: VoiceState::Attack, note, amplitude: 0 },
        ),
{
    if exists|c: int| is_first_playing(vs, c, note) {
        let c = choose|c: int| is_first_playing(vs, c, note);
        assert(!plays(vs[c], note));
    }
    let c = choose|c: int| is_first_free(vs, c);
    lemma_first_free_unique(vs, i, c);
}

proof fn lemma_note_off_playing(vs: Seq<Voice>, i: int, note: u8)
    requires
        is_first_playing(vs, i, note),
    ensures
        note_off_spec(vs, note) == vs.update(i, Voice { state: VoiceState::Release, ..vs[i] }),
{
    let c = choose|c: int| is_first_playing(vs, c, note);
    lemma_first_playing_unique(vs, i, c, note);
}

/// A pool in order stays in order through a note-on.
pub proof fn lemma_note_on_wf(vs: Seq<Voice>, note: u8)
    requires
        pool_wf(vs),
    ensures
        pool_wf(note_on_spec(vs, note)),
{
    let r = note_on_spec(vs, note);
    if note <= MAX_NOTE && !(exists|i: int| is_first_playing(vs, i, note)) && exists|i: int|
        is_first_free(vs, i) {
        let k = choose|i: int| is_first_free(vs, i);
        assert forall|i: int, j: int|
            0 <= i < r.len() && 0 <= j < r.len() && i != j && (#[trigger] r[i]).is_active()
                && (#[trigger] r[j]).is_active() implies r[i].note != r[j].note by {
            if i == k {
                if r[j].note == note {
                    assert(exists|x: int| 0 <= x < vs.len() && plays(vs[x], note));
                    lemma_exists_first_playing(vs, note);
                }
            } else if j == k {
                if r[i].note == note {
                    assert(exists|x: int| 0 <= x < vs.len() && plays(vs[x], note));
                    lemma_exists_first_playing(vs, note);
                }
            }
        }
    }
}

/// A pool in order stays in order through a note-off.
pub proof fn lemma_note_off_wf(vs: Seq<Voice>, note: u8)
    requires
        pool_wf(vs),
    ensures
        pool_wf(note_off_spec(vs, note)),
{
}

proof fn lemma_exists_first_playing(vs: Seq<Voice>, note: u8)
    requires
        exists|x: int| 0 <= x < vs.len() && plays(vs[x], note),
    ensures
        exists|i: int| is_first_playing(vs, i, note),
    decreases vs.len(),
{
    let x = choose|x: int| 0 <= x < vs.len() && plays(vs[x], note);
    if exists|y: int| 0 <= y < vs.len() - 1 && plays(vs[y], note) {
        let prefix = vs.drop_last();
        let y = choose|y: int| 0 <= y < vs.len() - 1 && plays(vs[y], note);
        assert(plays(prefix[y], note));
        lemma_exists_first_playing(prefix, note);
        let i = choose|i: int| is_first_playing(prefix, i, note);
        assert forall|j: int| 0 <= j < i implies !plays(#[trigger] vs[j], note) by {
            assert(prefix[j] == vs[j]);
        }
        assert(is_first_playing(vs, i, note));
    } else {
        assert(x == vs.len() - 1);
        assert(is_first_playing(vs, x, note));
    }
}

proof fn lemma_exists_first_free(vs: Seq<Voice>)
    requires
        exists|x: int| 0 <= x < vs.len() && vs[x].state == VoiceState::Off,
    ensures
        exists|i: int| is_first_free(vs, i),
    decreases vs.len(),
{
    let x = choose|x: int| 0 <= x < vs.len() && vs[x].state == VoiceState::Off;
    if exists|y: int| 0 <= y < vs.len() - 1 && vs[y].state == VoiceState::Off {
        let prefix = vs.drop_last();
        let y = choose|y: int| 0 <= y < vs.len() - 1 && vs[y].state == VoiceState::Off;
        assert(prefix[y].state == VoiceState::Off);
        lemma_exists_first_free(prefix);
        let i = choose|i: int| is_first_free(prefix, i);
        assert forall|j: int| 0 <= j < i implies (#[trigger] vs[j]).state != VoiceState::Off by {
            assert(prefix[j] == vs[j]);
        }
        assert(is_first_free(vs, i));
    } else {
        assert(x == vs.len() - 1);
        assert(is_first_free(vs, x));
    }
}

/// A note-on keeps sounding every slot that sounded its note.
proof fn lemma_note_on_keeps_playing(vs: Seq<Voice>, note: u8, x: int)
    requires
        0 <= x < vs.len(),
        plays(vs[x], note),
        note <= MAX_NOTE,
    ensures
        plays(note_on_spec(vs, note)[x], note),
        note_on_spec(vs, note).len() == vs.len(),
{
    lemma_exists_first_playing(vs, note);
}

/// Retriggering: in a pool in order, a second note-on for the same note, with no note-off in
/// between, leaves the note in exactly one slot, provided the first note-on found a slot for it
/// (the note was sounding already, or a slot was free).
pub proof fn lemma_note_on_twice_single_voice(vs: Seq<Voice>, note: u8)
    requires
        pool_wf(vs),
        note <= MAX_NOTE,
        exists|x: int|
            0 <= x < vs.len() && ((#[trigger] vs[x]).state == VoiceState::Off || plays(
                vs[x],
                note,
            )),
    ensures
        ({
            let r = note_on_spec(note_on_spec(vs, note), note);
            &&& pool_wf(r)
            &&& exists|i: int| 0 <= i < r.len() && plays(#[trigger] r[i], note)
            &&& forall|i: int, j: int|
                0 <= i < r.len() && 0 <= j < r.len() && plays(#[trigger] r[i], note) && plays(
                    #[trigger] r[j],
                    note,
                ) ==> i == j
        }),
{
    let r1 = note_on_spec(vs, note);
    let r = note_on_spec(r1, note);
    lemma_note_on_wf(vs, note);
    lemma_note_on_wf(r1, note);
    let x = choose|x: int|
        0 <= x < vs.len() && ((#[trigger] vs[x]).state == VoiceState::Off || plays(vs[x], note));
    let i: int;
    if exists|y: int| 0 <= y < vs.len() && plays(vs[y], note) {
        let y = choose|y: int| 0 <= y < vs.len() && plays(vs[y], note);
        lemma_note_on_keeps_playing(vs, note, y);
        i = y;
    } else {
        if exists|c: int| is_first_playing(vs, c, note) {
            let c = choose|c: int| is_first_playing(vs, c, note);
            assert(plays(vs[c], note));
        }
        assert(vs[x].state == VoiceState::Off);
        lemma_exists_first_free(vs);
        i = choose|c: int| is_first_free(vs, c);
        assert(plays(r1[i], note));
    }
    lemma_note_on_keeps_playing(r1, note, i);
    assert(plays(r[i], note));
}

proof fn lemma_active_count_pointwise(a: Seq<Voice>, b: Seq<Voice>)
    requires
        a.len() == b.len(),
        forall|i: int| 0 <= i < a.len() ==> (#[trigger] a[i]).is_active() == b[i].is_active(),
    ensures
        active_count(a) == active_count(b),
    decreases a.len(),
{
    if a.len() > 0 {
        let (pa, pb) = (a.drop_last(), b.drop_last());
        assert forall|i: int| 0 <= i < pa.len() implies (#[trigger] pa[i]).is_active()
            == pb[i].is_active() by {
            assert(pa[i] == a[i] && pb[i] == b[i]);
        }
        lemma_active_count_pointwise(pa, pb);
        assert(a.last().is_active() == b.last().is_active()) by {
            assert(a[a.len() - 1].is_active() == b[a.len() - 1].is_active());
        }
    }
}

/// No voice stealing: when every slot of a pool in order is sounding, a note-on evicts no
/// voice. Every slot keeps its note and keeps sounding, so the number of sounding slots is
/// unchanged.
pub proof fn lemma_note_on_full_pool(vs: Seq<Voice>, note: u8)
    requires
        pool_wf(vs),
        forall|i: int| 0 <= i < vs.len() ==> (#[trigger] vs[i]).is_active(),
    ensures
        ({
            let r = note_on_spec(vs, note);
            &&& r.len() == vs.len()
            &&& forall|i: int|
                0 <= i < vs.len() ==> (#[trigger] r[i]).is_active() && r[i].note == vs[i].note
            &&& active_count(r) == active_count(vs)
        }),
{
    let r = note_on_spec(vs, note);
    if exists|c: int| is_first_free(vs, c) {
        let c = choose|c: int| is_first_free(vs, c);
        assert(vs[c].is_active());
    }
    assert(r.len() == vs.len());
    assert forall|i: int| 0 <= i < vs.len() implies (#[trigger] r[i]).is_active()
        && r[i].note == vs[i].note by {
        if note <= MAX_NOTE && exists|c: int| is_first_playing(vs, c, note) {
            let c = choose|c: int| is_first_playing(vs, c, note);
            if i == c {
                assert(r[i] == Voice { state: VoiceState::Attack, ..vs[c] });
            }
        }
    }
    lemma_active_count_pointwise(r, vs);
}

/// Starts `note` on the pool (see `note_on_spec`).
pub fn note_on(voices: &mut Vec<Voice>, note: u8)
    requires
        pool_wf(old(voices)@),
    ensures
        final(voices)@ == note_on_spec(old(voices)@, note),
        pool_wf(final(voices)@),
{
    proof {
        lemma_note_on_wf(old(voices)@, note);
    }
    if note > MAX_NOTE {
        return;
    }
    let ghost vs = voices@;
    let mut i: usize = 0;
    while i < voices.len()
        invariant
            voices@ == vs,
            vs == old(voices)@,
            note <= MAX_NOTE,
            pool_wf(note_on_spec(vs, note)),
            0 <= i <= vs.len(),
            forall|j: int| 0 <= j < i ==> !plays(#[trigger] vs[j], note),
        decreases vs.len() - i,
    {
        if voices[i].note == note && voices[i].state != VoiceState::Off {
            proof {
                lemma_note_on_playing(vs, i as int, note);
            }
            let v = voices[i];
            voices[i] = Voice { state: VoiceState::Attack, ..v };
            return;
        }
        i = i + 1;
    }
    proof {
        if exists|c: int| is_first_playing(vs, c, note) {
            let c = choose|c: int| is_first_playing(vs, c, note);
            assert(!plays(vs[c], note));
        }
    }
    let mut k: usize = 0;
    while k < voices.len()
        invariant
            voices@ == vs,
            vs == old(voices)@,
            note <= MAX_NOTE,
            pool_wf(note_on_spec(vs, note)),
            0 <= k <= vs.len(),
            forall|j: int| 0 <= j < vs.len() ==> !plays(#[trigger] vs[j], note),
            forall|j: int| 0 <= j < k ==> (#[trigger] vs[j]).state != VoiceState::Off,
        decreases vs.len() - k,
    {
        if voices[k].state == VoiceState::Off {
            proof {
                lemma_note_on_free(vs, k as int, note);
            }
            voices[k] = Voice { state: VoiceState::Attack, note, amplitude: 0 };
            return;
        }
        k = k + 1;
    }
    proof {
        if exists|c: int| is_first_free(vs, c) {
            let c = choose|c: int| is_first_free(vs, c);
            assert(vs[c].state != VoiceState::Off);
        }
    }
}

/// Releases `note` on the pool (see `note_off_spec`).
pub fn note_off(voices: &mut Vec<Voice>, note: u8)
    requires
        pool_wf(old(voices)@),
    ensures
        final(voices)@ == note_off_spec(old(voices)@, note),
        pool_wf(final(voices)@),
{
    proof {
        lemma_note_off_wf(old(voices)@, note);
    }
    let ghost vs = voices@;
    let mut i: usize = 0;
    while i < voices.len()
        invariant
            voices@ == vs,
            vs == old(voices)@,
            pool_wf(note_off_spec(vs, note)),
            0 <= i <= vs.len(),
            forall|j: int| 0 <= j < i ==> !plays(#[trigger] vs[j], note),
        decreases vs.len() - i,
    {
        if voices[i].note == note && voices[i].state != VoiceState::Off {
            proof {
                lemma_note_off_playing(vs, i as int, note);
            }
            let v = voices[i];
            voices[i] = Voice { state: VoiceState::Release, ..v };
            return;
        }
        i = i + 1;
    }
    proof {
        if exists|c: int| is_first_playing(vs, c, note) {
            let c = choose|c: int| is_first_playing(vs, c, note);
            assert(!plays(vs[c], note));
        }
    }
}

} // verus!
