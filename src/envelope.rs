//! Voices and their attack/decay/sustain/release amplitude envelope.
use vstd::prelude::*;

use crate::{
    AMP_ONE, MAX_ENV_ATTACK_TIME, MAX_ENV_DECAY_TIME, MAX_ENV_RELEASE_TIME, EXACT_TIMING_RATE,
    MIN_ENV_TIME_MS, PARAM_ONE, PARAM_TO_AMP,
};

verus! {

/// Phase of a voice's envelope.
#[derive(Debug, Clone, Copy, PartialEq, Eq, Structural)]
pub enum VoiceState {
    Off,
    Attack,
    Decay,
    Sustain,
    Release,
}

/// One slot of the voice pool: its envelope phase, the note it plays and its amplitude
/// (in units of `AMP_ONE`).
#[derive(Debug, Clone, Copy, PartialEq, Eq, Structural)]
pub struct Voice {
    pub state: VoiceState,
    pub note: u8,
    pub amplitude: u64,
}

impl Voice {
    /// A silent voice, off and holding note 0.
    pub open spec fn default_spec() -> Voice {
        Voice { state: VoiceState::Off, note: 0, amplitude: 0 }
    }

    /// A silent voice, off and holding note 0.
    pub fn default() -> (r: Voice)
        ensures
            r == Voice::default_spec(),
    {
        Voice { state: VoiceState::Off, note: 0, amplitude: 0 }
    }

    /// Whether the voice is sounding (in any phase but `Off`).
    pub open spec fn is_active(self) -> bool {
        self.state != VoiceState::Off
    }

    /// Amplitude within range, and silence while the voice is off.
    pub open spec fn wf(self) -> bool {
        &&& self.amplitude <= AMP_ONE
        &&& self.state == VoiceState::Off ==> self.amplitude == 0
    }
}

/// The four envelope controls, each a normalized value (at most `PARAM_ONE`).
#[derive(Debug, Clone, Copy, PartialEq, Eq, Structural)]
pub struct AdsrParams {
    pub attack: u32,
    pub decay: u32,
    pub sustain: u32,
    pub release: u32,
}

impl AdsrParams {
    pub open spec fn wf(self) -> bool {
        &&& self.attack <= PARAM_ONE
        &&& self.decay <= PARAM_ONE
        &&& self.sustain <= PARAM_ONE
        &&& self.release <= PARAM_ONE
    }
}

/// A sample rate the engine can run at.
pub open spec fn valid_rate(rate: u32) -> bool {
    0 < rate
}

/// Length in samples of the shortest envelope segment: `MIN_ENV_TIME_MS`, and at least one
/// sample.
pub open spec fn min_segment_samples(rate: u32) -> nat {
    let n = (MIN_ENV_TIME_MS as int) * (rate as int) / 1000;
    if n < 1 {
        1
    } else {
        n as nat
    }
}

/// Length in samples of a segment whose control is `param` and whose longest time is
/// `max_seconds`: `param / PARAM_ONE * max_seconds * rate`, rounded down, and never shorter
/// than the shortest segment.
pub open spec fn segment_samples(param: u32, max_seconds: u64, rate: u32) -> nat {
    let n = (param as int) * (max_seconds as int) * (rate as int) / (PARAM_ONE as int);
    if n < min_segment_samples(rate) {
        min_segment_samples(rate)
    } else {
        n as nat
    }
}

/// Amplitude change per sample that crosses the full amplitude range in `samples` samples:
/// `AMP_ONE / samples`, rounded up.
pub open spec fn slope(samples: nat) -> nat {
    if samples == 0 {
        AMP_ONE as nat
    } else {
        ((AMP_ONE as int + samples - 1) / (samples as int)) as nat
    }
}

pub open spec fn attack_samples(p: AdsrParams, rate: u32) -> nat {
    segment_samples(p.attack, MAX_ENV_ATTACK_TIME, rate)
}

pub open spec fn decay_samples(p: AdsrParams, rate: u32) -> nat {
    segment_samples(p.decay, MAX_ENV_DECAY_TIME, rate)
}

pub open spec fn release_samples(p: AdsrParams, rate: u32) -> nat {
    segment_samples(p.release, MAX_ENV_RELEASE_TIME, rate)
}

/// The sustain control as an amplitude.
pub open spec fn sustain_amplitude(param: u32) -> nat {
    (param as nat) * (PARAM_TO_AMP as nat)
}

/// The voice after one sample of its envelope.
pub open spec fn envelope_next(v: Voice, p: AdsrParams, rate: u32) -> Voice {
    match v.state {
        VoiceState::Off => Voice { amplitude: 0, ..v },
        VoiceState::Attack => {
            let a = v.amplitude + slope(attack_samples(p, rate));
            if a >= AMP_ONE {
                Voice { state: VoiceState::Decay, amplitude: AMP_ONE, ..v }
            } else {
                Voice { amplitude: a as u64, ..v }
            }
        },
        VoiceState::Decay => {
            let step = slope(decay_samples(p, rate));
            let a: nat = if v.amplitude > step {
                (v.amplitude - step) as nat
            } else {
                0
            };
            if a <= sustain_amplitude(p.sustain) {
                Voice { state: VoiceState::Sustain, amplitude: a as u64, ..v }
            } else {
                Voice { amplitude: a as u64, ..v }
            }
        },
        VoiceState::Sustain => Voice { amplitude: sustain_amplitude(p.sustain) as u64, ..v },
        VoiceState::Release => {
            let step = slope(release_samples(p, rate));
            if v.amplitude <= step {
                Voice { state: VoiceState::Off, amplitude: 0, ..v }
            } else {
                Voice { amplitude: (v.amplitude - step) as u64, ..v }
            }
        },
    }
}

/// The voice after `k` samples of its envelope under fixed controls.
pub open spec fn run_envelope(v: Voice, p: AdsrParams, rate: u32, k: nat) -> Voice
    decreases k,
{
    if k == 0 {
        v
    } else {
        envelope_next(run_envelope(v, p, rate, (k - 1) as nat), p, rate)
    }
}

proof fn lemma_segment_bounds(param: u32, max_seconds: u64, rate: u32)
    requires
        param <= PARAM_ONE,
        1 <= max_seconds <= 2,
        valid_rate(rate),
    ensures
        1 <= segment_samples(param, max_seconds, rate) <= (max_seconds as int) * (rate as int),
{
    let prod = (param as int) * (max_seconds as int) * (rate as int);
    assert(prod <= (PARAM_ONE as int) * ((max_seconds as int) * (rate as int))) by (nonlinear_arith)
        requires
            param <= PARAM_ONE,
            prod == (param as int) * (max_seconds as int) * (rate as int),
            max_seconds >= 1,
            rate > 0,
    ;
    assert(prod / (PARAM_ONE as int) <= (max_seconds as int) * (rate as int)) by (nonlinear_arith)
        requires
            prod <= (PARAM_ONE as int) * ((max_seconds as int) * (rate as int)),
            prod >= 0,
    ;
    assert((MIN_ENV_TIME_MS as int) * (rate as int) / 1000 <= (rate as int));
    assert((rate as int) <= (max_seconds as int) * (rate as int)) by (nonlinear_arith)
        requires
            max_seconds >= 1,
            rate > 0,
    ;
}

/// `slope(n)` is at least one step and at most the full range, and `n` steps of it cross the
/// range.
proof fn lemma_slope_bounds(n: nat)
    requires
        1 <= n,
    ensures
        slope(n) >= 1,
        slope(n) <= AMP_ONE,
        n * slope(n) >= AMP_ONE,
        n * slope(n) <= AMP_ONE + n - 1,
{
    let one = AMP_ONE as int;
    let s = slope(n) as int;
    let q = (one + n - 1) / (n as int);
    let r = (one + n - 1) % (n as int);
    assert(s == q);
    assert(one + n - 1 == (n as int) * q + r && 0 <= r < n) by (nonlinear_arith)
        requires
            n >= 1,
            q == (one + n - 1) / (n as int),
            r == (one + n - 1) % (n as int),
    ;
    assert((n as int) * q >= one);
    assert(q >= 1) by (nonlinear_arith)
        requires
            (n as int) * q >= one,
            one >= 1,
            n >= 1,
    ;
    assert((n as int - 1) * (one - 1) >= 0) by (nonlinear_arith)
        requires
            n >= 1,
            one >= 1,
    ;
    assert(q <= one) by (nonlinear_arith)
        requires
            (n as int) * q <= one + n - 1,
            (n as int - 1) * (one - 1) >= 0,
            n >= 1,
    ;
}

/// Crossing the range at `slope(n)` per sample takes exactly `n` samples, for a segment short
/// enough that `n * n` stays below `AMP_ONE`.
proof fn lemma_slope_crossing(n: nat)
    requires
        1 <= n <= EXACT_TIMING_RATE,
    ensures
        slope(n) >= 1,
        slope(n) <= AMP_ONE,
        n * slope(n) >= AMP_ONE,
        (n - 1) * slope(n) < AMP_ONE,
{
    lemma_slope_bounds(n);
    let one = AMP_ONE as int;
    let q = slope(n) as int;
    assert(q > (n as int) - 1) by (nonlinear_arith)
        requires
            (n as int) * q >= one,
            n <= EXACT_TIMING_RATE,
            one == AMP_ONE as int,
            n >= 1,
    ;
    assert((n - 1) * q == (n as int) * q - q) by (nonlinear_arith);
}

/// One envelope step keeps a voice in order.
pub proof fn lemma_envelope_next_wf(v: Voice, p: AdsrParams, rate: u32)
    requires
        v.wf(),
        p.wf(),
        valid_rate(rate),
    ensures
        envelope_next(v, p, rate).wf(),
{
    lemma_segment_bounds(p.attack, MAX_ENV_ATTACK_TIME, rate);
    lemma_segment_bounds(p.decay, MAX_ENV_DECAY_TIME, rate);
    lemma_segment_bounds(p.release, MAX_ENV_RELEASE_TIME, rate);
    lemma_slope_bounds(attack_samples(p, rate));
    lemma_slope_bounds(decay_samples(p, rate));
    lemma_slope_bounds(release_samples(p, rate));
    assert(p.sustain as int * PARAM_TO_AMP as int <= AMP_ONE) by (nonlinear_arith)
        requires
            p.sustain <= PARAM_ONE,
    ;
}

/// A voice that has just been given `note` and starts its attack from silence.
pub open spec fn attack_start(note: u8) -> Voice {
    Voice { state: VoiceState::Attack, note, amplitude: 0 }
}

/// At sample `k` of an attack started from silence the voice is still attacking, and the next
/// sample raises its amplitude.
pub open spec fn attack_rises_at(note: u8, p: AdsrParams, rate: u32, k: nat) -> bool {
    &&& run_envelope(attack_start(note), p, rate, k).state == VoiceState::Attack
    &&& run_envelope(attack_start(note), p, rate, k + 1).amplitude > run_envelope(
        attack_start(note),
        p,
        rate,
        k,
    ).amplitude
}

proof fn lemma_attack_prefix(note: u8, p: AdsrParams, rate: u32, k: nat)
    requires
        p.wf(),
        valid_rate(rate),
        rate <= EXACT_TIMING_RATE,
        k < attack_samples(p, rate),
    ensures
        run_envelope(attack_start(note), p, rate, k) == (Voice {
            state: VoiceState::Attack,
            note,
            amplitude: (k * slope(attack_samples(p, rate))) as u64,
        }),
        k * slope(attack_samples(p, rate)) < AMP_ONE,
    decreases k,
{
    let n = attack_samples(p, rate);
    let s = slope(n);
    lemma_segment_bounds(p.attack, MAX_ENV_ATTACK_TIME, rate);
    lemma_slope_crossing(n);
    assert(k * s <= (n - 1) * s) by (nonlinear_arith)
        requires
            k <= n - 1,
    ;
    if k > 0 {
        lemma_attack_prefix(note, p, rate, (k - 1) as nat);
        assert((k - 1) * s + s == k * s) by (nonlinear_arith);
    }
}

/// Attack timing: a voice that starts its attack from silence rises strictly at every sample
/// and reaches full amplitude, where it is clamped and passes to its decay, after exactly
/// `attack_samples` samples. At the top of the attack control that is one second's worth of
/// samples.
pub proof fn lemma_attack_reaches_full(note: u8, p: AdsrParams, rate: u32)
    requires
        p.wf(),
        valid_rate(rate),
        rate <= EXACT_TIMING_RATE,
    ensures
        forall|k: nat| k < attack_samples(p, rate) ==> #[trigger] attack_rises_at(note, p, rate, k),
        run_envelope(attack_start(note), p, rate, attack_samples(p, rate)) == (Voice {
            state: VoiceState::Decay,
            note,
            amplitude: AMP_ONE,
        }),
        p.attack == PARAM_ONE ==> attack_samples(p, rate) == rate,
{
    let n = attack_samples(p, rate);
    let s = slope(n);
    lemma_segment_bounds(p.attack, MAX_ENV_ATTACK_TIME, rate);
    lemma_slope_crossing(n);
    assert forall|k: nat| k < n implies #[trigger] attack_rises_at(note, p, rate, k) by {
        lemma_attack_prefix(note, p, rate, k);
        assert((k + 1) * s == k * s + s) by (nonlinear_arith);
        if k + 1 < n {
            lemma_attack_prefix(note, p, rate, k + 1);
        }
    }
    lemma_attack_prefix(note, p, rate, (n - 1) as nat);
    assert((n - 1) * s + s == n * s) by (nonlinear_arith);
    if p.attack == PARAM_ONE {
        assert((PARAM_ONE as int) * 1 * (rate as int) / (PARAM_ONE as int) == rate) by (nonlinear_arith);
    }
}

/// At sample `k` after `v` the voice is in phase `state`.
pub open spec fn in_phase_at(v: Voice, p: AdsrParams, rate: u32, k: nat, state: VoiceState) -> bool {
    run_envelope(v, p, rate, k).state == state
}

proof fn lemma_slopes(p: AdsrParams, rate: u32)
    requires
        p.wf(),
        valid_rate(rate),
    ensures
        1 <= decay_samples(p, rate),
        decay_samples(p, rate) * slope(decay_samples(p, rate)) >= AMP_ONE,
        slope(decay_samples(p, rate)) >= 1,
        1 <= release_samples(p, rate),
        release_samples(p, rate) * slope(release_samples(p, rate)) >= AMP_ONE,
        slope(release_samples(p, rate)) >= 1,
{
    lemma_segment_bounds(p.decay, MAX_ENV_DECAY_TIME, rate);
    lemma_segment_bounds(p.release, MAX_ENV_RELEASE_TIME, rate);
    lemma_slope_bounds(decay_samples(p, rate));
    lemma_slope_bounds(release_samples(p, rate));
}

proof fn find_sustain(v: Voice, p: AdsrParams, rate: u32, k: nat) -> (n: nat)
    requires
        p.wf(),
        valid_rate(rate),
        v.state == VoiceState::Decay,
        v.amplitude >= 1,
        forall|i: nat| i <= k ==> #[trigger] in_phase_at(v, p, rate, i, VoiceState::Decay),
        run_envelope(v, p, rate, k).amplitude + k * slope(decay_samples(p, rate)) <= AMP_ONE,
    ensures
        k < n <= decay_samples(p, rate),
        forall|i: nat| i < n ==> #[trigger] in_phase_at(v, p, rate, i, VoiceState::Decay),
        in_phase_at(v, p, rate, n, VoiceState::Sustain),
    decreases decay_samples(p, rate) - k,
{
    let nd = decay_samples(p, rate);
    let s = slope(nd);
    lemma_slopes(p, rate);
    let cur = run_envelope(v, p, rate, k);
    assert(in_phase_at(v, p, rate, k, VoiceState::Decay));
    assert(cur.amplitude >= 1) by {
        if k > 0 {
            let prev = run_envelope(v, p, rate, (k - 1) as nat);
            assert(in_phase_at(v, p, rate, (k - 1) as nat, VoiceState::Decay));
            assert(cur == envelope_next(prev, p, rate));
        }
    }
    assert(k < nd) by (nonlinear_arith)
        requires
            cur.amplitude + k * s <= AMP_ONE,
            cur.amplitude >= 1,
            nd * s >= AMP_ONE,
            s >= 1,
    ;
    let next = run_envelope(v, p, rate, k + 1);
    if next.state == VoiceState::Sustain {
        assert forall|i: nat| i < k + 1 implies #[trigger] in_phase_at(
            v,
            p,
            rate,
            i,
            VoiceState::Decay,
        ) by {}
        k + 1
    } else {
        assert(cur.amplitude > s);
        assert(next.amplitude + (k + 1) * s == cur.amplitude + k * s) by (nonlinear_arith)
            requires
                next.amplitude == cur.amplitude - s,
        ;
        assert forall|i: nat| i <= k + 1 implies #[trigger] in_phase_at(
            v,
            p,
            rate,
            i,
            VoiceState::Decay,
        ) by {}
        find_sustain(v, p, rate, k + 1)
    }
}

/// Decay timing: a voice that passes to its decay at full amplitude reaches its sustain
/// within `decay_samples` samples, staying in its decay until then, and then holds its
/// sustain for as long as no note-off comes.
pub proof fn lemma_decay_reaches_sustain(note: u8, p: AdsrParams, rate: u32)
    requires
        p.wf(),
        valid_rate(rate),
    ensures
        exists|n: nat|
            1 <= n <= decay_samples(p, rate) && in_phase_at(
                Voice { state: VoiceState::Decay, note, amplitude: AMP_ONE },
                p,
                rate,
                n,
                VoiceState::Sustain,
            ) && forall|i: nat|
                i < n ==> #[trigger] in_phase_at(
                    Voice { state: VoiceState::Decay, note, amplitude: AMP_ONE },
                    p,
                    rate,
                    i,
                    VoiceState::Decay,
                ),
        forall|m: nat, k: nat|
            #[trigger] in_phase_at(
                Voice { state: VoiceState::Decay, note, amplitude: AMP_ONE },
                p,
                rate,
                m,
                VoiceState::Sustain,
            ) && m <= k ==> #[trigger] in_phase_at(
                Voice { state: VoiceState::Decay, note, amplitude: AMP_ONE },
                p,
                rate,
                k,
                VoiceState::Sustain,
            ),
{
    let v = Voice { state: VoiceState::Decay, note, amplitude: AMP_ONE };
    assert forall|i: nat| i <= 0 implies #[trigger] in_phase_at(v, p, rate, i, VoiceState::Decay)
        by {}
    let n = find_sustain(v, p, rate, 0);
    assert forall|m: nat, k: nat|
        #[trigger] in_phase_at(v, p, rate, m, VoiceState::Sustain) && m <= k implies #[trigger] in_phase_at(
        v,
        p,
        rate,
        k,
        VoiceState::Sustain,
    ) by {
        lemma_phase_stays(v, p, rate, m, k, VoiceState::Sustain);
    }
}

proof fn lemma_phase_stays(v: Voice, p: AdsrParams, rate: u32, m: nat, k: nat, state: VoiceState)
    requires
        state == VoiceState::Sustain || state == VoiceState::Off,
        in_phase_at(v, p, rate, m, state),
        m <= k,
    ensures
        in_phase_at(v, p, rate, k, state),
    decreases k - m,
{
    if m < k {
        lemma_phase_stays(v, p, rate, m, (k - 1) as nat, state);
    }
}

proof fn find_off(v: Voice, p: AdsrParams, rate: u32, k: nat) -> (n: nat)
    requires
        p.wf(),
        valid_rate(rate),
        forall|i: nat| i <= k ==> #[trigger] in_phase_at(v, p, rate, i, VoiceState::Release),
        run_envelope(v, p, rate, k).amplitude + k * slope(release_samples(p, rate)) <= AMP_ONE,
    ensures
        k < n <= release_samples(p, rate),
        forall|i: nat| i < n ==> #[trigger] in_phase_at(v, p, rate, i, VoiceState::Release),
        run_envelope(v, p, rate, n) == (Voice { state: VoiceState::Off, amplitude: 0, ..v }),
    decreases release_samples(p, rate) - k,
{
    let nr = release_samples(p, rate);
    let s = slope(nr);
    lemma_slopes(p, rate);
    let cur = run_envelope(v, p, rate, k);
    assert(in_phase_at(v, p, rate, k, VoiceState::Release));
    lemma_run_keeps_note(v, p, rate, k);
    if k > 0 {
        let prev = run_envelope(v, p, rate, (k - 1) as nat);
        assert(in_phase_at(v, p, rate, (k - 1) as nat, VoiceState::Release));
        assert(cur == envelope_next(prev, p, rate));
        assert(cur.amplitude >= 1);
        assert(k < nr) by (nonlinear_arith)
            requires
                cur.amplitude + k * s <= AMP_ONE,
                cur.amplitude >= 1,
                nr * s >= AMP_ONE,
                s >= 1,
        ;
    }
    if cur.amplitude <= s {
        assert forall|i: nat| i < k + 1 implies #[trigger] in_phase_at(
            v,
            p,
            rate,
            i,
            VoiceState::Release,
        ) by {}
        k + 1
    } else {
        let next = run_envelope(v, p, rate, k + 1);
        assert(next.amplitude + (k + 1) * s == cur.amplitude + k * s) by (nonlinear_arith)
            requires
                next.amplitude == cur.amplitude - s,
        ;
        assert forall|i: nat| i <= k + 1 implies #[trigger] in_phase_at(
            v,
            p,
            rate,
            i,
            VoiceState::Release,
        ) by {}
        find_off(v, p, rate, k + 1)
    }
}

proof fn lemma_run_keeps_note(v: Voice, p: AdsrParams, rate: u32, k: nat)
    ensures
        run_envelope(v, p, rate, k).note == v.note,
    decreases k,
{
    if k > 0 {
        lemma_run_keeps_note(v, p, rate, (k - 1) as nat);
    }
}

/// Release timing: a voice released at any amplitude in range stays in its release and turns
/// off, with its amplitude pinned at zero, within `release_samples` samples, and stays off
/// afterwards.
pub proof fn lemma_release_reaches_off(note: u8, amplitude: u64, p: AdsrParams, rate: u32)
    requires
        p.wf(),
        valid_rate(rate),
        amplitude <= AMP_ONE,
    ensures
        exists|n: nat|
            1 <= n <= release_samples(p, rate) && run_envelope(
                Voice { state: VoiceState::Release, note, amplitude },
                p,
                rate,
                n,
            ) == (Voice { state: VoiceState::Off, note, amplitude: 0 }) && forall|i: nat|
                i < n ==> #[trigger] in_phase_at(
                    Voice { state: VoiceState::Release, note, amplitude },
                    p,
                    rate,
                    i,
                    VoiceState::Release,
                ),
        forall|m: nat, k: nat|
            #[trigger] in_phase_at(
                Voice { state: VoiceState::Release, note, amplitude },
                p,
                rate,
                m,
                VoiceState::Off,
            ) && m <= k ==> #[trigger] in_phase_at(
                Voice { state: VoiceState::Release, note, amplitude },
                p,
                rate,
                k,
                VoiceState::Off,
            ),
{
    let v = Voice { state: VoiceState::Release, note, amplitude };
    assert forall|i: nat| i <= 0 implies #[trigger] in_phase_at(
        v,
        p,
        rate,
        i,
        VoiceState::Release,
    ) by {}
    let n = find_off(v, p, rate, 0);
    assert forall|m: nat, k: nat|
        #[trigger] in_phase_at(v, p, rate, m, VoiceState::Off) && m <= k implies #[trigger] in_phase_at(
        v,
        p,
        rate,
        k,
        VoiceState::Off,
    ) by {
        lemma_phase_stays(v, p, rate, m, k, VoiceState::Off);
    }
}

/// The phases of an envelope started from silence when its decay lasts `nd` samples: attack
/// for `attack_samples` samples, decay for the next `nd`, at most `decay_samples`, sustain
/// from then on.
pub open spec fn envelope_phases(note: u8, p: AdsrParams, rate: u32, nd: nat) -> bool {
    &&& 1 <= nd <= decay_samples(p, rate)
    &&& forall|k: nat|
        k < attack_samples(p, rate) ==> #[trigger] in_phase_at(
            attack_start(note),
            p,
            rate,
            k,
            VoiceState::Attack,
        )
    &&& forall|k: nat|
        attack_samples(p, rate) <= k < attack_samples(p, rate) + nd
            ==> #[trigger] in_phase_at(
            attack_start(note),
            p,
            rate,
            k,
            VoiceState::Decay,
        )
    &&& forall|k: nat|
        attack_samples(p, rate) + nd <= k ==> #[trigger] in_phase_at(
            attack_start(note),
            p,
            rate,
            k,
            VoiceState::Sustain,
        )
}

/// Running `a` samples and then `b` more is running `a + b` samples.
pub proof fn lemma_run_split(v: Voice, p: AdsrParams, rate: u32, a: nat, b: nat)
    ensures
        run_envelope(v, p, rate, a + b) == run_envelope(run_envelope(v, p, rate, a), p, rate, b),
    decreases b,
{
    if b > 0 {
        lemma_run_split(v, p, rate, a, (b - 1) as nat);
        assert((a + b - 1) as nat == a + (b - 1) as nat);
    }
}

/// The whole envelope under fixed controls: a voice started from silence is in its attack
/// for exactly `attack_samples` samples, then in its decay for at least one and at most
/// `decay_samples` samples, then in its sustain for as long as no note-off comes. Each phase
/// comes once, in this order, and none is skipped; `lemma_release_reaches_off` gives the
/// release that follows a note-off and the final return to off.
pub proof fn lemma_full_envelope(note: u8, p: AdsrParams, rate: u32)
    requires
        p.wf(),
        valid_rate(rate),
        rate <= EXACT_TIMING_RATE,
    ensures
        exists|nd: nat| #[trigger] envelope_phases(note, p, rate, nd),
{
    let na = attack_samples(p, rate);
    let start = attack_start(note);
    let vd = Voice { state: VoiceState::Decay, note, amplitude: AMP_ONE };
    lemma_attack_reaches_full(note, p, rate);
    lemma_decay_reaches_sustain(note, p, rate);
    let nd = choose|n: nat|
        1 <= n <= decay_samples(p, rate) && in_phase_at(vd, p, rate, n, VoiceState::Sustain)
            && forall|i: nat| i < n ==> #[trigger] in_phase_at(vd, p, rate, i, VoiceState::Decay);
    assert forall|k: nat| k < na implies #[trigger] in_phase_at(
        start,
        p,
        rate,
        k,
        VoiceState::Attack,
    ) by {
        assert(attack_rises_at(note, p, rate, k));
    }
    assert forall|k: nat| na <= k < na + nd implies #[trigger] in_phase_at(
        start,
        p,
        rate,
        k,
        VoiceState::Decay,
    ) by {
        lemma_run_split(start, p, rate, na, (k - na) as nat);
        assert(in_phase_at(vd, p, rate, (k - na) as nat, VoiceState::Decay));
    }
    assert forall|k: nat| na + nd <= k implies #[trigger] in_phase_at(
        start,
        p,
        rate,
        k,
        VoiceState::Sustain,
    ) by {
        lemma_run_split(start, p, rate, na, (k - na) as nat);
        assert(in_phase_at(vd, p, rate, nd, VoiceState::Sustain));
        assert(in_phase_at(vd, p, rate, (k - na) as nat, VoiceState::Sustain));
    }
    assert(envelope_phases(note, p, rate, nd));
}

/// Amplitude change per sample of a segment, computed from its control.
fn segment_slope(param: u32, max_seconds: u64, rate: u32) -> (r: u64)
    requires
        param <= PARAM_ONE,
        1 <= max_seconds <= 2,
        valid_rate(rate),
    ensures
        r == slope(segment_samples(param, max_seconds, rate)),
        1 <= r <= AMP_ONE,
{
    proof {
        lemma_segment_bounds(param, max_seconds, rate);
        assert((max_seconds as int) * (rate as int) <= 2 * (u32::MAX as int))
            by (nonlinear_arith)
            requires
                max_seconds <= 2,
                rate <= u32::MAX,
        ;
        lemma_slope_bounds(segment_samples(param, max_seconds, rate));
        assert((param as int) * (max_seconds as int) <= (PARAM_ONE as int) * 2)
            by (nonlinear_arith)
            requires
                param <= PARAM_ONE,
                max_seconds <= 2,
        ;
        assert((param as int) * (max_seconds as int) * (rate as int) <= (PARAM_ONE as int) * 2
            * (u32::MAX as int)) by (nonlinear_arith)
            requires
                (param as int) * (max_seconds as int) <= (PARAM_ONE as int) * 2,
                (param as int) * (max_seconds as int) >= 0,
                rate <= u32::MAX,
        ;
    }
    let min_samples: u64 = if MIN_ENV_TIME_MS as u64 * rate as u64 / 1000 < 1 {
        1
    } else {
        MIN_ENV_TIME_MS as u64 * rate as u64 / 1000
    };
    let scaled: u64 = param as u64 * max_seconds * rate as u64 / PARAM_ONE as u64;
    let n: u64 = if scaled < min_samples {
        min_samples
    } else {
        scaled
    };
    (AMP_ONE + n - 1) / n
}

/// Advances a voice by one sample of its envelope.
///
/// An attack climbs by `AMP_ONE / attack_samples` per sample and, on reaching full
/// amplitude, is clamped there and passes to the decay. A decay falls by its own slope and
/// passes to the sustain as soon as the amplitude is at or below the sustain level. A sustain
/// follows the sustain control at every sample. A release falls by its slope and, when the
/// amplitude would reach zero, pins it at zero and turns the voice off. Every segment lasts
/// at least `MIN_ENV_TIME_MS`, so no control value can make a slope unbounded.
pub fn next_envelope(v: Voice, p: AdsrParams, rate: u32) -> (r: Voice)
    requires
        v.wf(),
        p.wf(),
        valid_rate(rate),
    ensures
        r == envelope_next(v, p, rate),
        r.wf(),
        r.note == v.note,
        v.state == VoiceState::Off ==> r == v,
        v.state == VoiceState::Attack ==> {
            ||| r.state == VoiceState::Attack && r.amplitude > v.amplitude
            ||| r.state == VoiceState::Decay && r.amplitude == AMP_ONE
        },
        v.state == VoiceState::Decay ==> {
            &&& r.amplitude <= v.amplitude
            &&& r.state == VoiceState::Decay || r.state == VoiceState::Sustain
            &&& r.state == VoiceState::Sustain <==> r.amplitude <= sustain_amplitude(p.sustain)
        },
        v.state == VoiceState::Sustain ==> {
            &&& r.state == VoiceState::Sustain
            &&& r.amplitude == sustain_amplitude(p.sustain)
        },
        v.state == VoiceState::Release ==> {
            &&& r.amplitude <= v.amplitude
            &&& r.state == VoiceState::Release || r.state == VoiceState::Off
            &&& r.state == VoiceState::Off <==> v.amplitude <= slope(release_samples(p, rate))
            &&& r.state == VoiceState::Off ==> r.amplitude == 0
        },
{
    match v.state {
        VoiceState::Off => Voice { amplitude: 0, ..v },
        VoiceState::Attack => {
            let step = segment_slope(p.attack, MAX_ENV_ATTACK_TIME, rate);
            let a = v.amplitude + step;
            if a >= AMP_ONE {
                Voice { state: VoiceState::Decay, amplitude: AMP_ONE, ..v }
            } else {
                Voice { amplitude: a, ..v }
            }
        },
        VoiceState::Decay => {
            let step = segment_slope(p.decay, MAX_ENV_DECAY_TIME, rate);
            let a: u64 = if v.amplitude > step {
                v.amplitude - step
            } else {
                0
            };
            if a <= p.sustain as u64 * PARAM_TO_AMP {
                Voice { state: VoiceState::Sustain, amplitude: a, ..v }
            } else {
                Voice { amplitude: a, ..v }
            }
        },
        VoiceState::Sustain => {
            proof {
                assert(p.sustain as int * PARAM_TO_AMP as int <= AMP_ONE) by (nonlinear_arith)
                    requires
                        p.sustain <= PARAM_ONE,
                ;
            }
            Voice { amplitude: p.sustain as u64 * PARAM_TO_AMP, ..v }
        },
        VoiceState::Release => {
            let step = segment_slope(p.release, MAX_ENV_RELEASE_TIME, rate);
            if v.amplitude <= step {
                Voice { state: VoiceState::Off, amplitude: 0, ..v }
            } else {
                Voice { amplitude: v.amplitude - step, ..v }
            }
        },
    }
}

} // verus!
