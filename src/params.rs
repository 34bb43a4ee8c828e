//! The bank of normalized controls, the messages that update the engine, and the control-side
//! record of the controls.
use vstd::prelude::*;

use crate::PARAM_ONE;

verus! {

/// Number of controls in the bank.
pub const NUM_PARAMETERS: usize = 36;

/// The controls of the bank, one slot of the parameter table each. The filter controls are
/// reserved: the engine stores them but does not read them.
#[derive(Debug, Clone, Copy, PartialEq, Eq, Structural)]
pub enum Param {
    NoiseAmp,
    NoiseColor,
    SineAmp,
    SineOctave,
    PulseAmp,
    PulseWidth,
    PulseWidthModAmp,
    PulseWidthModFreq,
    SawtoothAmp,
    SawtoothShape,
    PhaseShiftModShape,
    PhaseShiftAmount,
    PhaseShiftModFreq,
    PitchModShape,
    PitchModAmp,
    PitchModFreq,
    AmpAttack,
    AmpDecay,
    AmpSustainLevel,
    AmpRelease,
    FilterAttack,
    FilterDecay,
    FilterSustainLevel,
    FilterRelease,
    FilterCutoff,
    FilterResonance,
    FilterPoles,
    FilterDrive,
    FilterCutoffModShape,
    FilterCutoffModAmp,
    FilterCutoffModFreq,
    WaveTableAmp,
    ShapeRotX,
    ShapeRotY,
    ShapeRotZ,
    ShapeMorph,
}

impl Param {
    /// Slot of the control in the parameter table.
    pub open spec fn spec_index(self) -> nat {
        match self {
            Param::NoiseAmp => 0,
            Param::NoiseColor => 1,
            Param::SineAmp => 2,
            Param::SineOctave => 3,
            Param::PulseAmp => 4,
            Param::PulseWidth => 5,
            Param::PulseWidthModAmp => 6,
            Param::PulseWidthModFreq => 7,
            Param::SawtoothAmp => 8,
            Param::SawtoothShape => 9,
            Param::PhaseShiftModShape => 10,
            Param::PhaseShiftAmount => 11,
            Param::PhaseShiftModFreq => 12,
            Param::PitchModShape => 13,
            Param::PitchModAmp => 14,
            Param::PitchModFreq => 15,
            Param::AmpAttack => 16,
            Param::AmpDecay => 17,
            Param::AmpSustainLevel => 18,
            Param::AmpRelease => 19,
            Param::FilterAttack => 20,
            Param::FilterDecay => 21,
            Param::FilterSustainLevel => 22,
            Param::FilterRelease => 23,
            Param::FilterCutoff => 24,
            Param::FilterResonance => 25,
            Param::FilterPoles => 26,
            Param::FilterDrive => 27,
            Param::FilterCutoffModShape => 28,
            Param::FilterCutoffModAmp => 29,
            Param::FilterCutoffModFreq => 30,
            Param::WaveTableAmp => 31,
            Param::ShapeRotX => 32,
            Param::ShapeRotY => 33,
            Param::ShapeRotZ => 34,
            Param::ShapeMorph => 35,
        }
    }

    /// Slot of the control in the parameter table.
    pub fn index(self) -> (r: usize)
        ensures
            r == self.spec_index(),
            r < NUM_PARAMETERS,
    {
        match self {
            Param::NoiseAmp => 0,
            Param::NoiseColor => 1,
            Param::SineAmp => 2,
            Param::SineOctave => 3,
            Param::PulseAmp => 4,
            Param::PulseWidth => 5,
            Param::PulseWidthModAmp => 6,
            Param::PulseWidthModFreq => 7,
            Param::SawtoothAmp => 8,
            Param::SawtoothShape => 9,
            Param::PhaseShiftModShape => 10,
            Param::PhaseShiftAmount => 11,
            Param::PhaseShiftModFreq => 12,
            Param::PitchModShape => 13,
            Param::PitchModAmp => 14,
            Param::PitchModFreq => 15,
            Param::AmpAttack => 16,
            Param::AmpDecay => 17,
            Param::AmpSustainLevel => 18,
            Param::AmpRelease => 19,
            Param::FilterAttack => 20,
            Param::FilterDecay => 21,
            Param::FilterSustainLevel => 22,
            Param::FilterRelease => 23,
            Param::FilterCutoff => 24,
            Param::FilterResonance => 25,
            Param::FilterPoles => 26,
            Param::FilterDrive => 27,
            Param::FilterCutoffModShape => 28,
            Param::FilterCutoffModAmp => 29,
            Param::FilterCutoffModFreq => 30,
            Param::WaveTableAmp => 31,
            Param::ShapeRotX => 32,
            Param::ShapeRotY => 33,
            Param::ShapeRotZ => 34,
            Param::ShapeMorph => 35,
        }
    }
}

/// The control stored at slot `index`, if the slot exists.
pub fn param_from_index(index: i32) -> (r: Option<Param>)
    ensures
        match r {
            Some(p) => p.spec_index() == index,
            None => !(0 <= index < NUM_PARAMETERS),
        },
{
    match index {
        0 => Some(Param::NoiseAmp),
        1 => Some(Param::NoiseColor),
        2 => Some(Param::SineAmp),
        3 => Some(Param::SineOctave),
        4 => Some(Param::PulseAmp),
        5 => Some(Param::PulseWidth),
        6 => Some(Param::PulseWidthModAmp),
        7 => Some(Param::PulseWidthModFreq),
        8 => Some(Param::SawtoothAmp),
        9 => Some(Param::SawtoothShape),
        10 => Some(Param::PhaseShiftModShape),
        11 => Some(Param::PhaseShiftAmount),
        12 => Some(Param::PhaseShiftModFreq),
        13 => Some(Param::PitchModShape),
        14 => Some(Param::PitchModAmp),
        15 => Some(Param::PitchModFreq),
        16 => Some(Param::AmpAttack),
        17 => Some(Param::AmpDecay),
        18 => Some(Param::AmpSustainLevel),
        19 => Some(Param::AmpRelease),
        20 => Some(Param::FilterAttack),
        21 => Some(Param::FilterDecay),
        22 => Some(Param::FilterSustainLevel),
        23 => Some(Param::FilterRelease),
        24 => Some(Param::FilterCutoff),
        25 => Some(Param::FilterResonance),
        26 => Some(Param::FilterPoles),
        27 => Some(Param::FilterDrive),
        28 => Some(Param::FilterCutoffModShape),
        29 => Some(Param::FilterCutoffModAmp),
        30 => Some(Param::FilterCutoffModFreq),
        31 => Some(Param::WaveTableAmp),
        32 => Some(Param::ShapeRotX),
        33 => Some(Param::ShapeRotY),
        34 => Some(Param::ShapeRotZ),
        35 => Some(Param::ShapeMorph),
        _ => None,
    }
}

/// A message from the control side to the engine: a new value for the control at a slot, or
/// a note event.
#[derive(Debug, Clone, Copy, PartialEq, Eq, Structural)]
pub enum StateUpdate {
    SetKnob(i32, u32),
    NoteOn(u8),
    NoteOff(u8),
}

/// A control value brought into the normalized range.
pub open spec fn clamp_param_spec(value: u32) -> u32 {
    if value > PARAM_ONE {
        PARAM_ONE
    } else {
        value
    }
}

/// Brings a control value into the normalized range `0..=PARAM_ONE`.
pub fn clamp_param(value: u32) -> (r: u32)
    ensures
        r == clamp_param_spec(value),
{
    if value > PARAM_ONE {
        PARAM_ONE
    } else {
        value
    }
}

/// Value of slot `i` in a freshly made control record.
pub open spec fn initial_value(i: int) -> u32 {
    if i == 0 {
        65536
    } else if 1 <= i <= 4 {
        32768
    } else if i == 5 || i == 6 {
        6554
    } else if i == 7 {
        52429
    } else if i == 8 {
        13107
    } else {
        0
    }
}

fn initial_value_at(i: usize) -> (r: u32)
    ensures
        r == initial_value(i as int),
{
    if i == 0 {
        65536
    } else if 1 <= i && i <= 4 {
        32768
    } else if i == 5 || i == 6 {
        6554
    } else if i == 7 {
        52429
    } else if i == 8 {
        13107
    } else {
        0
    }
}

/// Display name of the control at a slot.
pub open spec fn parameter_name_spec(index: i32) -> Seq<char> {
    if index == Param::WaveTableAmp.spec_index() {
        "Wave table"@
    } else if index == Param::ShapeRotX.spec_index() {
        "Rotate X"@
    } else if index == Param::ShapeRotY.spec_index() {
        "Rotate Y"@
    } else if index == Param::ShapeRotZ.spec_index() {
        "Rotate Z"@
    } else if index == Param::ShapeMorph.spec_index() {
        "Shape morph"@
    } else if index == Param::AmpAttack.spec_index() {
        "Attack"@
    } else if index == Param::AmpDecay.spec_index() {
        "Decay"@
    } else if index == Param::AmpSustainLevel.spec_index() {
        "Sustain"@
    } else if index == Param::AmpRelease.spec_index() {
        "Release"@
    } else {
        "Unknown"@
    }
}

/// Display name of the control at a slot; "Unknown" for a slot without one.
pub fn parameter_name(index: i32) -> (r: &'static str)
    ensures
        r@ == parameter_name_spec(index),
{
    match param_from_index(index) {
        Some(Param::WaveTableAmp) => "Wave table",
        Some(Param::ShapeRotX) => "Rotate X",
        Some(Param::ShapeRotY) => "Rotate Y",
        Some(Param::ShapeRotZ) => "Rotate Z",
        Some(Param::ShapeMorph) => "Shape morph",
        Some(Param::AmpAttack) => "Attack",
        Some(Param::AmpDecay) => "Decay",
        Some(Param::AmpSustainLevel) => "Sustain",
        Some(Param::AmpRelease) => "Release",
        _ => "Unknown",
    }
}

/// The authoritative record of the controls, kept on the control side for the host to read.
pub struct ParameterStore {
    values: Vec<u32>,
}

impl View for ParameterStore {
    type V = Seq<u32>;

    closed spec fn view(&self) -> Seq<u32> {
        self.values@
    }
}

/// A table of control values: one per slot, each normalized.
pub open spec fn table_wf(t: Seq<u32>) -> bool {
    &&& t.len() == NUM_PARAMETERS
    &&& forall|i: int| 0 <= i < t.len() ==> #[trigger] t[i] <= PARAM_ONE
}

impl ParameterStore {
    /// A record holding the initial control values.
    pub fn new() -> (r: ParameterStore)
        ensures
            r@ == Seq::new(NUM_PARAMETERS as nat, |i: int| initial_value(i)),
            table_wf(r@),
    {
        let mut values: Vec<u32> = Vec::with_capacity(NUM_PARAMETERS);
        let mut i: usize = 0;
        while i < NUM_PARAMETERS
            invariant
                0 <= i <= NUM_PARAMETERS,
                values@ == Seq::new(i as nat, |k: int| initial_value(k)),
            decreases NUM_PARAMETERS - i,
        {
            values.push(initial_value_at(i));
            i = i + 1;
        }
        ParameterStore { values }
    }

    /// Records a new value for the control at `index`, brought into the normalized range, and
    /// returns the message that carries it to the engine. A slot out of range is ignored.
    pub fn set_parameter(&mut self, index: i32, value: u32) -> (r: Option<StateUpdate>)
        requires
            table_wf(old(self)@),
        ensures
            table_wf(final(self)@),
            0 <= index < NUM_PARAMETERS ==> {
                &&& r == Some(StateUpdate::SetKnob(index, clamp_param_spec(value)))
                &&& final(self)@ == old(self)@.update(index as int, clamp_param_spec(value))
            },
            !(0 <= index < NUM_PARAMETERS) ==> r == None::<StateUpdate> && final(self)@ == old(
                self,
            )@,
    {
        if 0 <= index && index < NUM_PARAMETERS as i32 {
            let v = clamp_param(value);
            self.values[index as usize] = v;
            Some(StateUpdate::SetKnob(index, v))
        } else {
            None
        }
    }

    /// The recorded value of the control at `index`, if the slot exists.
    pub fn get_parameter(&self, index: i32) -> (r: Option<u32>)
        requires
            table_wf(self@),
        ensures
            0 <= index < NUM_PARAMETERS ==> r == Some(self@[index as int]),
            !(0 <= index < NUM_PARAMETERS) ==> r == None::<u32>,
    {
        if 0 <= index && index < NUM_PARAMETERS as i32 {
            Some(self.values[index as usize])
        } else {
            None
        }
    }
}

} // verus!
