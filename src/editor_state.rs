//! What the editor shows: the values of the controls it displays and the last note played,
//! kept up to date from the control messages.
use vstd::prelude::*;

use crate::params::{param_from_index, Param, StateUpdate};

verus! {

/// The editor's copy of the controls it displays, each a normalized value, and the note of
/// the last note event.
#[derive(Debug, Clone, Copy, PartialEq, Eq, Structural)]
pub struct InterfaceState {
    pub amplitude_value: u32,
    pub rotation_x_value: u32,
    pub rotation_y_value: u32,
    pub rotation_z_value: u32,
    pub morph_value: u32,
    pub note: Option<u8>,
}

/// The editor state after a control message: a displayed control takes the new value, any
/// other control is ignored, and a note event records its note.
pub open spec fn react_spec(s: InterfaceState, event: StateUpdate) -> InterfaceState {
    match event {
        StateUpdate::SetKnob(index, value) => if index == Param::WaveTableAmp.spec_index() {
            InterfaceState { amplitude_value: value, ..s }
        } else if index == Param::ShapeRotX.spec_index() {
            InterfaceState { rotation_x_value: value, ..s }
        } else if index == Param::ShapeRotY.spec_index() {
            InterfaceState { rotation_y_value: value, ..s }
        } else if index == Param::ShapeRotZ.spec_index() {
            InterfaceState { rotation_z_value: value, ..s }
        } else if index == Param::ShapeMorph.spec_index() {
            InterfaceState { morph_value: value, ..s }
        } else {
            s
        },
        StateUpdate::NoteOn(n) => InterfaceState { note: Some(n), ..s },
        StateUpdate::NoteOff(n) => InterfaceState { note: Some(n), ..s },
    }
}

impl InterfaceState {
    /// Every displayed control at zero and no note yet.
    pub fn new() -> (r: InterfaceState)
        ensures
            r == (InterfaceState {
                amplitude_value: 0,
                rotation_x_value: 0,
                rotation_y_value: 0,
                rotation_z_value: 0,
                morph_value: 0,
                note: None,
            }),
    {
        InterfaceState {
            amplitude_value: 0,
            rotation_x_value: 0,
            rotation_y_value: 0,
            rotation_z_value: 0,
            morph_value: 0,
            note: None,
        }
    }

    /// Updates the editor state from a control message (see `react_spec`).
    pub fn react_to_control_event(&mut self, event: StateUpdate)
        ensures
            *final(self) == react_spec(*old(self), event),
    {
        match event {
            StateUpdate::SetKnob(index, value) => match param_from_index(index) {
                Some(Param::WaveTableAmp) => self.amplitude_value = value,
                Some(Param::ShapeRotX) => self.rotation_x_value = value,
                Some(Param::ShapeRotY) => self.rotation_y_value = value,
                Some(Param::ShapeRotZ) => self.rotation_z_value = value,
                Some(Param::ShapeMorph) => self.morph_value = value,
                _ => {},
            },
            StateUpdate::NoteOn(n) => self.note = Some(n),
            StateUpdate::NoteOff(n) => self.note = Some(n),
        }
    }
}

} // verus!
