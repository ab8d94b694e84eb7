//! The compiled keymaps and the rule that switches between them.

use crate::keycode::KeyCode;
use vstd::prelude::*;

verus! {

/// Number of wired switch positions of the matrix.
pub const NKEY: usize = 21;

/// Largest number of key codes that one switch position can send.
pub const MAX_CHORD: usize = 2;

/// A keymap: for each switch position the chord it sends, in sending
/// order. `KeyCode::No` in a chord sends nothing.
pub type Layer = [[KeyCode; MAX_CHORD]; NKEY];

/// Letters.
pub const LAYER1: Layer = [
    [KeyCode::Tab, KeyCode::No],
    [KeyCode::Q, KeyCode::No],
    [KeyCode::W, KeyCode::No],
    [KeyCode::E, KeyCode::No],
    [KeyCode::R, KeyCode::No],
    [KeyCode::T, KeyCode::No],
    [KeyCode::Escape, KeyCode::No],
    [KeyCode::A, KeyCode::No],
    [KeyCode::S, KeyCode::No],
    [KeyCode::D, KeyCode::No],
    [KeyCode::F, KeyCode::No],
    [KeyCode::G, KeyCode::No],
    [KeyCode::LShift, KeyCode::No],
    [KeyCode::Z, KeyCode::No],
    [KeyCode::X, KeyCode::No],
    [KeyCode::C, KeyCode::No],
    [KeyCode::V, KeyCode::No],
    [KeyCode::B, KeyCode::No],
    [KeyCode::Space, KeyCode::No],
    [KeyCode::LAlt, KeyCode::No],
    [KeyCode::LCtrl, KeyCode::No],
];

/// Digits and their shifted symbols.
pub const LAYER2: Layer = [
    [KeyCode::Grave, KeyCode::No],
    [KeyCode::Kb1, KeyCode::No],
    [KeyCode::Kb2, KeyCode::No],
    [KeyCode::Kb3, KeyCode::No],
    [KeyCode::Kb4, KeyCode::No],
    [KeyCode::Kb5, KeyCode::No],
    [KeyCode::Escape, KeyCode::No],
    [KeyCode::LShift, KeyCode::Kb1],
    [KeyCode::LShift, KeyCode::Kb2],
    [KeyCode::LShift, KeyCode::Kb3],
    [KeyCode::LShift, KeyCode::Kb4],
    [KeyCode::LShift, KeyCode::Kb5],
    [KeyCode::LShift, KeyCode::No],
    [KeyCode::No, KeyCode::No],
    [KeyCode::No, KeyCode::No],
    [KeyCode::No, KeyCode::No],
    [KeyCode::No, KeyCode::No],
    [KeyCode::No, KeyCode::No],
    [KeyCode::LGui, KeyCode::No],
    [KeyCode::LAlt, KeyCode::No],
    [KeyCode::LCtrl, KeyCode::No],
];

/// Function keys over a shifted copy of the letters.
pub const LAYER3: Layer = [
    [KeyCode::F1, KeyCode::No],
    [KeyCode::F2, KeyCode::No],
    [KeyCode::F3, KeyCode::No],
    [KeyCode::F4, KeyCode::No],
    [KeyCode::F4, KeyCode::No],
    [KeyCode::F5, KeyCode::No],
    [KeyCode::Escape, KeyCode::No],
    [KeyCode::Q, KeyCode::No],
    [KeyCode::W, KeyCode::No],
    [KeyCode::E, KeyCode::No],
    [KeyCode::R, KeyCode::No],
    [KeyCode::T, KeyCode::No],
    [KeyCode::LShift, KeyCode::No],
    [KeyCode::A, KeyCode::No],
    [KeyCode::S, KeyCode::No],
    [KeyCode::D, KeyCode::No],
    [KeyCode::F, KeyCode::No],
    [KeyCode::G, KeyCode::No],
    [KeyCode::Space, KeyCode::No],
    [KeyCode::LAlt, KeyCode::No],
    [KeyCode::LCtrl, KeyCode::No],
];

/// The key whose tap moves one layer up.
pub const ADVANCE_KEY: KeyCode = KeyCode::LAlt;

/// The key whose tap returns to the first layer.
pub const RESET_KEY: KeyCode = KeyCode::LCtrl;

/// The switch position that sends the advance key on every layer.
pub const ADVANCE_SWITCH: usize = 19;

/// The switch position that sends the reset key on every layer.
pub const RESET_SWITCH: usize = 20;

/// Which of the compiled keymaps is in use.
#[derive(Clone, Copy, Debug, PartialEq, Eq, Structural)]
pub enum LayerId {
    One,
    Two,
    Three,
}

impl LayerId {
    /// The keymap that this name selects.
    pub open spec fn table(self) -> Layer {
        match self {
            LayerId::One => LAYER1,
            LayerId::Two => LAYER2,
            LayerId::Three => LAYER3,
        }
    }

    /// The layer in use after `tapped` was tapped alone on this layer:
    /// the advance key climbs from the first layer to the second and from
    /// the second to the third, the reset key returns to the first from
    /// the other two, and every other tap changes nothing.
    pub open spec fn after_tap(self, tapped: KeyCode) -> LayerId {
        if tapped == ADVANCE_KEY && self == LayerId::One {
            LayerId::Two
        } else if tapped == ADVANCE_KEY && self == LayerId::Two {
            LayerId::Three
        } else if tapped == RESET_KEY {
            LayerId::One
        } else {
            self
        }
    }

    /// The keymap that this name selects.
    pub fn layer(self) -> (t: Layer)
        ensures
            t == self.table(),
    {
        match self {
            LayerId::One => LAYER1,
            LayerId::Two => LAYER2,
            LayerId::Three => LAYER3,
        }
    }

    /// Applies the layer-switch table to a completed tap of `tapped`.
    pub fn switch(self, tapped: KeyCode) -> (next: LayerId)
        ensures
            next == self.after_tap(tapped),
    {
        match (self, tapped) {
            (LayerId::One, KeyCode::LAlt) => LayerId::Two,
            (LayerId::Two, KeyCode::LAlt) => LayerId::Three,
            (LayerId::Two, KeyCode::LCtrl) => LayerId::One,
            (LayerId::Three, KeyCode::LCtrl) => LayerId::One,
            _ => self,
        }
    }
}

} // verus!
