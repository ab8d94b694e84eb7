//! Key codes that the compiled keymaps can emit.

use vstd::prelude::*;

verus! {

/// A key code, named after the key of the American QWERTY layout that
/// sends it.
///
/// `No` is the "no event" code of an empty slot; every other variant is
/// a real key.
#[derive(Clone, Copy, Debug, PartialEq, Eq, Structural)]
pub enum KeyCode {
    No,
    A,
    B,
    C,
    D,
    E,
    F,
    G,
    Q,
    R,
    S,
    T,
    V,
    W,
    X,
    Z,
    Kb1,
    Kb2,
    Kb3,
    Kb4,
    Kb5,
    Escape,
    Tab,
    Space,
    Grave,
    F1,
    F2,
    F3,
    F4,
    F5,
    LCtrl,
    LShift,
    LAlt,
    LGui,
}

impl KeyCode {
    /// Whether this code stands for a key, and not for an empty slot.
    pub open spec fn is_real(self) -> bool {
        self != KeyCode::No
    }

    /// Whether this code stands for a key, and not for an empty slot.
    pub fn is_key(self) -> (r: bool)
        ensures
            r == self.is_real(),
    {
        self != KeyCode::No
    }
}

} // verus!
