//! The tap detector: it watches the resolved key codes tick after tick,
//! recognises a short tap of a single key, and switches the active layer.

use crate::keycode::KeyCode;
use crate::layers::{LayerId, ADVANCE_KEY, NKEY};
use crate::resolve::{no_keys, real_count, resolve, resolved_keys, MAX_KEYCODES};
use vstd::prelude::*;

verus! {

/// Longest tap, in ticks between press and release.
pub const MAX_TAP_COUNT: usize = 15;

/// The tap detector's state as contracts speak of it.
pub struct TapState {
    /// The layer in use.
    pub layer: LayerId,
    /// The key codes resolved at the previous tick.
    pub previous: Seq<KeyCode>,
    /// The key suspected of being tapped, while one is.
    pub candidate: Option<KeyCode>,
    /// Ticks since the candidate was armed; it stops at `usize::MAX`.
    pub elapsed: nat,
}

/// The tick counter one tick later. It saturates, which no comparison
/// with the tap window can tell from counting on.
pub open spec fn ticked(elapsed: nat) -> nat {
    if elapsed < usize::MAX {
        elapsed + 1
    } else {
        elapsed
    }
}

/// Whether `keys` starts a press out of an idle matrix.
pub open spec fn arms(pre: TapState, keys: Seq<KeyCode>) -> bool {
    keys != pre.previous && !pre.previous[0].is_real() && keys[0].is_real()
}

/// The candidate once the arm rule and the chord rule have seen `keys`,
/// before a release is looked for.
pub open spec fn candidate_held(pre: TapState, keys: Seq<KeyCode>) -> Option<KeyCode> {
    if real_count(keys) > 1 {
        None
    } else if arms(pre, keys) {
        Some(keys[0])
    } else {
        pre.candidate
    }
}

/// The tick counter after `keys`: zero where they arm a candidate.
pub open spec fn elapsed_after(pre: TapState, keys: Seq<KeyCode>) -> nat {
    if arms(pre, keys) {
        0
    } else {
        ticked(pre.elapsed)
    }
}

/// The key whose tap `keys` completes, if they complete one: a candidate
/// is held, every key is up, and the tap window has not passed.
pub open spec fn completed_tap(pre: TapState, keys: Seq<KeyCode>) -> Option<KeyCode> {
    if keys != pre.previous && real_count(keys) == 0 && elapsed_after(pre, keys) <= MAX_TAP_COUNT {
        candidate_held(pre, keys)
    } else {
        None
    }
}

/// The detector's state after a tick that resolved `keys`.
///
/// A tick without a change of keys only counts. Otherwise a press out of
/// an idle matrix arms its first key code as candidate, a second key
/// disarms, and a release of everything within the window applies the
/// layer-switch table to the candidate and disarms. A candidate released
/// after the window stays armed until the next press or chord.
pub open spec fn step(pre: TapState, keys: Seq<KeyCode>) -> TapState {
    if keys == pre.previous {
        TapState { elapsed: ticked(pre.elapsed), ..pre }
    } else {
        match completed_tap(pre, keys) {
            Some(tapped) => TapState {
                layer: pre.layer.after_tap(tapped),
                previous: keys,
                candidate: None,
                elapsed: elapsed_after(pre, keys),
            },
            None => TapState {
                layer: pre.layer,
                previous: keys,
                candidate: candidate_held(pre, keys),
                elapsed: elapsed_after(pre, keys),
            },
        }
    }
}

/// What goes downstream of `keys` in state `post`: while the advance key
/// is the candidate the first slot is blanked, so that the host sees no
/// modifier during the tap.
pub open spec fn emitted(post: TapState, keys: Seq<KeyCode>) -> Seq<KeyCode> {
    if post.candidate == Some(ADVANCE_KEY) {
        keys.update(0, KeyCode::No)
    } else {
        keys
    }
}

/// What holds of every state that the detector reaches: a candidate is
/// held only while at most one key is down.
pub open spec fn consistent(state: TapState) -> bool {
    state.candidate.is_some() ==> real_count(state.previous) <= 1
}

/// Whether two buffers hold the same key codes.
pub fn same_keys(a: &[KeyCode; MAX_KEYCODES], b: &[KeyCode; MAX_KEYCODES]) -> (r: bool)
    ensures
        r == (a@ == b@),
{
    let mut i: usize = 0;
    while i < MAX_KEYCODES
        invariant
            i <= MAX_KEYCODES,
            forall|s: int| 0 <= s < i ==> a[s] == b[s],
        decreases MAX_KEYCODES - i,
    {
        if a[i] != b[i] {
            return false;
        }
        i += 1;
    }
    assert(a@ =~= b@);
    true
}

/// Counts the real key codes of a buffer.
pub fn count_keys(keys: &[KeyCode; MAX_KEYCODES]) -> (n: usize)
    ensures
        n == real_count(keys@),
        n <= MAX_KEYCODES,
{
    let mut n: usize = 0;
    let mut i: usize = 0;
    while i < MAX_KEYCODES
        invariant
            i <= MAX_KEYCODES,
            n <= i,
            n == real_count(keys@.take(i as int)),
        decreases MAX_KEYCODES - i,
    {
        proof {
            let longer = keys@.take(i + 1);
            assert(longer.drop_last() =~= keys@.take(i as int));
            reveal_with_fuel(Seq::filter, 2);
        }
        if keys[i].is_key() {
            n += 1;
        }
        i += 1;
    }
    assert(keys@.take(MAX_KEYCODES as int) =~= keys@);
    n
}

/// The tap detector with the layer it selects.
pub struct KeyMap {
    active_layer: LayerId,
    old_keys: [KeyCode; MAX_KEYCODES],
    tapstart: Option<KeyCode>,
    tap_count: usize,
}

impl View for KeyMap {
    type V = TapState;

    closed spec fn view(&self) -> TapState {
        TapState {
            layer: self.active_layer,
            previous: self.old_keys@,
            candidate: self.tapstart,
            elapsed: self.tap_count as nat,
        }
    }
}

/// The state at power-up: first layer, nothing pressed, no candidate.
pub open spec fn initial_state() -> TapState {
    TapState {
        layer: LayerId::One,
        previous: no_keys(),
        candidate: None,
        elapsed: 0,
    }
}

impl KeyMap {
    #[verifier::type_invariant]
    spec fn reachable(&self) -> bool {
        consistent(self@)
    }

    /// A detector in its power-up state.
    pub fn new() -> (keymap: KeyMap)
        ensures
            keymap@ == initial_state(),
    {
        let keymap = KeyMap {
            active_layer: LayerId::One,
            old_keys: [KeyCode::No; MAX_KEYCODES],
            tapstart: None,
            tap_count: 0,
        };
        assert(keymap@.previous =~= initial_state().previous);
        keymap
    }

    /// The layer in use.
    pub fn active_layer(&self) -> (layer: LayerId)
        ensures
            layer == self@.layer,
    {
        self.active_layer
    }

    /// The key suspected of being tapped, while one is.
    pub fn tap_candidate(&self) -> (candidate: Option<KeyCode>)
        ensures
            candidate == self@.candidate,
    {
        self.tapstart
    }

    /// Ticks counted since the candidate was armed.
    pub fn tap_count(&self) -> (elapsed: usize)
        ensures
            elapsed == self@.elapsed,
    {
        self.tap_count
    }

    /// One tick of the detector on key codes that are already resolved.
    ///
    /// Returns what goes downstream this tick.
    pub fn observe(&mut self, keys: [KeyCode; MAX_KEYCODES]) -> (out: [KeyCode; MAX_KEYCODES])
        ensures
            final(self)@ == step(old(self)@, keys@),
            out@ == emitted(final(self)@, keys@),
            consistent(old(self)@),
            consistent(final(self)@),
    {
        proof {
            use_type_invariant(&*self);
        }
        let mut active_layer = self.active_layer;
        let mut tapstart = self.tapstart;
        let mut tap_count = self.tap_count;
        if tap_count < usize::MAX {
            tap_count += 1;
        }
        if !same_keys(&self.old_keys, &keys) {
            let was_no_keys_pressed = !self.old_keys[0].is_key();
            let has_key_pressed_now = keys[0].is_key();
            let key_count = count_keys(&keys);

            if was_no_keys_pressed && has_key_pressed_now {
                tapstart = Some(keys[0]);
                tap_count = 0;
            }
            if key_count > 1 {
                tapstart = None;
            }
            if key_count == 0 && tap_count <= MAX_TAP_COUNT {
                if let Some(tapkey) = tapstart {
                    active_layer = active_layer.switch(tapkey);
                    tapstart = None;
                }
            }
        }
        *self = KeyMap { active_layer, old_keys: keys, tapstart, tap_count };
        let mut out = keys;
        if let Some(KeyCode::LAlt) = tapstart {
            out[0] = KeyCode::No;
        }
        out
    }

    /// One scan tick: resolves `keystates` through the active layer and
    /// runs the detector on the result.
    ///
    /// Returns what goes downstream this tick. A layer switch takes
    /// effect from the next tick on.
    pub fn mapkeys(&mut self, keystates: [bool; NKEY]) -> (keys: [KeyCode; MAX_KEYCODES])
        ensures
            final(self)@ == step(old(self)@, resolved_keys(keystates, old(self)@.layer.table())),
            keys@ == emitted(
                final(self)@,
                resolved_keys(keystates, old(self)@.layer.table()),
            ),
            consistent(old(self)@),
            consistent(final(self)@),
    {
        let layer = self.active_layer.layer();
        let keys = resolve(&keystates, &layer);
        self.observe(keys)
    }
}

} // verus!
