//! What the tap detector does over several ticks: taps, late releases,
//! chords and the blanking of the advance key.

use crate::keycode::KeyCode;
use crate::keys::{
    arms, candidate_held, consistent, emitted, initial_state, step, ticked, TapState,
    MAX_TAP_COUNT,
};
use crate::layers::{LayerId, ADVANCE_KEY, ADVANCE_SWITCH, NKEY, RESET_KEY, RESET_SWITCH};
use crate::resolve::{
    lemma_count_prefix, lemma_count_zero, lemma_resolved_idle, lemma_resolved_single, no_keys,
    real_count, resolved_keys, single, MAX_KEYCODES,
};
use vstd::prelude::*;

verus! {

/// The state after `ticks` further ticks that all resolve `keys`.
pub open spec fn held(pre: TapState, keys: Seq<KeyCode>, ticks: nat) -> TapState
    decreases ticks,
{
    if ticks == 0 {
        pre
    } else {
        step(held(pre, keys, (ticks - 1) as nat), keys)
    }
}

/// The state after the ticks of `trace`, first to last.
pub open spec fn run(pre: TapState, trace: Seq<Seq<KeyCode>>) -> TapState
    decreases trace.len(),
{
    if trace.len() == 0 {
        pre
    } else {
        step(run(pre, trace.drop_last()), trace.last())
    }
}

/// The state after `key` alone is pressed, held for `hold` more ticks and
/// released.
pub open spec fn tap(pre: TapState, key: KeyCode, hold: nat) -> TapState {
    step(held(step(pre, single(key)), single(key), hold), no_keys())
}

/// While one key alone is down, one real key code is counted.
pub proof fn lemma_count_single(key: KeyCode)
    requires
        key.is_real(),
    ensures
        real_count(single(key)) == 1,
{
    reveal_with_fuel(Seq::filter, 3);
    lemma_count_prefix(single(key), 1);
    assert(single(key).take(1).drop_last() =~= Seq::<KeyCode>::empty());
}

/// Holding a lone candidate key changes nothing but the tick counter.
proof fn lemma_held_single(pre: TapState, key: KeyCode, ticks: nat)
    requires
        pre.previous == single(key),
    ensures
        held(pre, single(key), ticks).layer == pre.layer,
        held(pre, single(key), ticks).previous == single(key),
        held(pre, single(key), ticks).candidate == pre.candidate,
        held(pre, single(key), ticks).elapsed == if pre.elapsed + ticks < usize::MAX {
            pre.elapsed + ticks
        } else if pre.elapsed < usize::MAX {
            usize::MAX as nat
        } else {
            pre.elapsed
        },
    decreases ticks,
{
    if ticks > 0 {
        lemma_held_single(pre, key, (ticks - 1) as nat);
    }
}

/// A key pressed alone out of an idle matrix, held and released switches
/// the layer by the layer-switch table exactly when the release comes
/// within `MAX_TAP_COUNT` ticks of the press. A later release leaves the
/// layer alone and the key armed, until the next press or chord.
pub proof fn lemma_tap(pre: TapState, key: KeyCode, hold: nat)
    requires
        !pre.previous[0].is_real(),
        key.is_real(),
    ensures
        hold + 1 <= MAX_TAP_COUNT ==> tap(pre, key, hold).layer == pre.layer.after_tap(key),
        hold + 1 <= MAX_TAP_COUNT ==> tap(pre, key, hold).candidate.is_none(),
        hold + 1 > MAX_TAP_COUNT ==> tap(pre, key, hold).layer == pre.layer,
        hold + 1 > MAX_TAP_COUNT ==> tap(pre, key, hold).candidate == Some(key),
        tap(pre, key, hold).previous == no_keys(),
{
    let down = step(pre, single(key));
    lemma_count_single(key);
    assert(single(key)[0] == key);
    assert(arms(pre, single(key)));
    assert(down.previous == single(key));
    assert(down.candidate == Some(key));
    assert(down.elapsed == 0);
    lemma_held_single(down, key, hold);
    let kept = held(down, single(key), hold);
    lemma_count_zero(no_keys());
    assert(no_keys()[0] == KeyCode::No);
    assert(!arms(kept, no_keys()));
    assert(candidate_held(kept, no_keys()) == Some(key));
}

/// Quick taps of the advance key climb from the first layer to the second
/// and on to the third, where a further tap changes nothing.
pub proof fn lemma_advance_taps(pre: TapState, first: nat, second: nat, third: nat)
    requires
        pre.layer == LayerId::One,
        !pre.previous[0].is_real(),
        first + 1 <= MAX_TAP_COUNT,
        second + 1 <= MAX_TAP_COUNT,
        third + 1 <= MAX_TAP_COUNT,
    ensures
        tap(pre, ADVANCE_KEY, first).layer == LayerId::Two,
        tap(tap(pre, ADVANCE_KEY, first), ADVANCE_KEY, second).layer == LayerId::Three,
        tap(tap(tap(pre, ADVANCE_KEY, first), ADVANCE_KEY, second), ADVANCE_KEY, third).layer
            == LayerId::Three,
{
    let once = tap(pre, ADVANCE_KEY, first);
    let twice = tap(once, ADVANCE_KEY, second);
    lemma_tap(pre, ADVANCE_KEY, first);
    assert(once.previous[0] == KeyCode::No);
    lemma_tap(once, ADVANCE_KEY, second);
    assert(twice.previous[0] == KeyCode::No);
    lemma_tap(twice, ADVANCE_KEY, third);
}

/// A quick tap of the reset key ends on the first layer, whichever layer
/// it began on.
pub proof fn lemma_reset_tap(pre: TapState, hold: nat)
    requires
        !pre.previous[0].is_real(),
        hold + 1 <= MAX_TAP_COUNT,
    ensures
        tap(pre, RESET_KEY, hold).layer == LayerId::One,
        tap(pre, RESET_KEY, hold).candidate.is_none(),
{
    lemma_tap(pre, RESET_KEY, hold);
}

/// The state after a scan tick that samples `snapshot`: the snapshot is
/// resolved on the layer in use and the detector sees the result.
pub open spec fn scan(pre: TapState, snapshot: [bool; NKEY]) -> TapState {
    step(pre, resolved_keys(snapshot, pre.layer.table()))
}

/// The state after `ticks` further scan ticks that all sample `snapshot`.
pub open spec fn scan_held(pre: TapState, snapshot: [bool; NKEY], ticks: nat) -> TapState
    decreases ticks,
{
    if ticks == 0 {
        pre
    } else {
        scan(scan_held(pre, snapshot, (ticks - 1) as nat), snapshot)
    }
}

/// Whether `snapshot` shows the switch at `position` pressed and no other.
pub open spec fn only_pressed(snapshot: [bool; NKEY], position: int) -> bool {
    forall|i: int| 0 <= i < NKEY ==> snapshot[i] == (i == position)
}

/// Pressing the advance switch or the reset switch alone, holding it and
/// letting go is, on every layer, a tap of the advance key or of the
/// reset key.
pub proof fn lemma_switch_tap(
    pre: TapState,
    position: int,
    down: [bool; NKEY],
    up: [bool; NKEY],
    hold: nat,
)
    requires
        position == ADVANCE_SWITCH || position == RESET_SWITCH,
        only_pressed(down, position),
        forall|i: int| 0 <= i < NKEY ==> !up[i],
        !pre.previous[0].is_real(),
    ensures
        scan(scan_held(scan(pre, down), down, hold), up) == tap(
            pre,
            if position == ADVANCE_SWITCH {
                ADVANCE_KEY
            } else {
                RESET_KEY
            },
            hold,
        ),
{
    let key = if position == ADVANCE_SWITCH {
        ADVANCE_KEY
    } else {
        RESET_KEY
    };
    let table = pre.layer.table();
    assert(table[position][0] == key && table[position][1] == KeyCode::No);
    lemma_resolved_single(down, table, position);
    let pressed = scan(pre, down);
    assert(pressed == step(pre, single(key)));
    assert(single(key)[0] == key);
    lemma_count_single(key);
    assert(pressed.layer == pre.layer);
    lemma_scan_held_single(pressed, key, down, position, hold);
    let kept = scan_held(pressed, down, hold);
    lemma_held_single(pressed, key, hold);
    lemma_resolved_idle(up, kept.layer.table());
}

/// Holding a switch whose chord is one key code on the layer in use is
/// holding that key code.
proof fn lemma_scan_held_single(
    pre: TapState,
    key: KeyCode,
    down: [bool; NKEY],
    position: int,
    ticks: nat,
)
    requires
        0 <= position < NKEY,
        only_pressed(down, position),
        pre.layer.table()[position][0] == key,
        key.is_real(),
        !pre.layer.table()[position][1].is_real(),
        pre.previous == single(key),
    ensures
        scan_held(pre, down, ticks) == held(pre, single(key), ticks),
    decreases ticks,
{
    if ticks > 0 {
        lemma_scan_held_single(pre, key, down, position, (ticks - 1) as nat);
        lemma_held_single(pre, key, (ticks - 1) as nat);
        let before = held(pre, single(key), (ticks - 1) as nat);
        lemma_resolved_single(down, before.layer.table(), position);
    }
}

/// A release of everything ends a held candidate's tap exactly when the
/// tick counter, this tick included, is within `MAX_TAP_COUNT`.
pub proof fn lemma_release_window(pre: TapState, keys: Seq<KeyCode>, key: KeyCode)
    requires
        pre.candidate == Some(key),
        keys != pre.previous,
        real_count(keys) == 0,
        keys.len() > 0,
    ensures
        ticked(pre.elapsed) <= MAX_TAP_COUNT ==> step(pre, keys).layer == pre.layer.after_tap(key)
            && step(pre, keys).candidate.is_none(),
        ticked(pre.elapsed) > MAX_TAP_COUNT ==> step(pre, keys).layer == pre.layer && step(
            pre,
            keys,
        ).candidate == Some(key),
{
    lemma_count_zero(keys);
    assert(!arms(pre, keys));
}

/// The power-up state is consistent.
pub proof fn lemma_initial_consistent()
    ensures
        consistent(initial_state()),
        initial_state().previous == no_keys(),
{
}

/// Every tick keeps a consistent state consistent.
pub proof fn lemma_step_consistent(pre: TapState, keys: Seq<KeyCode>)
    requires
        consistent(pre),
    ensures
        consistent(step(pre, keys)),
{
}

/// A tick with more than one key down disarms and keeps the layer.
pub proof fn lemma_chord_cancels(pre: TapState, keys: Seq<KeyCode>)
    requires
        consistent(pre),
        real_count(keys) > 1,
    ensures
        step(pre, keys).candidate.is_none(),
        step(pre, keys).layer == pre.layer,
{
}

/// Without a candidate no tick changes the layer.
pub proof fn lemma_idle_keeps_layer(pre: TapState, keys: Seq<KeyCode>)
    requires
        pre.candidate.is_none(),
        keys.len() > 0,
    ensures
        step(pre, keys).layer == pre.layer,
{
    if arms(pre, keys) {
        lemma_count_zero(keys);
    }
}

/// Whether slot 0 is filled in every buffer of `trace` but the last:
/// the matrix does not go idle before the trace ends.
pub open spec fn stays_down(trace: Seq<Seq<KeyCode>>) -> bool {
    &&& forall|i: int| 0 <= i < trace.len() ==> (#[trigger] trace[i]).len() > 0
    &&& forall|i: int| 0 <= i < trace.len() - 1 ==> (#[trigger] trace[i])[0].is_real()
}

/// From a disarmed state with a key down, the detector stays disarmed and
/// on its layer until the matrix has gone idle, however long that takes.
pub proof fn lemma_run_disarmed(pre: TapState, trace: Seq<Seq<KeyCode>>)
    requires
        pre.candidate.is_none(),
        pre.previous[0].is_real(),
        stays_down(trace),
    ensures
        run(pre, trace).layer == pre.layer,
        run(pre, trace).candidate.is_none(),
        run(pre, trace).previous == if trace.len() == 0 {
            pre.previous
        } else {
            trace.last()
        },
    decreases trace.len(),
{
    if trace.len() > 0 {
        let before = trace.drop_last();
        assert forall|i: int| 0 <= i < before.len() implies (#[trigger] before[i]).len() > 0 by {
            assert(before[i] == trace[i]);
        }
        assert forall|i: int| 0 <= i < before.len() - 1 implies (#[trigger] before[i])[0]
            .is_real() by {
            assert(before[i] == trace[i]);
        }
        lemma_run_disarmed(pre, before);
        if before.len() > 0 {
            assert(before.last() == trace[trace.len() - 2]);
        }
    }
}

/// A second key pressed while a candidate is armed ends the tap for good:
/// whatever follows, and however long the keys are held, the layer is the
/// same when the matrix has gone idle again.
pub proof fn lemma_chord_keeps_layer(pre: TapState, chord: Seq<KeyCode>, rest: Seq<Seq<KeyCode>>)
    requires
        consistent(pre),
        real_count(chord) > 1,
        chord[0].is_real(),
        stays_down(rest),
    ensures
        run(step(pre, chord), rest).layer == pre.layer,
        run(step(pre, chord), rest).candidate.is_none(),
{
    lemma_chord_cancels(pre, chord);
    lemma_run_disarmed(step(pre, chord), rest);
}

/// While the advance key is the candidate, slot 0 goes out empty and the
/// other slots as resolved; in every other state the buffer goes out as
/// resolved.
pub proof fn lemma_masking(pre: TapState, keys: Seq<KeyCode>)
    requires
        keys.len() == MAX_KEYCODES,
    ensures
        step(pre, keys).candidate == Some(ADVANCE_KEY) ==> emitted(step(pre, keys), keys)[0]
            == KeyCode::No,
        forall|i: int| 0 < i < keys.len() ==> emitted(step(pre, keys), keys)[i] == keys[i],
        step(pre, keys).candidate != Some(ADVANCE_KEY) ==> emitted(step(pre, keys), keys) == keys,
{
}

/// The advance key pressed alone out of an idle matrix is armed and goes
/// out blanked at once.
pub proof fn lemma_advance_press_is_blanked(pre: TapState)
    requires
        !pre.previous[0].is_real(),
    ensures
        step(pre, single(ADVANCE_KEY)).candidate == Some(ADVANCE_KEY),
        emitted(step(pre, single(ADVANCE_KEY)), single(ADVANCE_KEY)) == no_keys(),
{
    lemma_count_single(ADVANCE_KEY);
    assert(single(ADVANCE_KEY)[0] == ADVANCE_KEY);
    assert(arms(pre, single(ADVANCE_KEY)));
    assert(single(ADVANCE_KEY).update(0, KeyCode::No) =~= no_keys());
}

} // verus!
