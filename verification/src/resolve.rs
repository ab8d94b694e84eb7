//! Keymap resolution: from a matrix snapshot and a layer to the bounded
//! buffer of key codes that are down.

use crate::keycode::KeyCode;
use crate::layers::{Layer, MAX_CHORD, NKEY};
use vstd::prelude::*;

verus! {

/// Capacity of the key code buffer.
pub const MAX_KEYCODES: usize = 10;

/// Number of chord slots of a layer, switch position after switch position.
pub open spec fn slot_count() -> int {
    NKEY * MAX_CHORD
}

/// The switch position that chord slot `p` belongs to.
pub open spec fn slot_key(p: int) -> int {
    p / (MAX_CHORD as int)
}

/// The place of chord slot `p` within its chord.
pub open spec fn slot_place(p: int) -> int {
    p % (MAX_CHORD as int)
}

/// What chord slot `p` sends under `snapshot`: its key code of `layer`
/// while its switch is pressed, and nothing otherwise.
pub open spec fn slot_code(snapshot: [bool; NKEY], layer: Layer, p: int) -> KeyCode {
    if snapshot[slot_key(p)] {
        layer[slot_key(p)][slot_place(p)]
    } else {
        KeyCode::No
    }
}

/// What the first `n` chord slots send, empty slots included.
pub open spec fn slot_codes(snapshot: [bool; NKEY], layer: Layer, n: int) -> Seq<KeyCode> {
    Seq::new(n as nat, |p: int| slot_code(snapshot, layer, p))
}

/// Every key code that is down: the chords of the pressed switches, by
/// ascending switch position and, within a chord, in the layer's order.
pub open spec fn pressed_codes(snapshot: [bool; NKEY], layer: Layer) -> Seq<KeyCode> {
    slot_codes(snapshot, layer, slot_count()).filter(|k: KeyCode| k.is_real())
}

/// Number of real key codes in `keys`.
pub open spec fn real_count(keys: Seq<KeyCode>) -> nat {
    keys.filter(|k: KeyCode| k.is_real()).len()
}

/// `codes` cut to the buffer's capacity and padded with `KeyCode::No`.
pub open spec fn packed(codes: Seq<KeyCode>) -> Seq<KeyCode> {
    Seq::new(
        MAX_KEYCODES as nat,
        |i: int|
            if i < codes.len() {
                codes[i]
            } else {
                KeyCode::No
            },
    )
}

/// The buffer of an idle matrix.
pub open spec fn no_keys() -> Seq<KeyCode> {
    Seq::new(MAX_KEYCODES as nat, |i: int| KeyCode::No)
}

/// Number of buffer slots that the real key codes among `all` fill.
pub open spec fn packed_len(all: Seq<KeyCode>) -> int {
    let n = real_count(all);
    if n < MAX_KEYCODES {
        n as int
    } else {
        MAX_KEYCODES as int
    }
}

/// The buffer for `snapshot` on `layer`: the key codes that are down, the
/// excess over the capacity dropped, the unused slots empty.
pub open spec fn resolved_keys(snapshot: [bool; NKEY], layer: Layer) -> Seq<KeyCode> {
    packed(pressed_codes(snapshot, layer))
}

/// One more chord slot adds its code to the codes that are down exactly
/// when that code is real.
proof fn lemma_next_slot(snapshot: [bool; NKEY], layer: Layer, n: int)
    requires
        0 <= n,
    ensures
        slot_codes(snapshot, layer, n + 1).filter(|k: KeyCode| k.is_real()) == {
            let before = slot_codes(snapshot, layer, n).filter(|k: KeyCode| k.is_real());
            let code = slot_code(snapshot, layer, n);
            if code.is_real() {
                before.push(code)
            } else {
                before
            }
        },
{
    let longer = slot_codes(snapshot, layer, n + 1);
    assert(longer.drop_last() =~= slot_codes(snapshot, layer, n));
    reveal_with_fuel(Seq::filter, 2);
}

/// Resolves a matrix snapshot through a layer.
///
/// Walks the switch positions in ascending order and, for each pressed
/// one, appends its chord. Codes beyond the capacity are dropped.
pub fn resolve(snapshot: &[bool; NKEY], layer: &Layer) -> (keys: [KeyCode; MAX_KEYCODES])
    ensures
        keys@ == resolved_keys(*snapshot, *layer),
{
    let mut keys = [KeyCode::No; MAX_KEYCODES];
    let mut used: usize = 0;
    let mut i: usize = 0;
    while i < NKEY
        invariant
            i <= NKEY,
            used <= MAX_KEYCODES,
            used == packed_len(slot_codes(*snapshot, *layer, i * MAX_CHORD)),
            keys@ == packed(
                slot_codes(*snapshot, *layer, i * MAX_CHORD).filter(|k: KeyCode| k.is_real()),
            ),
        decreases NKEY - i,
    {
        let mut j: usize = 0;
        while j < MAX_CHORD
            invariant
                i < NKEY,
                j <= MAX_CHORD,
                used <= MAX_KEYCODES,
                used == packed_len(slot_codes(*snapshot, *layer, i * MAX_CHORD + j)),
                keys@ == packed(
                    slot_codes(*snapshot, *layer, i * MAX_CHORD + j).filter(
                        |k: KeyCode| k.is_real(),
                    ),
                ),
            decreases MAX_CHORD - j,
        {
            proof {
                lemma_next_slot(*snapshot, *layer, i * MAX_CHORD + j);
            }
            let ghost before = slot_codes(*snapshot, *layer, i * MAX_CHORD + j).filter(
                |k: KeyCode| k.is_real(),
            );
            if snapshot[i] {
                let code = layer[i][j];
                if code.is_key() {
                    if used < MAX_KEYCODES {
                        keys[used] = code;
                        used += 1;
                    }
                    assert(keys@ =~= packed(before.push(code)));
                }
            }
            j += 1;
        }
        i += 1;
    }
    keys
}

/// The chord slots among the first `n` that send a real key code, in
/// ascending order.
pub open spec fn sending_slots(snapshot: [bool; NKEY], layer: Layer, n: int) -> Seq<int>
    decreases n,
{
    if n <= 0 {
        Seq::empty()
    } else if slot_code(snapshot, layer, n - 1).is_real() {
        sending_slots(snapshot, layer, n - 1).push(n - 1)
    } else {
        sending_slots(snapshot, layer, n - 1)
    }
}

/// The codes that are down among the first `n` chord slots are, one for
/// one and in the same order, the codes of the sending slots.
proof fn lemma_sending_slots(snapshot: [bool; NKEY], layer: Layer, n: int)
    requires
        0 <= n,
    ensures
        ({
            let from = sending_slots(snapshot, layer, n);
            let codes = slot_codes(snapshot, layer, n).filter(|k: KeyCode| k.is_real());
            &&& from.len() == codes.len()
            &&& forall|i: int|
                0 <= i < from.len() ==> 0 <= #[trigger] from[i] < n && codes[i] == slot_code(
                    snapshot,
                    layer,
                    from[i],
                ) && codes[i].is_real()
            &&& forall|i: int, j: int| 0 <= i < j < from.len() ==> from[i] < from[j]
            &&& forall|p: int|
                0 <= p < n && slot_code(snapshot, layer, p).is_real() ==> from.contains(p)
        }),
    decreases n,
{
    if n > 0 {
        lemma_sending_slots(snapshot, layer, n - 1);
        lemma_next_slot(snapshot, layer, n - 1);
        let before = sending_slots(snapshot, layer, n - 1);
        let from = sending_slots(snapshot, layer, n);
        assert forall|p: int|
            0 <= p < n && slot_code(snapshot, layer, p).is_real() implies from.contains(p) by {
            if p < n - 1 {
                assert(before.contains(p));
                let i = choose|i: int| 0 <= i < before.len() && before[i] == p;
                assert(from[i] == p);
            } else {
                assert(from[from.len() - 1] == p);
            }
        }
    }
}

/// The buffer lists key codes by ascending switch position and, within a
/// switch position, in the layer's chord order: slot `i` of the buffer
/// holds the code of the `i`-th sending chord slot, those slots ascend
/// strictly, none of them is passed over, and the buffer is empty from
/// where they end.
pub proof fn lemma_resolved_order(snapshot: [bool; NKEY], layer: Layer)
    ensures
        ({
            let keys = resolved_keys(snapshot, layer);
            let from = sending_slots(snapshot, layer, slot_count());
            &&& forall|i: int|
                0 <= i < MAX_KEYCODES && i < from.len() ==> {
                    &&& 0 <= slot_key(#[trigger] from[i]) < NKEY
                    &&& snapshot[slot_key(from[i])]
                    &&& keys[i] == layer[slot_key(from[i])][slot_place(from[i])]
                    &&& keys[i].is_real()
                }
            &&& forall|i: int| from.len() <= i < MAX_KEYCODES ==> keys[i] == KeyCode::No
            &&& forall|i: int, j: int|
                0 <= i < j < from.len() ==> slot_key(#[trigger] from[i]) < slot_key(
                    #[trigger] from[j],
                ) || (slot_key(from[i]) == slot_key(from[j]) && slot_place(from[i]) < slot_place(
                    from[j],
                ))
            &&& forall|p: int|
                0 <= p < slot_count() && slot_code(snapshot, layer, p).is_real()
                    ==> from.contains(p)
        }),
{
    lemma_sending_slots(snapshot, layer, slot_count());
}

/// The buffer while `key` alone is down.
pub open spec fn single(key: KeyCode) -> Seq<KeyCode> {
    Seq::new(
        MAX_KEYCODES as nat,
        |i: int|
            if i == 0 {
                key
            } else {
                KeyCode::No
            },
    )
}

/// An idle matrix resolves to the empty buffer on every layer.
pub proof fn lemma_resolved_idle(snapshot: [bool; NKEY], layer: Layer)
    requires
        forall|i: int| 0 <= i < NKEY ==> !snapshot[i],
    ensures
        resolved_keys(snapshot, layer) == no_keys(),
{
    lemma_sending_slots(snapshot, layer, slot_count());
    let from = sending_slots(snapshot, layer, slot_count());
    if from.len() > 0 {
        assert(slot_code(snapshot, layer, from[0]).is_real());
    }
    assert(resolved_keys(snapshot, layer) =~= no_keys());
}

/// A switch pressed alone whose chord is one key code resolves to that
/// code in the first slot and nothing else.
pub proof fn lemma_resolved_single(snapshot: [bool; NKEY], layer: Layer, index: int)
    requires
        0 <= index < NKEY,
        forall|i: int| 0 <= i < NKEY ==> snapshot[i] == (i == index),
        layer[index][0].is_real(),
        !layer[index][1].is_real(),
    ensures
        resolved_keys(snapshot, layer) == single(layer[index][0]),
{
    lemma_sending_slots(snapshot, layer, slot_count());
    let from = sending_slots(snapshot, layer, slot_count());
    let sender = index * MAX_CHORD;
    assert(slot_key(sender) == index && slot_place(sender) == 0);
    assert(slot_code(snapshot, layer, sender).is_real());
    assert(from.contains(sender));
    assert forall|i: int| 0 <= i < from.len() implies from[i] == sender by {
        assert(slot_code(snapshot, layer, from[i]).is_real());
        assert(slot_key(from[i]) == index);
        assert(slot_place(from[i]) == 0);
    }
    if from.len() > 1 {
        assert(from[0] < from[1]);
    }
    assert(resolved_keys(snapshot, layer) =~= single(layer[index][0]));
}

/// A buffer holds no real key code exactly when every slot is empty.
pub proof fn lemma_count_zero(keys: Seq<KeyCode>)
    ensures
        real_count(keys) == 0 <==> forall|i: int| 0 <= i < keys.len() ==> !keys[i].is_real(),
    decreases keys.len(),
{
    reveal_with_fuel(Seq::filter, 2);
    if keys.len() > 0 {
        lemma_count_zero(keys.drop_last());
        if real_count(keys) == 0 {
            assert forall|i: int| 0 <= i < keys.len() implies !keys[i].is_real() by {
                if i < keys.len() - 1 {
                    assert(keys.drop_last()[i] == keys[i]);
                }
            }
        } else if keys.last().is_real() {
        } else {
            let i = choose|i: int| 0 <= i < keys.len() - 1 && keys.drop_last()[i].is_real();
            assert(keys[i].is_real());
        }
    }
}

/// Empty slots at the end of a buffer do not count.
pub proof fn lemma_count_prefix(keys: Seq<KeyCode>, n: int)
    requires
        0 <= n <= keys.len(),
        forall|i: int| n <= i < keys.len() ==> !keys[i].is_real(),
    ensures
        real_count(keys) == real_count(keys.take(n)),
    decreases keys.len() - n,
{
    reveal_with_fuel(Seq::filter, 2);
    if n < keys.len() {
        lemma_count_prefix(keys.drop_last(), n);
        assert(keys.drop_last().take(n) =~= keys.take(n));
    } else {
        assert(keys.take(n) =~= keys);
    }
}

/// Where every slot is filled, every slot counts.
pub proof fn lemma_count_filled(keys: Seq<KeyCode>)
    requires
        forall|i: int| 0 <= i < keys.len() ==> keys[i].is_real(),
    ensures
        real_count(keys) == keys.len(),
    decreases keys.len(),
{
    reveal_with_fuel(Seq::filter, 2);
    if keys.len() > 0 {
        lemma_count_filled(keys.drop_last());
    }
}

/// The buffer never holds more key codes than its capacity: it holds as
/// many as are down, or `MAX_KEYCODES` where more are down, and the excess
/// is dropped.
pub proof fn lemma_resolved_capacity(snapshot: [bool; NKEY], layer: Layer)
    ensures
        real_count(resolved_keys(snapshot, layer)) <= MAX_KEYCODES,
        real_count(resolved_keys(snapshot, layer)) == if pressed_codes(snapshot, layer).len()
            < MAX_KEYCODES {
            pressed_codes(snapshot, layer).len()
        } else {
            MAX_KEYCODES as nat
        },
        resolved_keys(snapshot, layer).len() == MAX_KEYCODES,
{
    let codes = pressed_codes(snapshot, layer);
    let keys = resolved_keys(snapshot, layer);
    let n: int = if codes.len() < MAX_KEYCODES {
        codes.len() as int
    } else {
        MAX_KEYCODES as int
    };
    lemma_sending_slots(snapshot, layer, slot_count());
    lemma_count_prefix(keys, n);
    lemma_count_filled(keys.take(n));
}

/// Resolution is a function of the snapshot and the layer: two buffers
/// resolved from the same snapshot on the same layer are identical.
pub proof fn lemma_resolve_repeatable(
    first: [KeyCode; MAX_KEYCODES],
    second: [KeyCode; MAX_KEYCODES],
    snapshot: [bool; NKEY],
    layer: Layer,
)
    requires
        first@ == resolved_keys(snapshot, layer),
        second@ == resolved_keys(snapshot, layer),
    ensures
        first == second,
{
    assert(first =~= second);
}

} // verus!
