//! A hash table from strings to values: open addressing with linear probing,
//! tombstones for deleted keys, and FNV-1a as the hash.

use vstd::prelude::*;
use crate::value::{hash, text_equal, text_hash, ThinString, Value, ValueView};

verus! {

/// What one slot of the backing array holds.
pub enum SlotView {
    /// A key with its value.
    Occupied { key: Seq<char>, value: ValueView },
    /// Never used since the array was made.
    Vacant,
    /// Held a key that was deleted.
    Tombstone,
}

/// Largest backing array: the slot index is computed in 32 bits.
pub const MAX_CAPACITY: usize = 0x8000_0000;

/// Size of the first backing array.
pub const INITIAL_CAPACITY: usize = 8;

/// The slot at which the probe sequence of `key` starts.
pub open spec fn home(key: Seq<char>, capacity: int) -> int {
    text_hash(key) as int % capacity
}

/// The slot reached after `steps` steps from `start`, wrapping at the end.
pub open spec fn probe(start: int, steps: int, capacity: int) -> int {
    if start + steps < capacity {
        start + steps
    } else {
        start + steps - capacity
    }
}

/// How many steps the probe sequence from `start` takes to reach slot `i`.
pub open spec fn distance(start: int, i: int, capacity: int) -> int {
    if i >= start {
        i - start
    } else {
        i + capacity - start
    }
}

/// Whether slot `i` holds `key`.
pub open spec fn holds(slots: Seq<SlotView>, key: Seq<char>, i: int) -> bool {
    0 <= i < slots.len() && slots[i] is Occupied && slots[i]->key == key
}

/// Whether some slot holds `key`.
pub open spec fn contains(slots: Seq<SlotView>, key: Seq<char>) -> bool {
    exists|i: int| holds(slots, key, i)
}

/// The slot `steps` steps along the probe sequence of `key`.
pub open spec fn on_path(slots: Seq<SlotView>, key: Seq<char>, steps: int) -> SlotView {
    slots[probe(home(key, slots.len() as int), steps, slots.len() as int)]
}

/// Whether a search for `key` goes on past `slot`: it does past a tombstone
/// and past another key.
pub open spec fn passes(slot: SlotView, key: Seq<char>) -> bool {
    slot is Tombstone || (slot is Occupied && slot->key != key)
}

/// How many slots are not vacant: occupied ones and tombstones.
pub open spec fn used(slots: Seq<SlotView>) -> nat
    decreases slots.len(),
{
    if slots.len() == 0 {
        0
    } else {
        used(slots.drop_last()) + if slots.last() is Vacant {
            0nat
        } else {
            1nat
        }
    }
}

/// How many slots are occupied.
pub open spec fn live(slots: Seq<SlotView>) -> nat
    decreases slots.len(),
{
    if slots.len() == 0 {
        0
    } else {
        live(slots.drop_last()) + if slots.last() is Occupied {
            1nat
        } else {
            0nat
        }
    }
}

/// No key sits in two slots.
pub open spec fn keys_distinct(slots: Seq<SlotView>) -> bool {
    forall|i: int, j: int|
        0 <= i < slots.len() && 0 <= j < slots.len() && slots[i] is Occupied && #[trigger] holds(
            slots,
            slots[i]->key,
            j,
        ) ==> i == j
}

/// No vacant slot lies between the home of an occupied key and the slot
/// where the key sits.
pub open spec fn chains_unbroken(slots: Seq<SlotView>) -> bool {
    forall|i: int, steps: int|
        0 <= i < slots.len() && slots[i] is Occupied && 0 <= steps < distance(
            home(slots[i]->key, slots.len() as int),
            i,
            slots.len() as int,
        ) ==> !(#[trigger] on_path(slots, slots[i]->key, steps) is Vacant)
}

/// The sizes that a backing array can have: none, eight, and the doubles of
/// these.
#[verifier::opaque]
pub open spec fn table_size(n: int) -> bool
    decreases n,
{
    n == 0 || n == INITIAL_CAPACITY || (n > INITIAL_CAPACITY && n % 2 == 0 && table_size(n / 2))
}

/// Between a size and its double lies no size.
pub proof fn table_sizes_double(n: int, bound: int)
    requires
        table_size(n),
        table_size(bound),
        0 < n < bound,
    ensures
        2 * n <= bound,
    decreases bound,
{
    reveal(table_size);
    if bound > INITIAL_CAPACITY {
        if n > INITIAL_CAPACITY {
            table_sizes_double(n / 2, bound / 2);
        } else {
            table_size_is_large(bound / 2);
        }
    }
}

proof fn table_size_is_large(n: int)
    requires
        table_size(n),
        n > 0,
    ensures
        n >= INITIAL_CAPACITY,
    decreases n,
{
    reveal(table_size);
}

/// The size that a table grows to is a size.
pub proof fn grown_capacity_is_a_size(capacity: int)
    requires
        table_size(capacity),
        0 <= capacity,
    ensures
        table_size(grown_capacity(capacity)),
        table_size(0),
        capacity == 0 || capacity >= INITIAL_CAPACITY,
{
    reveal_with_fuel(table_size, 2);
    if capacity > 0 {
        table_size_is_large(capacity);
    }
}

/// The invariant of the backing array under a load of `count`.
pub open spec fn slots_wf(slots: Seq<SlotView>, count: int) -> bool {
    &&& table_size(slots.len() as int)
    &&& slots.len() <= MAX_CAPACITY
    &&& count == used(slots)
    &&& if slots.len() == 0 {
        count == 0
    } else {
        4 * count < 3 * slots.len()
    }
    &&& keys_distinct(slots)
    &&& chains_unbroken(slots)
}

/// Whether `i` is the slot that a search for `key` ends at: the slot that
/// holds the key if one does, else the first slot on the key's probe
/// sequence that is not occupied.
pub open spec fn picks(slots: Seq<SlotView>, key: Seq<char>, i: int) -> bool {
    &&& 0 <= i < slots.len()
    &&& if contains(slots, key) {
        holds(slots, key, i)
    } else {
        &&& !(slots[i] is Occupied)
        &&& forall|steps: int|
            0 <= steps < distance(home(key, slots.len() as int), i, slots.len() as int)
                ==> #[trigger] on_path(slots, key, steps) is Occupied
    }
}

/// The slot that a search for `key` ends at.
pub open spec fn slot_for(slots: Seq<SlotView>, key: Seq<char>) -> int {
    choose|i: int| picks(slots, key, i)
}

/// The mapping that the slots stand for.
pub open spec fn to_map(slots: Seq<SlotView>) -> Map<Seq<char>, ValueView> {
    Map::new(
        |key: Seq<char>| contains(slots, key),
        |key: Seq<char>| slots[choose|i: int| holds(slots, key, i)]->value,
    )
}

/// A search ends at one slot only.
pub proof fn picks_is_unique(slots: Seq<SlotView>, key: Seq<char>, i: int, j: int)
    requires
        keys_distinct(slots),
        picks(slots, key, i),
        picks(slots, key, j),
    ensures
        i == j,
        slot_for(slots, key) == i,
{
    let cap = slots.len() as int;
    let h = home(key, cap);
    if contains(slots, key) {
        assert(holds(slots, slots[i]->key, j));
    } else {
        let di = distance(h, i, cap);
        let dj = distance(h, j, cap);
        assert(0 <= h < cap);
        if di < dj {
            assert(on_path(slots, key, di) is Occupied);
            assert(probe(h, di, cap) == i);
        } else if dj < di {
            assert(on_path(slots, key, dj) is Occupied);
            assert(probe(h, dj, cap) == j);
        }
    }
    if i == j {
        let k = slot_for(slots, key);
        assert(picks(slots, key, k));
        if contains(slots, key) {
            assert(holds(slots, slots[i]->key, k));
        } else {
            let di = distance(h, i, cap);
            let dk = distance(h, k, cap);
            if di < dk {
                assert(on_path(slots, key, di) is Occupied);
                assert(probe(h, di, cap) == i);
            } else if dk < di {
                assert(on_path(slots, key, dk) is Occupied);
                assert(probe(h, dk, cap) == k);
            }
        }
    }
}

/// An array with fewer used slots than slots has a vacant one.
proof fn vacant_exists(slots: Seq<SlotView>)
    requires
        used(slots) < slots.len(),
    ensures
        exists|i: int| 0 <= i < slots.len() && #[trigger] slots[i] is Vacant,
    decreases slots.len(),
{
    if slots.last() is Vacant {
        assert(slots[slots.len() - 1] is Vacant);
    } else {
        let front = slots.drop_last();
        vacant_exists(front);
        let i = choose|i: int| 0 <= i < front.len() && #[trigger] front[i] is Vacant;
        assert(slots[i] is Vacant);
    }
}

/// In an array without a duplicate key, the mapping gives each key the value
/// of the slot that holds it.
pub proof fn to_map_reads_slot(slots: Seq<SlotView>, key: Seq<char>, i: int)
    requires
        keys_distinct(slots),
        holds(slots, key, i),
    ensures
        to_map(slots).contains_key(key),
        to_map(slots)[key] == slots[i]->value,
{
    let j = choose|j: int| holds(slots, key, j);
    assert(holds(slots, slots[i]->key, j));
}

/// What replacing one slot does to the number of used slots.
proof fn used_after_update(slots: Seq<SlotView>, i: int, slot: SlotView)
    requires
        0 <= i < slots.len(),
    ensures
        used(slots.update(i, slot)) + (if slots[i] is Vacant { 0int } else { 1int })
            == used(slots) + (if slot is Vacant { 0int } else { 1int }),
        live(slots.update(i, slot)) + (if slots[i] is Occupied { 1int } else { 0int })
            == live(slots) + (if slot is Occupied { 1int } else { 0int }),
    decreases slots.len(),
{
    let after = slots.update(i, slot);
    if i == slots.len() - 1 {
        assert(after.drop_last() =~= slots.drop_last());
    } else {
        used_after_update(slots.drop_last(), i, slot);
        assert(after.drop_last() =~= slots.drop_last().update(i, slot));
    }
}

/// What the slots are after `key` is given `value`: the slot that the search
/// ends at is overwritten.
pub open spec fn put(slots: Seq<SlotView>, key: Seq<char>, value: ValueView) -> Seq<SlotView> {
    slots.update(slot_for(slots, key), SlotView::Occupied { key, value })
}

/// What the slots are after `key` is deleted: its slot, if it has one,
/// becomes a tombstone.
pub open spec fn bury(slots: Seq<SlotView>, key: Seq<char>) -> Seq<SlotView> {
    if contains(slots, key) {
        slots.update(slot_for(slots, key), SlotView::Tombstone)
    } else {
        slots
    }
}

/// Writing a key into the slot that its search ends at keeps the array's
/// invariant and sets the key in the mapping.
pub proof fn put_is_insert(slots: Seq<SlotView>, key: Seq<char>, value: ValueView, i: int)
    requires
        slots.len() > 0,
        keys_distinct(slots),
        chains_unbroken(slots),
        picks(slots, key, i),
    ensures
        put(slots, key, value) == slots.update(i, SlotView::Occupied { key, value }),
        keys_distinct(put(slots, key, value)),
        chains_unbroken(put(slots, key, value)),
        to_map(put(slots, key, value)) == to_map(slots).insert(key, value),
        used(put(slots, key, value)) == used(slots) + if slots[i] is Vacant {
            1int
        } else {
            0int
        },
        live(put(slots, key, value)) == live(slots) + if slots[i] is Occupied {
            0int
        } else {
            1int
        },
        slots[i] is Occupied <==> to_map(slots).contains_key(key),
{
    picks_is_unique(slots, key, i, i);
    let cap = slots.len() as int;
    let after = slots.update(i, SlotView::Occupied { key, value });
    used_after_update(slots, i, SlotView::Occupied { key, value });
    assert(contains(slots, key) ==> holds(slots, key, i));
    assert forall|a: int, b: int|
        0 <= a < after.len() && 0 <= b < after.len() && after[a] is Occupied && #[trigger] holds(
            after,
            after[a]->key,
            b,
        ) implies a == b by {
        if a != i && b != i {
            assert(holds(slots, slots[a]->key, b));
        } else if a == i && b != i {
            assert(holds(slots, key, b));
            assert(holds(slots, slots[b]->key, i));
        } else if a != i && b == i {
            assert(holds(slots, key, a));
            assert(holds(slots, slots[a]->key, i));
        }
    }
    assert forall|a: int, steps: int|
        0 <= a < after.len() && after[a] is Occupied && 0 <= steps < distance(
            home(after[a]->key, cap),
            a,
            cap,
        ) implies !(#[trigger] on_path(after, after[a]->key, steps) is Vacant) by {
        let k = after[a]->key;
        let spot = probe(home(k, cap), steps, cap);
        if spot != i {
            if a == i {
                if contains(slots, key) {
                    assert(!(on_path(slots, slots[i]->key, steps) is Vacant));
                } else {
                    assert(on_path(slots, key, steps) is Occupied);
                }
            } else {
                assert(!(on_path(slots, slots[a]->key, steps) is Vacant));
            }
        }
    }
    assert forall|k: Seq<char>| contains(after, k) <==> (k == key || contains(slots, k)) by {
        if contains(after, k) {
            let w = choose|w: int| holds(after, k, w);
            if w != i {
                assert(holds(slots, k, w));
            }
        }
        if k == key {
            assert(holds(after, key, i));
        } else if contains(slots, k) {
            let w = choose|w: int| holds(slots, k, w);
            assert(holds(after, k, w));
        }
    }
    assert forall|k: Seq<char>| #[trigger] to_map(after).contains_key(k) implies to_map(after)[k]
        == to_map(slots).insert(key, value)[k] by {
        let w = choose|w: int| holds(after, k, w);
        to_map_reads_slot(after, k, w);
        if k != key {
            assert(holds(slots, k, w));
            to_map_reads_slot(slots, k, w);
        } else {
            assert(holds(after, after[w]->key, i));
        }
    }
    assert(to_map(after) =~= to_map(slots).insert(key, value));
}

/// Turning the slot of a key into a tombstone keeps the array's invariant and
/// removes the key from the mapping.
pub proof fn bury_is_remove(slots: Seq<SlotView>, key: Seq<char>, i: int)
    requires
        slots.len() > 0,
        keys_distinct(slots),
        chains_unbroken(slots),
        picks(slots, key, i),
    ensures
        contains(slots, key) ==> bury(slots, key) == slots.update(i, SlotView::Tombstone),
        keys_distinct(bury(slots, key)),
        chains_unbroken(bury(slots, key)),
        to_map(bury(slots, key)) == to_map(slots).remove(key),
        used(bury(slots, key)) == used(slots),
        slots[i] is Occupied <==> to_map(slots).contains_key(key),
{
    picks_is_unique(slots, key, i, i);
    if contains(slots, key) {
        let cap = slots.len() as int;
        let after = slots.update(i, SlotView::Tombstone);
        used_after_update(slots, i, SlotView::Tombstone);
        assert forall|a: int, b: int|
            0 <= a < after.len() && 0 <= b < after.len() && after[a] is Occupied
                && #[trigger] holds(after, after[a]->key, b) implies a == b by {
            assert(holds(slots, slots[a]->key, b));
        }
        assert forall|a: int, steps: int|
            0 <= a < after.len() && after[a] is Occupied && 0 <= steps < distance(
                home(after[a]->key, cap),
                a,
                cap,
            ) implies !(#[trigger] on_path(after, after[a]->key, steps) is Vacant) by {
            assert(!(on_path(slots, slots[a]->key, steps) is Vacant));
        }
        assert forall|k: Seq<char>| contains(after, k) <==> (k != key && contains(slots, k)) by {
            if contains(after, k) {
                let w = choose|w: int| holds(after, k, w);
                assert(holds(slots, k, w));
                if k == key {
                    assert(holds(slots, slots[w]->key, i));
                }
            }
            if k != key && contains(slots, k) {
                let w = choose|w: int| holds(slots, k, w);
                assert(holds(after, k, w));
            }
        }
        assert forall|k: Seq<char>| #[trigger] to_map(after).contains_key(k) implies to_map(
            after,
        )[k] == to_map(slots).remove(key)[k] by {
            let w = choose|w: int| holds(after, k, w);
            to_map_reads_slot(after, k, w);
            assert(holds(slots, k, w));
            to_map_reads_slot(slots, k, w);
        }
        assert(to_map(after) =~= to_map(slots).remove(key));
    } else {
        assert(to_map(slots) =~= to_map(slots).remove(key));
    }
}

/// Whether a table of this capacity and load grows before the next key goes
/// in: it does once a further key would fill three quarters of the slots.
pub open spec fn needs_growth(capacity: int, load: int) -> bool {
    4 * (load + 1) >= 3 * capacity
}

/// The capacity that a table of `capacity` slots grows to.
pub open spec fn grown_capacity(capacity: int) -> int {
    if capacity < INITIAL_CAPACITY {
        INITIAL_CAPACITY as int
    } else {
        2 * capacity
    }
}

/// An array of `capacity` vacant slots.
pub open spec fn vacant_slots(capacity: int) -> Seq<SlotView> {
    Seq::new(capacity as nat, |i: int| SlotView::Vacant)
}

/// The array of `capacity` slots that holds the keys of the first `n` slots
/// of `source`, put in one after the other in the order of their slots.
/// Tombstones are left behind.
pub open spec fn rehash(source: Seq<SlotView>, n: int, capacity: int) -> Seq<SlotView>
    decreases n,
{
    if n <= 0 {
        vacant_slots(capacity)
    } else {
        let before = rehash(source, n - 1, capacity);
        match source[n - 1] {
            SlotView::Occupied { key, value } => put(before, key, value),
            _ => before,
        }
    }
}

/// The slots into which the next key goes: the array as it is, or rehashed
/// into a larger one when the load calls for it.
pub open spec fn with_room(slots: Seq<SlotView>, load: int) -> Seq<SlotView> {
    if needs_growth(slots.len() as int, load) {
        rehash(slots, slots.len() as int, grown_capacity(slots.len() as int))
    } else {
        slots
    }
}

proof fn vacant_slots_are_unused(capacity: int)
    requires
        0 <= capacity,
    ensures
        used(vacant_slots(capacity)) == 0,
        live(vacant_slots(capacity)) == 0,
    decreases capacity,
{
    if capacity > 0 {
        vacant_slots_are_unused(capacity - 1);
        assert(vacant_slots(capacity).drop_last() =~= vacant_slots(capacity - 1));
    }
}

proof fn live_bounds(slots: Seq<SlotView>, n: int)
    requires
        0 <= n <= slots.len(),
    ensures
        live(slots.take(n)) <= live(slots) <= used(slots),
        live(slots.take(n)) <= n,
    decreases slots.len(),
{
    if n < slots.len() {
        live_bounds(slots.drop_last(), n);
        assert(slots.drop_last().take(n) =~= slots.take(n));
    } else {
        assert(slots.take(n) =~= slots);
        if slots.len() > 0 {
            live_bounds(slots.drop_last(), n - 1);
            assert(slots.drop_last().take(n - 1) =~= slots.drop_last());
        }
    }
}

/// Rehashing keeps the invariant, leaves no tombstone, and keeps each key of
/// the slots it has read with its value.
pub proof fn rehash_keeps_entries(source: Seq<SlotView>, n: int, capacity: int)
    requires
        keys_distinct(source),
        0 <= n <= source.len(),
        INITIAL_CAPACITY <= capacity <= MAX_CAPACITY,
        table_size(capacity),
        4 * live(source) < 3 * capacity,
    ensures
        rehash(source, n, capacity).len() == capacity,
        slots_wf(rehash(source, n, capacity), live(source.take(n)) as int),
        live(rehash(source, n, capacity)) == live(source.take(n)),
        forall|key: Seq<char>|
            contains(rehash(source, n, capacity), key) <==> exists|j: int|
                0 <= j < n && #[trigger] holds(source, key, j),
        forall|j: int|
            0 <= j < n && source[j] is Occupied ==> #[trigger] to_map(
                rehash(source, n, capacity),
            )[source[j]->key] == source[j]->value,
    decreases n,
{
    let after = rehash(source, n, capacity);
    if n == 0 {
        vacant_slots_are_unused(capacity);
        assert(source.take(0) =~= Seq::<SlotView>::empty());
        assert forall|key: Seq<char>| !contains(after, key) by {
            if contains(after, key) {
                let w = choose|w: int| holds(after, key, w);
                assert(false);
            }
        }
    } else {
        let before = rehash(source, n - 1, capacity);
        rehash_keeps_entries(source, n - 1, capacity);
        assert(source.take(n).drop_last() =~= source.take(n - 1));
        live_bounds(source, n);
        match source[n - 1] {
            SlotView::Occupied { key, value } => {
                vacant_exists(before);
                assert(!contains(before, key)) by {
                    if contains(before, key) {
                        let j = choose|j: int| 0 <= j < n - 1 && #[trigger] holds(source, key, j);
                        assert(holds(source, source[n - 1]->key, j));
                    }
                }
                search_ends(before, key);
                let i = slot_for(before, key);
                put_is_insert(before, key, value, i);
                assert(before[i] is Vacant) by {
                    no_tombstone(before, i);
                }
                assert forall|k: Seq<char>|
                    contains(after, k) <==> exists|j: int|
                        0 <= j < n && #[trigger] holds(source, k, j) by {
                    assert(to_map(after).contains_key(k) <==> contains(after, k));
                    assert(to_map(before).contains_key(k) <==> contains(before, k));
                    if k == key {
                        assert(holds(source, k, n - 1));
                    }
                    if contains(before, k) {
                        let j = choose|j: int| 0 <= j < n - 1 && #[trigger] holds(source, k, j);
                        assert(holds(source, k, j));
                    }
                    if exists|j: int| 0 <= j < n && #[trigger] holds(source, k, j) {
                        let j = choose|j: int| 0 <= j < n && #[trigger] holds(source, k, j);
                        if j < n - 1 {
                            assert(holds(source, k, j));
                        }
                    }
                }
                assert forall|j: int| 0 <= j < n && source[j] is Occupied implies #[trigger] to_map(
                    after,
                )[source[j]->key] == source[j]->value by {
                    if j < n - 1 {
                        assert(to_map(before)[source[j]->key] == source[j]->value);
                        if source[j]->key == key {
                            assert(holds(source, source[j]->key, n - 1));
                        }
                    }
                }
            },
            _ => {
                assert forall|k: Seq<char>|
                    contains(after, k) <==> exists|j: int|
                        0 <= j < n && #[trigger] holds(source, k, j) by {
                    if contains(before, k) {
                        let j = choose|j: int| 0 <= j < n - 1 && #[trigger] holds(source, k, j);
                        assert(holds(source, k, j));
                    }
                    if exists|j: int| 0 <= j < n && #[trigger] holds(source, k, j) {
                        let j = choose|j: int| 0 <= j < n && #[trigger] holds(source, k, j);
                        assert(j < n - 1);
                        assert(holds(source, k, j));
                    }
                }
            },
        }
    }
}

/// Rehashing the whole array keeps the mapping.
pub proof fn rehash_keeps_map(source: Seq<SlotView>, capacity: int)
    requires
        keys_distinct(source),
        INITIAL_CAPACITY <= capacity <= MAX_CAPACITY,
        table_size(capacity),
        4 * live(source) < 3 * capacity,
    ensures
        to_map(rehash(source, source.len() as int, capacity)) == to_map(source),
        slots_wf(rehash(source, source.len() as int, capacity), live(source) as int),
{
    let n = source.len() as int;
    let after = rehash(source, n, capacity);
    rehash_keeps_entries(source, n, capacity);
    assert(source.take(n) =~= source);
    assert forall|k: Seq<char>| contains(after, k) <==> contains(source, k) by {
        if contains(source, k) {
            let j = choose|j: int| holds(source, k, j);
            assert(holds(source, k, j));
        }
        if contains(after, k) {
            let j = choose|j: int| 0 <= j < n && #[trigger] holds(source, k, j);
            assert(holds(source, k, j));
        }
    }
    assert forall|k: Seq<char>| #[trigger] to_map(after).contains_key(k) implies to_map(after)[k]
        == to_map(source)[k] by {
        let j = choose|j: int| holds(source, k, j);
        to_map_reads_slot(source, k, j);
        assert(to_map(after)[source[j]->key] == source[j]->value);
    }
    assert(to_map(after) =~= to_map(source));
}

/// Where every used slot is occupied, a slot that is not occupied is vacant.
proof fn no_tombstone(slots: Seq<SlotView>, i: int)
    requires
        used(slots) == live(slots),
        0 <= i < slots.len(),
    ensures
        slots[i] is Occupied || slots[i] is Vacant,
    decreases slots.len(),
{
    live_bounds(slots.drop_last(), 0);
    if i < slots.len() - 1 {
        no_tombstone(slots.drop_last(), i);
    }
}

/// In an array that has a vacant slot and keeps the invariant, every search
/// ends.
pub proof fn search_ends(slots: Seq<SlotView>, key: Seq<char>)
    requires
        slots.len() > 0,
        used(slots) < slots.len(),
        keys_distinct(slots),
        chains_unbroken(slots),
    ensures
        picks(slots, key, slot_for(slots, key)),
{
    let cap = slots.len() as int;
    let h = home(key, cap);
    if contains(slots, key) {
        let i = choose|i: int| holds(slots, key, i);
        assert(picks(slots, key, i));
    } else {
        vacant_exists(slots);
        let v = choose|i: int| 0 <= i < slots.len() && #[trigger] slots[i] is Vacant;
        let i = first_free(slots, key, distance(h, v, cap));
        assert(picks(slots, key, i));
    }
}

/// The first slot on the probe sequence of `key` that is not occupied, given
/// that the slot `steps` steps along is not.
proof fn first_free(slots: Seq<SlotView>, key: Seq<char>, steps: int) -> (i: int)
    requires
        slots.len() > 0,
        0 <= steps < slots.len(),
        !(on_path(slots, key, steps) is Occupied),
    ensures
        0 <= i < slots.len(),
        !(slots[i] is Occupied),
        forall|s: int|
            0 <= s < distance(home(key, slots.len() as int), i, slots.len() as int)
                ==> #[trigger] on_path(slots, key, s) is Occupied,
    decreases steps,
{
    let cap = slots.len() as int;
    let h = home(key, cap);
    if exists|s: int| 0 <= s < steps && !(#[trigger] on_path(slots, key, s) is Occupied) {
        let s = choose|s: int| 0 <= s < steps && !(#[trigger] on_path(slots, key, s) is Occupied);
        first_free(slots, key, s)
    } else {
        let i = probe(h, steps, cap);
        assert(distance(h, i, cap) == steps);
        i
    }
}

/// The keys of the occupied slots with their values, in the order of the
/// slots.
pub open spec fn entries(slots: Seq<SlotView>) -> Seq<(Seq<char>, ValueView)>
    decreases slots.len(),
{
    if slots.len() == 0 {
        Seq::empty()
    } else {
        match slots.last() {
            SlotView::Occupied { key, value } => entries(slots.drop_last()).push((key, value)),
            _ => entries(slots.drop_last()),
        }
    }
}

/// What a sequence of borrowed keys and values holds.
pub open spec fn pair_views(pairs: Seq<(&str, &Value)>) -> Seq<(Seq<char>, ValueView)> {
    pairs.map_values(|pair: (&str, &Value)| (pair.0@, pair.1@))
}

/// The entries are those of the mapping: a key with a value is among them
/// if and only if the mapping gives the key that value.
pub proof fn entries_are_the_mapping(slots: Seq<SlotView>, key: Seq<char>, value: ValueView)
    requires
        keys_distinct(slots),
    ensures
        entries(slots).contains((key, value)) <==> (to_map(slots).contains_key(key) && to_map(
            slots,
        )[key] == value),
{
    entries_are_the_occupied(slots, key, value);
    if exists|i: int| holds(slots, key, i) && slots[i]->value == value {
        let i = choose|i: int| holds(slots, key, i) && slots[i]->value == value;
        to_map_reads_slot(slots, key, i);
    }
    if to_map(slots).contains_key(key) && to_map(slots)[key] == value {
        let i = choose|i: int| holds(slots, key, i);
        to_map_reads_slot(slots, key, i);
    }
}

proof fn entries_are_the_occupied(slots: Seq<SlotView>, key: Seq<char>, value: ValueView)
    ensures
        entries(slots).contains((key, value)) <==> exists|i: int|
            holds(slots, key, i) && slots[i]->value == value,
    decreases slots.len(),
{
    if slots.len() > 0 {
        let front = slots.drop_last();
        entries_are_the_occupied(front, key, value);
        let n = slots.len() - 1;
        if exists|i: int| holds(front, key, i) && front[i]->value == value {
            let i = choose|i: int| holds(front, key, i) && front[i]->value == value;
            assert(holds(slots, key, i) && slots[i]->value == value);
        }
        if exists|i: int| holds(slots, key, i) && slots[i]->value == value {
            let i = choose|i: int| holds(slots, key, i) && slots[i]->value == value;
            if i < n {
                assert(holds(front, key, i) && front[i]->value == value);
            }
        }
        match slots.last() {
            SlotView::Occupied { key: k, value: v } => {
                let all = entries(front).push((k, v));
                assert(all[entries(front).len() as int] == (k, v));
                if entries(front).contains((key, value)) {
                    let j = choose|j: int|
                        0 <= j < entries(front).len() && entries(front)[j] == (key, value);
                    assert(all[j] == (key, value));
                }
                if all.contains((key, value)) {
                    let j = choose|j: int| 0 <= j < all.len() && all[j] == (key, value);
                    if j < entries(front).len() {
                        assert(entries(front)[j] == (key, value));
                    } else {
                        assert(holds(slots, key, n) && slots[n]->value == value);
                    }
                }
                if k == key && v == value {
                    assert(holds(slots, key, n) && slots[n]->value == value);
                }
            },
            _ => {},
        }
    } else {
        assert(!entries(slots).contains((key, value)));
    }
}

/// What a sequence of owned keys and values holds.
pub open spec fn owned_pair_views(pairs: Seq<(String, Value)>) -> Seq<(Seq<char>, ValueView)> {
    pairs.map_values(|pair: (String, Value)| (pair.0@, pair.1@))
}

/// The mapping after the pairs have been set in their order.
pub open spec fn with_pairs(
    start: Map<Seq<char>, ValueView>,
    pairs: Seq<(Seq<char>, ValueView)>,
) -> Map<Seq<char>, ValueView>
    decreases pairs.len(),
{
    if pairs.len() == 0 {
        start
    } else {
        with_pairs(start, pairs.drop_last()).insert(pairs.last().0, pairs.last().1)
    }
}

/// A change to a table: a key is given a value, or a key is deleted.
pub enum Change {
    Put { key: Seq<char>, value: ValueView },
    Delete { key: Seq<char> },
}

/// The mapping after the changes have been made in their order.
pub open spec fn after_changes(
    start: Map<Seq<char>, ValueView>,
    changes: Seq<Change>,
) -> Map<Seq<char>, ValueView>
    decreases changes.len(),
{
    if changes.len() == 0 {
        start
    } else {
        let before = after_changes(start, changes.drop_last());
        match changes.last() {
            Change::Put { key, value } => before.insert(key, value),
            Change::Delete { key } => before.remove(key),
        }
    }
}

/// Whether the last of the changes that touches `key` sets it to `value`.
pub open spec fn last_sets(changes: Seq<Change>, key: Seq<char>, value: ValueView) -> bool
    decreases changes.len(),
{
    if changes.len() == 0 {
        false
    } else {
        match changes.last() {
            Change::Put { key: k, value: v } if k == key => v == value,
            Change::Delete { key: k } if k == key => false,
            _ => last_sets(changes.drop_last(), key, value),
        }
    }
}

/// After any sequence of sets and deletes, a key that was set and not
/// deleted since has the value it was last given, whatever was done to other
/// keys in between. [`Table::set`] and [`Table::delete`] change the mapping
/// as [`after_changes`] says, and [`Table::get`] reads it, so the same holds
/// of a table however often it grew meanwhile.
pub proof fn set_keys_are_found(
    start: Map<Seq<char>, ValueView>,
    changes: Seq<Change>,
    key: Seq<char>,
    value: ValueView,
)
    requires
        last_sets(changes, key, value),
    ensures
        after_changes(start, changes).contains_key(key),
        after_changes(start, changes)[key] == value,
    decreases changes.len(),
{
    if changes.len() > 0 {
        match changes.last() {
            Change::Put { key: k, value: v } if k == key => {},
            Change::Delete { key: k } if k == key => {},
            _ => {
                set_keys_are_found(start, changes.drop_last(), key, value);
            },
        }
    }
}

/// After any sequence of sets and deletes, a key whose last change was a
/// delete, or that was never set and was absent at the start, is absent.
pub proof fn deleted_keys_are_gone(
    start: Map<Seq<char>, ValueView>,
    changes: Seq<Change>,
    key: Seq<char>,
)
    requires
        !start.contains_key(key),
        forall|value: ValueView| !last_sets(changes, key, value),
    ensures
        !after_changes(start, changes).contains_key(key),
    decreases changes.len(),
{
    if changes.len() > 0 {
        match changes.last() {
            Change::Put { key: k, value: v } if k == key => {
                assert(last_sets(changes, key, v));
            },
            Change::Delete { key: k } if k == key => {},
            _ => {
                assert forall|value: ValueView| !last_sets(changes.drop_last(), key, value) by {
                    assert(!last_sets(changes, key, value));
                }
                deleted_keys_are_gone(start, changes.drop_last(), key);
            },
        }
    }
}

struct OccupiedEntry {
    key: ThinString,
    value: Value,
}

enum Slot {
    Occupied(OccupiedEntry),
    Vacant,
    Tombstone,
}

impl View for Slot {
    type V = SlotView;

    closed spec fn view(&self) -> SlotView {
        match self {
            Slot::Occupied(entry) => SlotView::Occupied { key: entry.key@, value: entry.value@ },
            Slot::Vacant => SlotView::Vacant,
            Slot::Tombstone => SlotView::Tombstone,
        }
    }
}

spec fn slot_views(entries: Seq<Slot>) -> Seq<SlotView> {
    entries.map_values(|s: Slot| s@)
}

/// A map from strings to values.
pub struct Table {
    entries: Vec<Slot>,
    count: usize,
}

impl View for Table {
    type V = Map<Seq<char>, ValueView>;

    closed spec fn view(&self) -> Map<Seq<char>, ValueView> {
        to_map(self.slots())
    }
}

impl Default for Table {
    fn default() -> (r: Self)
        ensures
            r.wf(),
            r@ == Map::<Seq<char>, ValueView>::empty(),
            r.slots() == Seq::<SlotView>::empty(),
    {
        let r = Table { entries: Vec::new(), count: 0 };
        proof {
            reveal(table_size);
            assert(r.slots() =~= Seq::<SlotView>::empty());
            assert forall|key: Seq<char>| !contains(r.slots(), key) by {
                if contains(r.slots(), key) {
                    let i = choose|i: int| holds(r.slots(), key, i);
                }
            }
            assert(r@ =~= Map::<Seq<char>, ValueView>::empty());
        }
        r
    }
}

impl Table {
    /// The backing array.
    pub closed spec fn slots(&self) -> Seq<SlotView> {
        slot_views(self.entries@)
    }

    /// How many slots have been used since the array was made: the live keys
    /// and the tombstones.
    pub closed spec fn load(&self) -> int {
        self.count as int
    }

    /// The table's invariant.
    pub open spec fn wf(&self) -> bool {
        slots_wf(self.slots(), self.load())
    }

    /// How many slots the backing array has.
    pub fn capacity(&self) -> (n: usize)
        ensures
            n == self.slots().len(),
    {
        self.entries.len()
    }

    /// Whether the next key can go in: the table need not grow, or can
    /// without exceeding [`MAX_CAPACITY`].
    pub open spec fn has_room(&self) -> bool {
        needs_growth(self.slots().len() as int, self.load()) ==> grown_capacity(
            self.slots().len() as int,
        ) <= MAX_CAPACITY
    }

    /// A table whose load is below three quarters of the largest capacity
    /// has room.
    pub proof fn room_below_full_load(&self)
        requires
            self.wf(),
            4 * (self.load() + 1) < 3 * MAX_CAPACITY,
        ensures
            self.has_room(),
    {
        let capacity = self.slots().len() as int;
        assert(table_size(MAX_CAPACITY as int)) by {
            reveal_with_fuel(table_size, 30);
        }
        grown_capacity_is_a_size(capacity);
        if 0 < capacity < MAX_CAPACITY {
            table_sizes_double(capacity, MAX_CAPACITY as int);
        }
    }

    /// Tests [`Table::has_room`].
    pub fn check_room(&self) -> (r: bool)
        requires
            self.wf(),
        ensures
            r == self.has_room(),
    {
        let capacity = self.entries.len();
        !Self::growth_due(capacity, self.count) || capacity <= MAX_CAPACITY / 2
    }

    fn growth_due(capacity: usize, count: usize) -> (r: bool)
        requires
            capacity <= MAX_CAPACITY,
            count <= MAX_CAPACITY,
        ensures
            r == needs_growth(capacity as int, count as int),
    {
        4 * (count as u64 + 1) >= 3 * (capacity as u64)
    }

    /// Gives `key` the value `value`, growing the array first if a further
    /// key would fill three quarters of it. Returns whether the key was new.
    pub fn set(&mut self, key: String, value: Value) -> (is_new: bool)
        requires
            old(self).wf(),
            old(self).has_room(),
        ensures
            final(self).wf(),
            final(self)@ == old(self)@.insert(key@, value@),
            is_new == !old(self)@.contains_key(key@),
            final(self).slots() == put(
                with_room(old(self).slots(), old(self).load()),
                key@,
                value@,
            ),
            final(self).load() <= old(self).load() + 1,
    {
        let capacity = self.entries.len();
        proof {
            live_bounds(self.slots(), 0);
            assert(self.slots().len() == capacity);
            grown_capacity_is_a_size(capacity as int);
        }
        if Self::growth_due(capacity, self.count) {
            let new_capacity = if capacity < INITIAL_CAPACITY {
                INITIAL_CAPACITY
            } else {
                capacity * 2
            };
            self.realloc(new_capacity);
        }
        let ghost slots = self.slots();
        assert(slots == with_room(old(self).slots(), old(self).load()));
        assert(slots.len() == self.entries@.len());
        assert(4 * (self.load() + 1) < 3 * slots.len());
        let index = self.find(key.as_str());
        proof {
            put_is_insert(slots, key@, value@, index as int);
            assert(slots[index as int] == self.entries@[index as int]@);
        }
        let is_new = !matches!(self.entries[index], Slot::Occupied(_));
        let was_vacant = matches!(self.entries[index], Slot::Vacant);
        self.entries[index] = Slot::Occupied(OccupiedEntry { key: ThinString::new(key), value });
        if was_vacant {
            self.count += 1;
        }
        proof {
            assert(self.slots() =~= put(slots, key@, value@));
        }
        is_new
    }

    /// Sets every pair of `pairs`, in their order: where a key comes twice,
    /// its last value stays.
    pub fn extend(&mut self, pairs: Vec<(String, Value)>)
        requires
            old(self).wf(),
            4 * (old(self).load() + pairs@.len() + 1) < 3 * MAX_CAPACITY,
        ensures
            final(self).wf(),
            final(self)@ == with_pairs(old(self)@, owned_pair_views(pairs@)),
    {
        let ghost all = owned_pair_views(pairs@);
        let total = pairs.len();
        let mut rest = pairs;
        let mut done: usize = 0;
        proof {
            assert(all.take(0) =~= Seq::<(Seq<char>, ValueView)>::empty());
        }
        while done < total
            invariant
                self.wf(),
                done <= total == all.len(),
                rest@.len() == total,
                forall|i: int|
                    done <= i < total ==> (#[trigger] rest@[i]).0@ == all[i].0 && rest@[i].1@
                        == all[i].1,
                4 * (self.load() + (total - done) + 1) < 3 * MAX_CAPACITY,
                self@ == with_pairs(old(self)@, all.take(done as int)),
            decreases total - done,
        {
            proof {
                self.room_below_full_load();
                assert(all.take(done + 1).drop_last() =~= all.take(done as int));
                assert(all.take(done + 1).last() == all[done as int]);
            }
            let mut pair = (String::new(), Value::Nil);
            core::mem::swap(&mut rest[done], &mut pair);
            let (key, value) = pair;
            self.set(key, value);
            done += 1;
        }
        proof {
            assert(all.take(total as int) =~= all);
        }
    }

    /// Whether `key` has a value.
    pub fn has(&self, key: &str) -> (r: bool)
        requires
            self.wf(),
        ensures
            r == self@.contains_key(key@),
    {
        self.get(key).is_some()
    }

    /// The value of `key`, if it has one.
    pub fn get(&self, key: &str) -> (r: Option<&Value>)
        requires
            self.wf(),
        ensures
            match r {
                Some(value) => self@.contains_key(key@) && value@ == self@[key@],
                None => !self@.contains_key(key@),
            },
    {
        if self.count == 0 {
            proof {
                self.empty_when_unused(key@);
            }
            return None;
        }
        let index = self.find(key);
        proof {
            assert(self.slots()[index as int] == self.entries@[index as int]@);
            if contains(self.slots(), key@) {
                to_map_reads_slot(self.slots(), key@, index as int);
            }
        }
        match &self.entries[index] {
            Slot::Occupied(entry) => Some(&entry.value),
            _ => None,
        }
    }

    /// The value of `key` for writing, if it has one. What the caller writes
    /// becomes the key's value; nothing else in the table changes.
    pub fn get_mut(&mut self, key: &str) -> (r: Option<&mut Value>)
        requires
            old(self).wf(),
        ensures
            r is Some <==> old(self)@.contains_key(key@),
            r is Some ==> (*r->0)@ == old(self)@[key@],
            r is Some ==> final(self).slots() == put(
                old(self).slots(),
                key@,
                (*final(r->0))@,
            ),
            r is Some ==> final(self)@ == old(self)@.insert(key@, (*final(r->0))@),
            r is None ==> final(self).slots() == old(self).slots(),
            final(self).load() == old(self).load(),
            final(self).wf(),
    {
        if self.count == 0 {
            proof {
                self.empty_when_unused(key@);
            }
            return None;
        }
        let ghost slots = self.slots();
        let ghost entries = self.entries@;
        let index = self.find(key);
        proof {
            assert(slots[index as int] == self.entries@[index as int]@);
            if contains(slots, key@) {
                to_map_reads_slot(slots, key@, index as int);
            }
        }
        proof {
            assert forall|v: ValueView| contains(slots, key@) implies slots_wf(
                #[trigger] put(slots, key@, v),
                self.load(),
            ) && to_map(put(slots, key@, v)) == to_map(slots).insert(key@, v) && put(slots, key@, v)
                == slots.update(index as int, SlotView::Occupied { key: key@, value: v }) by {
                put_is_insert(slots, key@, v, index as int);
            }
            assert forall|slot: Slot| #[trigger]
                slot_views(entries.update(index as int, slot)) == slots.update(
                    index as int,
                    slot@,
                ) by {
                assert(slot_views(entries.update(index as int, slot)) =~= slots.update(
                    index as int,
                    slot@,
                ));
            }
        }
        match &mut self.entries[index] {
            Slot::Occupied(entry) => Some(&mut entry.value),
            _ => {
                assert(slot_views(entries.update(index as int, entries[index as int])) == slots);
                None
            },
        }
    }

    /// The live keys with their values, in the order of their slots.
    pub fn iter(&self) -> (r: Vec<(&str, &Value)>)
        requires
            self.wf(),
        ensures
            pair_views(r@) == entries(self.slots()),
    {
        let mut out: Vec<(&str, &Value)> = Vec::new();
        let mut i: usize = 0;
        proof {
            assert(pair_views(out@) =~= Seq::<(Seq<char>, ValueView)>::empty());
            assert(self.slots().take(0) =~= Seq::<SlotView>::empty());
        }
        while i < self.entries.len()
            invariant
                i <= self.entries@.len(),
                self.slots().len() == self.entries@.len(),
                pair_views(out@) == entries(self.slots().take(i as int)),
            decreases self.entries@.len() - i,
        {
            proof {
                assert(self.slots().take(i + 1).drop_last() =~= self.slots().take(i as int));
                assert(self.slots().take(i + 1).last() == self.entries@[i as int]@);
            }
            let ghost before = pair_views(out@);
            match &self.entries[i] {
                Slot::Occupied(entry) => {
                    out.push((entry.key.as_str(), &entry.value));
                    proof {
                        assert(pair_views(out@) =~= before.push((entry.key@, entry.value@)));
                    }
                },
                _ => {},
            }
            i += 1;
        }
        proof {
            assert(self.slots().take(i as int) =~= self.slots());
        }
        out
    }

    /// Removes `key` and returns the value it had. The slot becomes a
    /// tombstone, which still counts towards the load.
    pub fn delete(&mut self, key: &str) -> (r: Option<Value>)
        requires
            old(self).wf(),
        ensures
            final(self).wf(),
            final(self)@ == old(self)@.remove(key@),
            match r {
                Some(value) => old(self)@.contains_key(key@) && value@ == old(self)@[key@],
                None => !old(self)@.contains_key(key@),
            },
            final(self).slots() == bury(old(self).slots(), key@),
            final(self).load() == old(self).load(),
    {
        if self.count == 0 {
            proof {
                self.empty_when_unused(key@);
                assert(self@ =~= self@.remove(key@));
            }
            return None;
        }
        let ghost slots = self.slots();
        let index = self.find(key);
        proof {
            assert(slots[index as int] == self.entries@[index as int]@);
            bury_is_remove(slots, key@, index as int);
            if contains(slots, key@) {
                to_map_reads_slot(slots, key@, index as int);
            }
        }
        let occupied = matches!(self.entries[index], Slot::Occupied(_));
        if !occupied {
            return None;
        }
        let mut slot = Slot::Tombstone;
        core::mem::swap(&mut self.entries[index], &mut slot);
        proof {
            assert(self.slots() =~= bury(slots, key@));
        }
        match slot {
            Slot::Occupied(entry) => Some(entry.value),
            _ => None,
        }
    }

    /// A table that has used no slot holds no key.
    proof fn empty_when_unused(&self, key: Seq<char>)
        requires
            self.wf(),
            self.load() == 0,
        ensures
            !self@.contains_key(key),
    {
        if contains(self.slots(), key) {
            let i = choose|i: int| holds(self.slots(), key, i);
            Self::used_counts(self.slots(), i);
        }
    }

    proof fn used_counts(slots: Seq<SlotView>, i: int)
        requires
            0 <= i < slots.len(),
            !(slots[i] is Vacant),
        ensures
            used(slots) > 0,
        decreases slots.len(),
    {
        if i < slots.len() - 1 {
            Self::used_counts(slots.drop_last(), i);
        }
    }

    /// Moves every key into a fresh array of `new_capacity` slots, in the
    /// order of the old slots. Tombstones are dropped, so the load becomes
    /// the number of keys.
    fn realloc(&mut self, new_capacity: usize)
        requires
            old(self).wf(),
            INITIAL_CAPACITY <= new_capacity <= MAX_CAPACITY,
            table_size(new_capacity as int),
            4 * live(old(self).slots()) < 3 * new_capacity,
        ensures
            final(self).wf(),
            final(self).slots() == rehash(
                old(self).slots(),
                old(self).slots().len() as int,
                new_capacity as int,
            ),
            final(self)@ == old(self)@,
            final(self).load() == live(old(self).slots()),
            final(self).slots().len() == new_capacity,
    {
        let ghost source = self.slots();
        let ghost cap = new_capacity as int;
        let mut fresh_entries: Vec<Slot> = Vec::new();
        let mut n: usize = 0;
        while n < new_capacity
            invariant
                n <= new_capacity,
                fresh_entries@.len() == n,
                forall|i: int| 0 <= i < n ==> fresh_entries@[i]@ is Vacant,
            decreases new_capacity - n,
        {
            fresh_entries.push(Slot::Vacant);
            n += 1;
        }
        let mut fresh = Table { entries: fresh_entries, count: 0 };
        let mut old_entries: Vec<Slot> = Vec::new();
        core::mem::swap(&mut self.entries, &mut old_entries);
        proof {
            assert(fresh.slots() =~= vacant_slots(cap));
            rehash_keeps_entries(source, 0, cap);
            assert(slot_views(old_entries@) == source);
        }
        let mut i: usize = 0;
        while i < old_entries.len()
            invariant
                keys_distinct(source),
                INITIAL_CAPACITY <= cap <= MAX_CAPACITY,
                table_size(cap),
                4 * live(source) < 3 * cap,
                i <= old_entries@.len() == source.len(),
                forall|j: int| i <= j < source.len() ==> old_entries@[j]@ == source[j],
                fresh.slots() == rehash(source, i as int, cap),
                fresh.wf(),
                fresh.load() == live(source.take(i as int)),
            decreases old_entries@.len() - i,
        {
            proof {
                rehash_keeps_entries(source, i as int, cap);
                rehash_keeps_entries(source, i + 1, cap);
            }
            let mut slot = Slot::Tombstone;
            core::mem::swap(&mut old_entries[i], &mut slot);
            assert(slot@ == source[i as int]);
            if let Slot::Occupied(entry) = slot {
                let ghost before = fresh.slots();
                let index = fresh.find(entry.key.as_str());
                proof {
                    put_is_insert(before, entry.key@, entry.value@, index as int);
                }
                fresh.entries[index] = Slot::Occupied(entry);
                fresh.count += 1;
                proof {
                    assert(fresh.slots() =~= put(before, entry.key@, entry.value@));
                }
            }
            i += 1;
        }
        proof {
            rehash_keeps_map(source, cap);
            rehash_keeps_entries(source, i as int, cap);
            assert(source.take(i as int) =~= source);
        }
        self.entries = fresh.entries;
        self.count = fresh.count;
    }

    /// The slot at which a search for `key` ends: see [`picks`].
    fn find(&self, key: &str) -> (index: usize)
        requires
            self.wf(),
            self.slots().len() > 0,
        ensures
            picks(self.slots(), key@, index as int),
    {
        let capacity = self.entries.len();
        let start = (hash(key.as_bytes()) as usize) % capacity;
        let mut index = start;
        let mut tombstone: Option<usize> = None;
        let ghost slots = self.slots();
        let ghost cap = capacity as int;
        let ghost mut steps: int = 0;
        let ghost vacant: int;
        proof {
            vacant_exists(slots);
            vacant = choose|i: int| 0 <= i < slots.len() && #[trigger] slots[i] is Vacant;
            assert(probe(start as int, distance(start as int, vacant, cap), cap) == vacant);
        }
        loop
            invariant
                self.wf(),
                slots == self.slots(),
                cap == slots.len() == self.entries@.len(),
                capacity == cap,
                start == home(key@, cap),
                0 <= start < cap,
                0 <= vacant < cap,
                slots[vacant] is Vacant,
                0 <= steps <= distance(start as int, vacant, cap) < cap,
                index == probe(start as int, steps, cap),
                forall|s: int| 0 <= s < steps ==> passes(#[trigger] on_path(slots, key@, s), key@),
                match tombstone {
                    Some(t) => {
                        &&& 0 <= t < cap
                        &&& slots[t as int] is Tombstone
                        &&& distance(start as int, t as int, cap) < steps
                        &&& forall|s: int|
                            0 <= s < distance(start as int, t as int, cap) ==> #[trigger] on_path(
                                slots,
                                key@,
                                s,
                            ) is Occupied
                    },
                    None => forall|s: int|
                        0 <= s < steps ==> #[trigger] on_path(slots, key@, s) is Occupied,
                },
            decreases cap - steps,
        {
            assert(slots[index as int] == self.entries@[index as int]@);
            assert(on_path(slots, key@, steps) == slots[index as int]);
            match &self.entries[index] {
                Slot::Occupied(entry) => {
                    if text_equal(entry.key.as_str(), key) {
                        proof {
                            assert(holds(slots, key@, index as int));
                        }
                        return index;
                    }
                },
                Slot::Tombstone => {
                    if tombstone.is_none() {
                        tombstone = Some(index);
                        assert(distance(start as int, index as int, cap) == steps);
                    }
                },
                Slot::Vacant => {
                    proof {
                        Self::absent_when_vacant_reached(slots, key@, steps);
                    }
                    match tombstone {
                        Some(t) => {
                            return t;
                        },
                        None => {
                            assert(distance(start as int, index as int, cap) == steps);
                            return index;
                        },
                    }
                },
            }
            proof {
                assert(steps != distance(start as int, vacant, cap)) by {
                    if steps == distance(start as int, vacant, cap) {
                        assert(index == vacant);
                    }
                }
                steps = steps + 1;
            }
            index = if index + 1 == capacity {
                0
            } else {
                index + 1
            };
        }
    }

    /// A search that meets a vacant slot before it meets `key` shows that no
    /// slot holds `key`.
    proof fn absent_when_vacant_reached(slots: Seq<SlotView>, key: Seq<char>, steps: int)
        requires
            chains_unbroken(slots),
            slots.len() > 0,
            0 <= steps < slots.len(),
            on_path(slots, key, steps) is Vacant,
            forall|s: int| 0 <= s < steps ==> passes(#[trigger] on_path(slots, key, s), key),
        ensures
            !contains(slots, key),
    {
        let cap = slots.len() as int;
        let h = home(key, cap);
        if contains(slots, key) {
            let i = choose|i: int| holds(slots, key, i);
            let d = distance(h, i, cap);
            assert(probe(h, d, cap) == i);
            if steps < d {
                assert(!(on_path(slots, slots[i]->key, steps) is Vacant));
            } else if d < steps {
                assert(passes(on_path(slots, key, d), key));
            }
        }
    }
}

} // verus!
