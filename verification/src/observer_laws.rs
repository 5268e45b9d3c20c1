//! What the map observer counts, resets and ignores.
use vstd::laws_eq::obeys_concrete_eq;
use vstd::prelude::*;
use vstd::std_specs::cmp::PartialEqSpec;
use crate::observer::{
    cleared, indexed_set_count, is_set, set_count, used, with_ignored, ObserverModel,
};

verus! {

/// The positions of those entries that are not equal to the initial value.
pub open spec fn set_positions<T: PartialEq>(entries: Seq<T>, initial: T) -> Set<int> {
    Set::new(|i: int| 0 <= i < entries.len() && !entries[i].eq_spec(&initial))
}

/// The positions of those indexes that are in range, and whose entries are not equal to the initial
/// value.
pub open spec fn hit_positions<T: PartialEq>(
    entries: Seq<T>,
    initial: T,
    indexes: Seq<usize>,
) -> Set<int> {
    Set::new(
        |k: int|
            0 <= k < indexes.len() && indexes[k] < entries.len() && !entries[indexes[k] as int].eq_spec(
                &initial,
            ),
    )
}

/// The count of set entries is the number of positions at which the entry is not equal to the initial
/// value.
pub proof fn law_set_entries_are_counted<T: PartialEq>(entries: Seq<T>, initial: T)
    ensures
        set_positions(entries, initial).finite(),
        set_count(entries, initial) == set_positions(entries, initial).len(),
    decreases entries.len(),
{
    let all = set_positions(entries, initial);
    if entries.len() == 0 {
        assert(all =~= Set::<int>::empty());
    } else {
        let front = entries.drop_last();
        let last = entries.len() - 1;
        law_set_entries_are_counted(front, initial);
        if entries[last].eq_spec(&initial) {
            assert(all =~= set_positions(front, initial));
        } else {
            assert(all =~= set_positions(front, initial).insert(last));
        }
    }
}

/// The count for given indexes is the number of those that are in range and whose entry is not equal
/// to the initial value.
pub proof fn law_hit_indexes_are_counted<T: PartialEq>(
    entries: Seq<T>,
    initial: T,
    indexes: Seq<usize>,
)
    ensures
        hit_positions(entries, initial, indexes).finite(),
        indexed_set_count(entries, initial, indexes) == hit_positions(
            entries,
            initial,
            indexes,
        ).len(),
    decreases indexes.len(),
{
    let all = hit_positions(entries, initial, indexes);
    if indexes.len() == 0 {
        assert(all =~= Set::<int>::empty());
    } else {
        let front = indexes.drop_last();
        let last = indexes.len() - 1;
        law_hit_indexes_are_counted(entries, initial, front);
        if indexes[last] < entries.len() && !entries[indexes[last] as int].eq_spec(&initial) {
            assert(all =~= hit_positions(entries, initial, front).insert(last));
        } else {
            assert(all =~= hit_positions(entries, initial, front));
        }
    }
}

/// If every entry is set, the count is their number.
pub proof fn law_all_set_entries_are_counted<T: PartialEq>(entries: Seq<T>, initial: T)
    requires
        forall|i: int| 0 <= i < entries.len() ==> !(#[trigger] entries[i]).eq_spec(&initial),
    ensures
        set_count(entries, initial) == entries.len(),
    decreases entries.len(),
{
    if entries.len() > 0 {
        law_all_set_entries_are_counted(entries.drop_last(), initial);
        assert(!entries[entries.len() - 1].eq_spec(&initial));
    }
}

/// Setting one entry that was not set makes the count one greater, and unsetting one that was set
/// makes it one smaller. Changing an entry otherwise does not change the count.
pub proof fn law_count_follows_changes<T: PartialEq>(
    entries: Seq<T>,
    initial: T,
    i: int,
    value: T,
)
    requires
        0 <= i < entries.len(),
    ensures
        ({
            let before = set_count(entries, initial);
            let after = set_count(entries.update(i, value), initial);
            &&& entries[i].eq_spec(&initial) && !value.eq_spec(&initial) ==> after == before + 1
            &&& !entries[i].eq_spec(&initial) && value.eq_spec(&initial) ==> after == before - 1
            &&& entries[i].eq_spec(&initial) == value.eq_spec(&initial) ==> after == before
        }),
{
    let updated = entries.update(i, value);
    law_set_entries_are_counted(entries, initial);
    law_set_entries_are_counted(updated, initial);
    let a = set_positions(entries, initial);
    let b = set_positions(updated, initial);
    if value.eq_spec(&initial) {
        assert(b =~= a.remove(i));
    } else {
        assert(b =~= a.insert(i));
    }
}

/// An entry is set exactly if it is not equal to the initial value.
pub proof fn law_set_means_not_initial<T: PartialEq>(entry: T, initial: T)
    ensures
        is_set(entry, initial) == !entry.eq_spec(&initial),
        obeys_concrete_eq::<T>() ==> is_set(entry, initial) == (entry != initial),
{
    reveal(obeys_concrete_eq);
}

/// An observer uses as many entries as its size says, except for a copy that is only local, which
/// uses none.
pub proof fn law_used_entries<T>(o: ObserverModel<T>)
    ensures
        !o.owned ==> used(o) == o.size,
        !o.zero_after_deser ==> used(o) == o.size,
        o.owned && o.zero_after_deser ==> used(o) == 0,
{
}

/// Resetting sets the entries in use to the initial value, and leaves all others alone. Resetting
/// again changes nothing more.
pub proof fn law_cleared_map<T>(map: Seq<T>, n: nat, initial: T)
    ensures
        cleared(map, n, initial).len() == map.len(),
        forall|i: int|
            0 <= i < n && i < map.len() ==> #[trigger] cleared(map, n, initial)[i] == initial,
        forall|i: int| n <= i < map.len() ==> #[trigger] cleared(map, n, initial)[i] == map[i],
        cleared(cleared(map, n, initial), n, initial) == cleared(map, n, initial),
{
    assert(cleared(cleared(map, n, initial), n, initial) =~= cleared(map, n, initial));
}

/// Ignoring one index adds it at the end, unless it is ignored already, and ignoring some and then
/// others is ignoring all of them in that order.
pub proof fn law_ignoring_in_turn(ign: Seq<usize>, a: Seq<usize>, b: Seq<usize>, idx: usize)
    ensures
        with_ignored(ign, Seq::empty()) == ign,
        with_ignored(ign, seq![idx]) == if ign.contains(idx) {
            ign
        } else {
            ign.push(idx)
        },
        with_ignored(with_ignored(ign, a), b) == with_ignored(ign, a + b),
    decreases b.len(),
{
    assert(seq![idx].drop_last() =~= Seq::<usize>::empty());
    reveal_with_fuel(with_ignored, 2);
    if b.len() == 0 {
        assert(a + b =~= a);
    } else {
        law_ignoring_in_turn(ign, a, b.drop_last(), idx);
        assert((a + b).drop_last() =~= a + b.drop_last());
    }
}

} // verus!
