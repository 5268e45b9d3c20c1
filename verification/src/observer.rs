//! A map observer with a shrinkable size.
//!
//! The observer looks over a map of which only a part, the first `size` entries, is in use.
use vstd::prelude::*;
use vstd::laws_eq::obeys_concrete_eq;
use vstd::std_specs::cmp::PartialEqSpec;
use crate::mutator::Error;

verus! {

/// The memory of a map.
#[derive(Debug)]
pub enum MapSlice<'a, T> {
    /// Memory that the target writes to as well.
    Borrowed(&'a mut [T]),
    /// A copy, such as one that was received from a remote fuzzing instance.
    Owned(Vec<T>),
}

impl<'a, T> View for MapSlice<'a, T> {
    type V = Seq<T>;

    open spec fn view(&self) -> Seq<T> {
        match self {
            MapSlice::Borrowed(slice) => slice@,
            MapSlice::Owned(vec) => vec@,
        }
    }
}

impl<'a, T> MapSlice<'a, T> {
    /// Whether the memory is a copy.
    pub fn is_owned(&self) -> (owned: bool)
        ensures
            owned == (self is Owned),
    {
        match self {
            MapSlice::Borrowed(_) => false,
            MapSlice::Owned(_) => true,
        }
    }

    /// The whole memory.
    pub fn as_slice(&self) -> (slice: &[T])
        ensures
            slice@ == self@,
    {
        match self {
            MapSlice::Borrowed(slice) => slice,
            MapSlice::Owned(vec) => vec.as_slice(),
        }
    }

    /// The whole memory, for writing. What is written to borrowed memory stays there.
    pub fn as_slice_mut(&mut self) -> (slice: &mut [T])
        ensures
            slice@ == old(self)@,
            final(self)@ == final(slice)@,
            (*final(self) is Owned) == (*old(self) is Owned),
            *old(self) matches MapSlice::Borrowed(before) ==> (
            *final(self) matches MapSlice::Borrowed(after) && final(after)@ == final(before)@),
    {
        match self {
            MapSlice::Borrowed(slice) => slice,
            MapSlice::Owned(vec) => vec.as_mut_slice(),
        }
    }
}

/// The number of entries in use.
#[derive(Debug)]
pub enum MapSize<'a> {
    /// Memory that the target writes to as well.
    Borrowed(&'a mut usize),
    /// A copy, such as one that was received from a remote fuzzing instance.
    Owned(usize),
}

impl<'a> View for MapSize<'a> {
    type V = usize;

    open spec fn view(&self) -> usize {
        match self {
            MapSize::Borrowed(size) => **size,
            MapSize::Owned(size) => *size,
        }
    }
}

impl<'a> MapSize<'a> {
    /// The number of entries.
    pub fn get(&self) -> (size: &usize)
        ensures
            *size == self@,
    {
        match self {
            MapSize::Borrowed(size) => size,
            MapSize::Owned(size) => size,
        }
    }

    /// The number of entries, for writing.
    pub fn get_mut(&mut self) -> (size: &mut usize)
        ensures
            *size == old(self)@,
            final(self)@ == *final(size),
            (*final(self) is Owned) == (*old(self) is Owned),
            *old(self) matches MapSize::Borrowed(before) ==> (
            *final(self) matches MapSize::Borrowed(after) && *final(after) == *final(before)),
    {
        match self {
            MapSize::Borrowed(size) => size,
            MapSize::Owned(size) => size,
        }
    }
}

/// Overlooking a variable bitmap.
#[derive(Debug)]
pub struct VariableMapObserver<'a, T> {
    map: MapSlice<'a, T>,
    size: MapSize<'a>,
    initial: T,
    name: String,
    ign: Vec<usize>,
    /// Fixes the size at 0 after the map has been received from a remote fuzzing instance.
    /// E.g. in heterogenous fuzzers where you want to use the map in one fuzzer but not the others.
    pub zero_after_deser: bool,
}

/// What a [`VariableMapObserver`] holds.
pub struct ObserverModel<T> {
    /// All entries of the map.
    pub map: Seq<T>,
    /// Whether the map is a copy.
    pub owned: bool,
    /// How many entries are in use.
    pub size: usize,
    /// The value of an entry that is not set.
    pub initial: T,
    pub name: Seq<char>,
    /// The indices of the entries to ignore.
    pub ign: Seq<usize>,
    pub zero_after_deser: bool,
}

impl<'a, T> View for VariableMapObserver<'a, T> {
    type V = ObserverModel<T>;

    closed spec fn view(&self) -> ObserverModel<T> {
        ObserverModel {
            map: self.map@,
            owned: self.map is Owned,
            size: self.size@,
            initial: self.initial,
            name: self.name@,
            ign: self.ign@,
            zero_after_deser: self.zero_after_deser,
        }
    }
}

impl<'a, T> VariableMapObserver<'a, T> {
    /// The memory of the map.
    pub closed spec fn memory(&self) -> MapSlice<'a, T> {
        self.map
    }

    /// Where the number of entries in use is kept.
    pub closed spec fn size_memory(&self) -> MapSize<'a> {
        self.size
    }
}

/// How many entries an observer uses: none if it is only local, and its map is a copy.
pub open spec fn used<T>(o: ObserverModel<T>) -> usize {
    if o.zero_after_deser && o.owned {
        0
    } else {
        o.size
    }
}

/// Whether an entry is set, that is, not equal to the initial value.
pub open spec fn is_set<T: PartialEq>(entry: T, initial: T) -> bool {
    !entry.eq_spec(&initial)
}

/// How many of the `entries` are set.
pub open spec fn set_count<T: PartialEq>(entries: Seq<T>, initial: T) -> nat
    decreases entries.len(),
{
    if entries.len() == 0 {
        0
    } else {
        set_count(entries.drop_last(), initial) + if is_set(entries.last(), initial) {
            1nat
        } else {
            0nat
        }
    }
}

/// How many of the `indexes` are those of entries that are set. An index that occurs twice counts
/// twice, and one that is out of range does not count.
pub open spec fn indexed_set_count<T: PartialEq>(
    entries: Seq<T>,
    initial: T,
    indexes: Seq<usize>,
) -> nat
    decreases indexes.len(),
{
    if indexes.len() == 0 {
        0
    } else {
        let i = indexes.last();
        indexed_set_count(entries, initial, indexes.drop_last()) + if i < entries.len() && is_set(
            entries[i as int],
            initial,
        ) {
            1nat
        } else {
            0nat
        }
    }
}

/// `ign` with those of the `indices` that are not in it yet, in order and without repetition.
pub open spec fn with_ignored(ign: Seq<usize>, indices: Seq<usize>) -> Seq<usize>
    decreases indices.len(),
{
    if indices.len() == 0 {
        ign
    } else {
        let before = with_ignored(ign, indices.drop_last());
        if before.contains(indices.last()) {
            before
        } else {
            before.push(indices.last())
        }
    }
}

/// The map with the first `n` entries set to the initial value.
pub open spec fn cleared<T>(map: Seq<T>, n: nat, initial: T) -> Seq<T> {
    Seq::new(
        map.len(),
        |i: int|
            if i < n {
                initial
            } else {
                map[i]
            },
    )
}

/// Whether `ign` contains `idx`.
fn contains(ign: &Vec<usize>, idx: usize) -> (found: bool)
    ensures
        found == ign@.contains(idx),
{
    let mut i: usize = 0;
    while i < ign.len()
        invariant
            i <= ign@.len(),
            forall|j: int| 0 <= j < i ==> ign@[j] != idx,
        decreases ign@.len() - i,
    {
        if ign[i] == idx {
            return true;
        }
        i += 1;
    }
    false
}

impl<'a, T: Default> VariableMapObserver<'a, T> {
    /// Creates a new observer of the given memory.
    pub fn from_mut_slice(name: &str, map_slice: MapSlice<'a, T>, size: &'a mut usize) -> (observer:
        Self)
        ensures
            observer.memory() == map_slice,
            observer.size_memory() matches MapSize::Borrowed(entries) && *final(entries) == *final(size),
            observer@ == (ObserverModel {
                map: map_slice@,
                owned: map_slice is Owned,
                size: *old(size),
                initial: observer@.initial,
                name: name@,
                ign: Seq::empty(),
                zero_after_deser: false,
            }),
            call_ensures(T::default, (), observer@.initial),
    {
        VariableMapObserver {
            name: name.to_owned(),
            map: map_slice,
            size: MapSize::Borrowed(size),
            initial: T::default(),
            ign: Vec::new(),
            zero_after_deser: false,
        }
    }

    /// Like [`Self::from_mut_slice`], but a copy of the map that is received by another fuzzing
    /// instance has no entries in use.
    pub fn from_mut_slice_only_local(
        name: &str,
        map_slice: MapSlice<'a, T>,
        size: &'a mut usize,
    ) -> (observer: Self)
        ensures
            observer.memory() == map_slice,
            observer.size_memory() matches MapSize::Borrowed(entries) && *final(entries) == *final(size),
            observer@ == (ObserverModel {
                map: map_slice@,
                owned: map_slice is Owned,
                size: *old(size),
                initial: observer@.initial,
                name: name@,
                ign: Seq::empty(),
                zero_after_deser: true,
            }),
            call_ensures(T::default, (), observer@.initial),
    {
        VariableMapObserver {
            name: name.to_owned(),
            map: map_slice,
            size: MapSize::Borrowed(size),
            initial: T::default(),
            ign: Vec::new(),
            zero_after_deser: true,
        }
    }

    /// Creates a new observer of the first `max_len` entries of the given memory.
    pub fn from_mut_ptr(
        name: &str,
        map: &'a mut [T],
        max_len: usize,
        size: &'a mut usize,
    ) -> (observer: Self)
        requires
            max_len <= old(map)@.len(),
        ensures
            observer.memory() matches MapSlice::Borrowed(slice) && final(map)@ == final(slice)@ + old(map)@.skip(max_len as int),
            observer.size_memory() matches MapSize::Borrowed(entries) && *final(entries) == *final(size),
            observer@ == (ObserverModel {
                map: old(map)@.take(max_len as int),
                owned: false,
                size: *old(size),
                initial: observer@.initial,
                name: name@,
                ign: Seq::empty(),
                zero_after_deser: false,
            }),
            call_ensures(T::default, (), observer@.initial),
    {
        let ghost before = map@;
        let (front, _) = map.split_at_mut(max_len);
        assert(front@ =~= before.take(max_len as int));
        Self::from_mut_slice(name, MapSlice::Borrowed(front), size)
    }

    /// Like [`Self::from_mut_ptr`], but a copy of the map that is received by another fuzzing
    /// instance has no entries in use.
    pub fn from_mut_ptr_only_local(
        name: &str,
        map: &'a mut [T],
        max_len: usize,
        size: &'a mut usize,
    ) -> (observer: Self)
        requires
            max_len <= old(map)@.len(),
        ensures
            observer.memory() matches MapSlice::Borrowed(slice) && final(map)@ == final(slice)@ + old(map)@.skip(max_len as int),
            observer.size_memory() matches MapSize::Borrowed(entries) && *final(entries) == *final(size),
            observer@ == (ObserverModel {
                map: old(map)@.take(max_len as int),
                owned: false,
                size: *old(size),
                initial: observer@.initial,
                name: name@,
                ign: Seq::empty(),
                zero_after_deser: true,
            }),
            call_ensures(T::default, (), observer@.initial),
    {
        let ghost before = map@;
        let (front, _) = map.split_at_mut(max_len);
        assert(front@ =~= before.take(max_len as int));
        Self::from_mut_slice_only_local(name, MapSlice::Borrowed(front), size)
    }
}

impl<'a, T> VariableMapObserver<'a, T> {
    /// The observer that another fuzzing instance makes of what it received: the map and the size
    /// are copies.
    pub fn received(
        map: Vec<T>,
        size: usize,
        initial: T,
        name: String,
        ign: Vec<usize>,
        zero_after_deser: bool,
    ) -> (observer: Self)
        ensures
            observer@ == (ObserverModel {
                map: map@,
                owned: true,
                size,
                initial,
                name: name@,
                ign: ign@,
                zero_after_deser,
            }),
    {
        VariableMapObserver {
            map: MapSlice::Owned(map),
            size: MapSize::Owned(size),
            initial,
            name,
            ign,
            zero_after_deser,
        }
    }

    /// The number of entries in use: 0 if this was received from a remote fuzzing instance, and is
    /// only to be used locally.
    pub fn len_internal(&self) -> (len: usize)
        ensures
            len == used(self@),
    {
        if self.zero_after_deser && self.map.is_owned() {
            0
        } else {
            *self.size.get()
        }
    }

    /// The number of entries in use.
    pub fn len(&self) -> (len: usize)
        ensures
            len == used(self@),
    {
        self.len_internal()
    }

    /// The number of entries in use.
    pub fn usable_count(&self) -> (count: usize)
        ensures
            count == used(self@),
    {
        self.len_internal()
    }

    /// The name of the observer.
    pub fn name(&self) -> (name: &String)
        ensures
            name@ == self@.name,
    {
        &self.name
    }

    /// The observer itself.
    pub fn as_ref(&self) -> (observer: &Self)
        ensures
            *observer == *self,
    {
        self
    }

    /// The observer itself, for writing.
    pub fn as_mut(&mut self) -> (observer: &mut Self)
        ensures
            *observer == *old(self),
            *final(self) == *final(observer),
    {
        self
    }

    /// The entries in use.
    pub fn as_slice(&self) -> (entries: &[T])
        requires
            used(self@) <= self@.map.len(),
        ensures
            entries@ == self@.map.take(used(self@) as int),
    {
        vstd::slice::slice_subrange(self.map.as_slice(), 0, self.len_internal())
    }

    /// The entries in use, for writing.
    pub fn as_slice_mut(&mut self) -> (entries: &mut [T])
        requires
            used(old(self)@) <= old(self)@.map.len(),
        ensures
            entries@ == old(self)@.map.take(used(old(self)@) as int),
            final(self)@ == (ObserverModel {
                map: final(entries)@ + old(self)@.map.skip(used(old(self)@) as int),
                ..old(self)@
            }),
            old(self).memory() matches MapSlice::Borrowed(before) ==> (
            final(self).memory() matches MapSlice::Borrowed(after) && final(after)@ == final(before)@),
            final(self).size_memory() == old(self).size_memory(),
    {
        let cnt: usize = self.len_internal();
        let ghost map = self.map@;
        let (entries, _) = self.map.as_slice_mut().split_at_mut(cnt);
        assert(entries@ =~= map.take(cnt as int));
        entries
    }

    /// All entries of the map, whether they are in use or not.
    pub fn map_slice(&self) -> (entries: &[T])
        ensures
            entries@ == self@.map,
    {
        self.map.as_slice()
    }

    /// All entries of the map, whether they are in use or not, for writing.
    pub fn map_slice_mut(&mut self) -> (entries: &mut [T])
        ensures
            entries@ == old(self)@.map,
            final(self)@ == (ObserverModel { map: final(entries)@, ..old(self)@ }),
            old(self).memory() matches MapSlice::Borrowed(before) ==> (
            final(self).memory() matches MapSlice::Borrowed(after) && final(after)@ == final(before)@),
            final(self).size_memory() == old(self).size_memory(),
    {
        self.map.as_slice_mut()
    }

    /// The size of the map, even if its entries are not to be used.
    pub fn size(&self) -> (size: &usize)
        ensures
            *size == self@.size,
    {
        self.size.get()
    }

    /// The size of the map, for writing.
    pub fn size_mut(&mut self) -> (size: &mut usize)
        ensures
            *size == old(self)@.size,
            final(self)@ == (ObserverModel { size: *final(size), ..old(self)@ }),
            old(self).size_memory() matches MapSize::Borrowed(before) ==> (
            final(self).size_memory() matches MapSize::Borrowed(after) && *final(after) == *final(before)),
            final(self).memory() == old(self).memory(),
    {
        self.size.get_mut()
    }

    /// The indices of the entries to ignore.
    ///
    /// The observer only keeps this list. It is the fuzzing engine that processes it after each
    /// execution of the target, in a way of its own, so there is no `post_exec` here.
    pub fn ignored(&self) -> (indices: &[usize])
        ensures
            indices@ == self@.ign,
    {
        self.ign.as_slice()
    }

    /// Adds indices of entries to ignore. Those that are ignored already are not added again.
    pub fn ignore(&mut self, indices: &[usize])
        ensures
            final(self)@ == (ObserverModel {
                ign: with_ignored(old(self)@.ign, indices@),
                ..old(self)@
            }),
            final(self).memory() == old(self).memory(),
            final(self).size_memory() == old(self).size_memory(),
    {
        let mut i: usize = 0;
        assert(indices@.take(0) =~= Seq::empty());
        while i < indices.len()
            invariant
                i <= indices@.len(),
                self@ == (ObserverModel {
                    ign: with_ignored(old(self)@.ign, indices@.take(i as int)),
                    ..old(self)@
                }),
                self.memory() == old(self).memory(),
                self.size_memory() == old(self).size_memory(),
            decreases indices@.len() - i,
        {
            proof {
                assert(indices@.take(i + 1).drop_last() =~= indices@.take(i as int));
                assert(indices@.take(i + 1).last() == indices@[i as int]);
            }
            if !contains(&self.ign, indices[i]) {
                self.ign.push(indices[i]);
            }
            i += 1;
        }
        assert(indices@.take(i as int) =~= indices@);
    }

    /// Whether the entry with this index is ignored.
    pub fn is_ignored(&self, idx: &usize) -> (ignored: bool)
        ensures
            ignored == self@.ign.contains(*idx),
    {
        contains(&self.ign, *idx)
    }
}

impl<'a, T: PartialEq + Copy> VariableMapObserver<'a, T> {
    /// The value of an entry that is not set.
    pub fn initial(&self) -> (initial: T)
        ensures
            initial == self@.initial,
    {
        self.initial
    }

    /// The entry with this index.
    pub fn get(&self, idx: usize) -> (entry: T)
        requires
            idx < self@.map.len(),
        ensures
            entry == self@.map[idx as int],
    {
        self.map.as_slice()[idx]
    }

    /// Changes the entry with this index.
    pub fn set(&mut self, idx: usize, val: T)
        requires
            idx < old(self)@.map.len(),
        ensures
            final(self)@ == (ObserverModel {
                map: old(self)@.map.update(idx as int, val),
                ..old(self)@
            }),
            old(self).memory() matches MapSlice::Borrowed(before) ==> (
            final(self).memory() matches MapSlice::Borrowed(after) && final(after)@ == final(before)@),
            final(self).size_memory() == old(self).size_memory(),
    {
        let entries: &mut [T] = self.map.as_slice_mut();
        entries[idx] = val;
    }

    /// Counts the set entries in the map.
    pub fn count_bytes(&self) -> (count: u64)
        requires
            used(self@) <= self@.map.len(),
        ensures
            T::obeys_eq_spec() ==> count == set_count(
                self@.map.take(used(self@) as int),
                self@.initial,
            ),
            count <= used(self@),
    {
        let initial: T = self.initial();
        let entries: &[T] = self.as_slice();
        let mut res: u64 = 0;
        let mut i: usize = 0;
        while i < entries.len()
            invariant
                i <= entries@.len(),
                res <= i,
                T::obeys_eq_spec() ==> res == set_count(entries@.take(i as int), initial),
            decreases entries@.len() - i,
        {
            proof {
                assert(entries@.take(i + 1).drop_last() =~= entries@.take(i as int));
                assert(entries@.take(i + 1).last() == entries@[i as int]);
            }
            if entries[i] != initial {
                res += 1;
            }
            i += 1;
        }
        assert(entries@.take(i as int) =~= entries@);
        res
    }

    /// Resets the entries in use.
    pub fn reset_map(&mut self) -> (result: Result<(), Error>)
        requires
            used(old(self)@) <= old(self)@.map.len(),
        ensures
            result is Ok,
            final(self)@ == (ObserverModel {
                map: cleared(old(self)@.map, used(old(self)@) as nat, old(self)@.initial),
                ..old(self)@
            }),
            old(self)@.initial.eq_spec(&old(self)@.initial) ==> set_count(
                final(self)@.map.take(used(final(self)@) as int),
                old(self)@.initial,
            ) == 0,
            old(self).memory() matches MapSlice::Borrowed(before) ==> (
            final(self).memory() matches MapSlice::Borrowed(after) && final(after)@ == final(before)@),
            final(self).size_memory() == old(self).size_memory(),
    {
        let initial: T = self.initial();
        let cnt: usize = self.usable_count();
        let ghost map = self@.map;
        let entries: &mut [T] = self.as_slice_mut();
        let mut i: usize = 0;
        while i < cnt
            invariant
                i <= cnt,
                entries@.len() == cnt,
                forall|j: int| 0 <= j < i ==> entries@[j] == initial,
            decreases cnt - i,
        {
            entries[i] = initial;
            i += 1;
        }
        proof {
            assert(entries@ + map.skip(cnt as int) =~= cleared(map, cnt as nat, initial));
            law_reset_map_is_empty(old(self)@);
        }
        Ok(())
    }

    /// Prepares the map for the next execution of the target.
    pub fn pre_exec(&mut self) -> (result: Result<(), Error>)
        requires
            used(old(self)@) <= old(self)@.map.len(),
        ensures
            result is Ok,
            final(self)@ == (ObserverModel {
                map: cleared(old(self)@.map, used(old(self)@) as nat, old(self)@.initial),
                ..old(self)@
            }),
            old(self)@.initial.eq_spec(&old(self)@.initial) ==> set_count(
                final(self)@.map.take(used(final(self)@) as int),
                old(self)@.initial,
            ) == 0,
            old(self).memory() matches MapSlice::Borrowed(before) ==> (
            final(self).memory() matches MapSlice::Borrowed(after) && final(after)@ == final(before)@),
            final(self).size_memory() == old(self).size_memory(),
    {
        self.reset_map()
    }

    /// A copy of the entries in use.
    pub fn to_vec(&self) -> (entries: Vec<T>)
        requires
            used(self@) <= self@.map.len(),
        ensures
            entries@ == self@.map.take(used(self@) as int),
    {
        vstd::slice::slice_to_vec(self.as_slice())
    }

    /// Counts those of the `indexes` whose entries are in use and set.
    pub fn how_many_set(&self, indexes: &[usize]) -> (count: usize)
        requires
            used(self@) <= self@.map.len(),
        ensures
            T::obeys_eq_spec() ==> count == indexed_set_count(
                self@.map.take(used(self@) as int),
                self@.initial,
                indexes@,
            ),
            count <= indexes@.len(),
    {
        let initial: T = self.initial();
        let entries: &[T] = self.as_slice();
        let mut res: usize = 0;
        let mut k: usize = 0;
        while k < indexes.len()
            invariant
                k <= indexes@.len(),
                res <= k,
                T::obeys_eq_spec() ==> res == indexed_set_count(
                    entries@,
                    initial,
                    indexes@.take(k as int),
                ),
            decreases indexes@.len() - k,
        {
            proof {
                assert(indexes@.take(k + 1).drop_last() =~= indexes@.take(k as int));
                assert(indexes@.take(k + 1).last() == indexes@[k as int]);
            }
            let i: usize = indexes[k];
            if i < entries.len() && entries[i] != initial {
                res += 1;
            }
            k += 1;
        }
        assert(indexes@.take(k as int) =~= indexes@);
        res
    }
}

/// When an observer is no longer used, the memory that it borrowed holds what it held last.
pub proof fn law_writes_reach_borrowed_memory<'a, T>(o: VariableMapObserver<'a, T>)
    requires
        has_resolved(o),
    ensures
        o.memory() matches MapSlice::Borrowed(slice) ==> final(slice)@ == o@.map,
        o.size_memory() matches MapSize::Borrowed(size) ==> *final(size) == o@.size,
{
}

/// No entry is counted exactly when each of them is the initial value.
pub proof fn law_nothing_is_counted<T: PartialEq>(entries: Seq<T>, initial: T)
    ensures
        set_count(entries, initial) <= entries.len(),
        set_count(entries, initial) == 0 <==> (forall|i: int|
            0 <= i < entries.len() ==> !is_set(#[trigger] entries[i], initial)),
        obeys_concrete_eq::<T>() ==> (set_count(entries, initial) == 0 <==> (forall|i: int|
            0 <= i < entries.len() ==> #[trigger] entries[i] == initial)),
    decreases entries.len(),
{
    reveal(obeys_concrete_eq);
    if entries.len() > 0 {
        let front = entries.drop_last();
        law_nothing_is_counted(front, initial);
        assert(forall|i: int| 0 <= i < front.len() ==> front[i] == #[trigger] entries[i]);
        assert(entries[entries.len() - 1] == entries.last());
    }
}

/// The indices of `n` entries, in order.
pub open spec fn indices_below(n: usize) -> Seq<usize> {
    Seq::new(n as nat, |i: int| i as usize)
}

/// Counting the set entries is counting those of all indices in use.
pub proof fn law_counts_agree<T: PartialEq>(o: ObserverModel<T>)
    requires
        used(o) <= o.map.len(),
    ensures
        set_count(o.map.take(used(o) as int), o.initial) == indexed_set_count(
            o.map.take(used(o) as int),
            o.initial,
            indices_below(used(o)),
        ),
{
    let entries = o.map.take(used(o) as int);
    lemma_counts_agree(entries, o.initial, used(o));
    assert(entries.take(used(o) as int) =~= entries);
}

proof fn lemma_counts_agree<T: PartialEq>(entries: Seq<T>, initial: T, n: usize)
    requires
        n <= entries.len(),
    ensures
        set_count(entries.take(n as int), initial) == indexed_set_count(
            entries,
            initial,
            indices_below(n),
        ),
    decreases n,
{
    if n > 0 {
        let m = (n - 1) as usize;
        lemma_counts_agree(entries, initial, m);
        assert(entries.take(n as int).drop_last() =~= entries.take(m as int));
        assert(indices_below(n).drop_last() =~= indices_below(m));
    }
}

/// After the map has been reset, none of its entries is set: so it is wherever the initial value is
/// equal to itself, and so for every type whose values are equal only if they are the same.
pub proof fn law_reset_map_is_empty<T: PartialEq>(o: ObserverModel<T>)
    requires
        used(o) <= o.map.len(),
    ensures
        o.initial.eq_spec(&o.initial) || obeys_concrete_eq::<T>() ==> set_count(
            cleared(o.map, used(o) as nat, o.initial).take(used(o) as int),
            o.initial,
        ) == 0,
{
    reveal(obeys_concrete_eq);
    law_nothing_is_counted(
        cleared(o.map, used(o) as nat, o.initial).take(used(o) as int),
        o.initial,
    );
}

/// A copy of the map of an observer that is only local has no entry in use and none that is set,
/// whatever the map holds, and resetting it changes nothing.
pub proof fn law_received_local_map_is_unused<T: PartialEq>(
    o: ObserverModel<T>,
    indexes: Seq<usize>,
)
    requires
        o.zero_after_deser,
        o.owned,
    ensures
        used(o) == 0,
        set_count(o.map.take(used(o) as int), o.initial) == 0,
        indexed_set_count(o.map.take(used(o) as int), o.initial, indexes) == 0,
        cleared(o.map, used(o) as nat, o.initial) == o.map,
    decreases indexes.len(),
{
    assert(cleared(o.map, used(o) as nat, o.initial) =~= o.map);
    if indexes.len() > 0 {
        law_received_local_map_is_unused(o, indexes.drop_last());
    }
}

/// Ignoring indices keeps those that were ignored, adds exactly the given ones, and never lists one
/// twice.
pub proof fn law_ignored_indices(ign: Seq<usize>, indices: Seq<usize>)
    ensures
        forall|i: usize| #[trigger]
            with_ignored(ign, indices).contains(i) <==> ign.contains(i) || indices.contains(i),
        ign.no_duplicates() ==> with_ignored(ign, indices).no_duplicates(),
        ign.is_prefix_of(with_ignored(ign, indices)),
    decreases indices.len(),
{
    if indices.len() > 0 {
        let front = indices.drop_last();
        let last = indices.last();
        law_ignored_indices(ign, front);
        let before = with_ignored(ign, front);
        let after = with_ignored(ign, indices);
        assert forall|i: usize| #[trigger] after.contains(i) <==> ign.contains(i)
            || indices.contains(i) by {
            if indices.contains(i) && i != last {
                let k = choose|k: int| 0 <= k < indices.len() && indices[k] == i;
                assert(front[k] == i);
            }
            if front.contains(i) {
                let k = choose|k: int| 0 <= k < front.len() && front[k] == i;
                assert(indices[k] == i);
            }
            assert(indices[indices.len() - 1] == last);
            if !before.contains(last) {
                assert(after == before.push(last));
                assert(after[after.len() - 1] == last);
                if before.contains(i) {
                    let k = choose|k: int| 0 <= k < before.len() && before[k] == i;
                    assert(after[k] == i);
                }
                if after.contains(i) && i != last {
                    let k = choose|k: int| 0 <= k < after.len() && after[k] == i;
                    assert(before[k] == i);
                }
            }
        }
    } else {
        assert(with_ignored(ign, indices) == ign);
    }
}

} // verus!
