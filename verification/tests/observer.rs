//! The map observer.
use external_mutator::observer::{MapSlice, VariableMapObserver};

#[test]
fn only_the_used_entries_count() {
    let mut map = [0_u8, 3, 0, 9, 9, 9];
    let mut size = 4;
    let observer = VariableMapObserver::from_mut_ptr("map", &mut map, 5, &mut size);
    assert_eq!(observer.name(), "map");
    assert_eq!(observer.initial(), 0);
    assert_eq!(observer.len(), 4);
    assert_eq!(observer.len_internal(), 4);
    assert_eq!(observer.usable_count(), 4);
    assert_eq!(*observer.size(), 4);
    assert_eq!(observer.as_slice(), [0, 3, 0, 9]);
    assert_eq!(observer.to_vec(), vec![0, 3, 0, 9]);
    assert_eq!(observer.map_slice(), [0, 3, 0, 9, 9]);
    assert_eq!(observer.count_bytes(), 2);
    assert_eq!(observer.get(4), 9);
    // Indices out of range do not count, and repeated ones count each time.
    assert_eq!(observer.how_many_set(&[0, 1, 1, 3, 4, 100]), 3);
    assert_eq!(observer.how_many_set(&[]), 0);
    // Counting the set entries is counting those of all indices in use.
    assert_eq!(observer.how_many_set(&[0, 1, 2, 3]), 2);
    assert!(!observer.zero_after_deser);
    assert_eq!(observer.as_ref().len(), 4);
}

#[test]
fn writes_reach_the_borrowed_memory() {
    let mut map = [7_u16; 4];
    let mut size = 2;
    {
        let mut observer =
            VariableMapObserver::from_mut_slice("map", MapSlice::Borrowed(&mut map), &mut size);
        assert!(observer.reset_map().is_ok());
        assert_eq!(observer.count_bytes(), 0);
        assert_eq!(observer.map_slice(), [0, 0, 7, 7]);
        observer.set(3, 5);
        observer.as_slice_mut()[1] = 6;
        observer.map_slice_mut()[2] = 8;
        *observer.as_mut().size_mut() = 3;
        assert_eq!(observer.as_slice(), [0, 6, 8]);
    }
    assert_eq!(map, [0, 6, 8, 5]);
    assert_eq!(size, 3);
}

#[test]
fn received_local_maps_are_unused() {
    let mut map = [1_u8, 2, 3];
    let mut size = 3;
    let local =
        VariableMapObserver::from_mut_ptr_only_local("local", &mut map, 3, &mut size);
    assert!(local.zero_after_deser);
    assert_eq!(local.len(), 3);

    let mut received =
        VariableMapObserver::received(vec![1_u8, 2, 3], 3, 0, "local".to_string(), vec![1], true);
    assert_eq!(received.len(), 0);
    assert_eq!(*received.size(), 3);
    assert_eq!(received.count_bytes(), 0);
    assert_eq!(received.how_many_set(&[0, 1, 2]), 0);
    assert!(received.pre_exec().is_ok());
    assert_eq!(received.map_slice(), [1, 2, 3]);
    assert_eq!(received.get(2), 3);
    assert!(received.is_ignored(&1));

    let mut received =
        VariableMapObserver::received(vec![1_u8, 2, 3], 2, 0, "shared".to_string(), vec![], false);
    assert_eq!(received.to_vec(), vec![1, 2]);
    assert!(received.pre_exec().is_ok());
    assert_eq!(received.map_slice(), [0, 0, 3]);
}

#[test]
fn owned_memory_counts_as_received() {
    let mut size = 1;
    let observer = VariableMapObserver::from_mut_slice_only_local(
        "owned",
        MapSlice::Owned(vec![4_u8, 5]),
        &mut size,
    );
    assert_eq!(observer.len(), 0);
    let mut size = 1;
    let observer =
        VariableMapObserver::from_mut_slice("owned", MapSlice::Owned(vec![4_u8, 5]), &mut size);
    assert_eq!(observer.as_slice(), [4]);
}

#[test]
fn ignored_indices_are_listed_once() {
    let mut map = [0_u8; 4];
    let mut size = 4;
    let mut observer = VariableMapObserver::from_mut_ptr("map", &mut map, 4, &mut size);
    observer.ignore(&[3, 1, 3]);
    observer.ignore(&[1, 2]);
    assert_eq!(observer.ignored(), [3, 1, 2]);
    assert!(observer.is_ignored(&2));
    assert!(!observer.is_ignored(&0));
}
