use linux_perf_data::Sorter;

// Example from the perf FINISHED_ROUND docs: two CPUs emit locally ordered
// timestamps; each pass flushes everything that the previous pass bounded.
#[test]
fn it_works() {
    let mut sorter = Sorter::new();
    sorter.insert_unordered(1, "1"); // cpu 0
    sorter.insert_unordered(2, "2"); // cpu 1
    sorter.insert_unordered(3, "3"); // cpu 1
    sorter.insert_unordered(2, "2"); // cpu 0
    sorter.insert_unordered(4, "4"); // cpu 1
    assert_eq!(sorter.get_next(), None);
    sorter.finish_round();
    assert_eq!(sorter.get_next(), None);
    sorter.insert_unordered(3, "3"); // cpu 0
    sorter.insert_unordered(5, "5"); // cpu 1
    sorter.insert_unordered(6, "6"); // cpu 1
    sorter.insert_unordered(7, "7"); // cpu 1
    sorter.insert_unordered(4, "4"); // cpu 0
    sorter.insert_unordered(5, "5"); // cpu 0
    assert_eq!(sorter.get_next(), None);
    sorter.finish_round();
    assert_eq!(sorter.get_next(), Some("1"));
    assert_eq!(sorter.get_next(), Some("2"));
    assert_eq!(sorter.get_next(), Some("2"));
    assert_eq!(sorter.get_next(), Some("3"));
    assert_eq!(sorter.get_next(), Some("3"));
    assert_eq!(sorter.get_next(), Some("4"));
    assert_eq!(sorter.get_next(), Some("4"));
    assert_eq!(sorter.get_next(), None);
    sorter.insert_unordered(6, "6"); // cpu 0
    sorter.insert_unordered(8, "8"); // cpu 1
    sorter.insert_unordered(9, "9"); // cpu 1
    sorter.insert_unordered(7, "7"); // cpu 0
    sorter.insert_unordered(10, "10"); // cpu 1
    assert_eq!(sorter.get_next(), None);
    sorter.finish_round();
    assert_eq!(sorter.get_next(), Some("5"));
    assert_eq!(sorter.get_next(), Some("5"));
    assert_eq!(sorter.get_next(), Some("6"));
    assert_eq!(sorter.get_next(), Some("6"));
    assert_eq!(sorter.get_next(), Some("7"));
    assert_eq!(sorter.get_next(), Some("7"));
    assert_eq!(sorter.get_next(), None);
    sorter.finish();
    assert_eq!(sorter.get_next(), Some("8"));
    assert_eq!(sorter.get_next(), Some("9"));
    assert_eq!(sorter.get_next(), Some("10"));
    assert_eq!(sorter.get_next(), None);
}

// A two-round input: the first finish emits nothing, the second emits
// everything the first round bounded, in sorted order; finish drains the
// tail in order.
#[test]
fn two_round_drain() {
    let mut sorter: Sorter<u32> = Sorter::new();
    for key in [1u128, 2, 3, 2, 4] {
        sorter.insert_unordered(key, key as u32);
    }
    sorter.finish_round();
    assert_eq!(sorter.get_next(), None);
    for key in [3u128, 5, 6, 7, 4, 5] {
        sorter.insert_unordered(key, key as u32);
    }
    sorter.finish_round();
    let mut emitted = Vec::new();
    while let Some(v) = sorter.get_next() {
        emitted.push(v);
    }
    assert_eq!(emitted, vec![1, 2, 2, 3, 3, 4, 4]);
    sorter.finish();
    let mut tail = Vec::new();
    while let Some(v) = sorter.get_next() {
        tail.push(v);
    }
    assert_eq!(tail, vec![5, 5, 6, 7]);
}

// Output is a permutation of the input, sorted by key, for an interleaving
// with duplicate keys.
#[test]
fn permutation_sorted() {
    let mut sorter: Sorter<u64> = Sorter::new();
    let keys = [7u128, 1, 7, 3, 3, 9, 2];
    for (i, key) in keys.iter().enumerate() {
        sorter.insert_unordered(*key, (i * 100) as u64 + *key as u64);
    }
    sorter.finish();
    let mut out = Vec::new();
    while let Some(v) = sorter.get_next() {
        out.push(v);
    }
    assert_eq!(out.len(), keys.len());
    // Sorted by key.
    for w in out.windows(2) {
        assert!(w[0] % 100 <= w[1] % 100);
    }
    // A permutation of the inputs.
    let mut expected: Vec<u64> = keys
        .iter()
        .enumerate()
        .map(|(i, key)| (i * 100) as u64 + *key as u64)
        .collect();
    expected.sort();
    let mut got = out.clone();
    got.sort();
    assert_eq!(got, expected);
}

#[test]
fn has_more_tracks_ready_queue() {
    let mut sorter: Sorter<u8> = Sorter::new();
    assert!(!sorter.has_more());
    sorter.insert_unordered(5, 5);
    assert!(!sorter.has_more());
    sorter.finish();
    assert!(sorter.has_more());
    assert_eq!(sorter.get_next(), Some(5));
    assert!(!sorter.has_more());
}
