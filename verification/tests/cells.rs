use lockcheck::{AsyncHashMapOnce, AsyncLoadRwLock, AsyncOnceCell, HashMapOnce};

#[test]
fn once_cell_initializer_runs_exactly_once() {
    let mut cell: AsyncOnceCell<u32> = AsyncOnceCell::new();
    let mut runs: u32 = 0;
    let mut seen: Vec<u32> = Vec::new();

    for _ in 0..100 {
        let v = *cell.get_or_init_sync(|| {
            runs += 1;
            runs
        });
        seen.push(v);
    }

    assert_eq!(runs, 1);
    assert!(seen.iter().all(|v| *v == 1));
    assert_eq!(cell.get(), Some(&1));
}

#[test]
fn once_cell_failed_initializer_keeps_the_opportunity() {
    let mut cell: AsyncOnceCell<u32> = AsyncOnceCell::new();

    let failed: Result<&u32, &str> = cell.get_or_try_init_sync(|| Err("nope"));
    assert_eq!(failed.unwrap_err(), "nope");
    assert!(cell.get().is_none());

    let ok: Result<&u32, &str> = cell.get_or_try_init_sync(|| Ok(5));
    assert_eq!(*ok.unwrap(), 5);
    assert_eq!(cell.get(), Some(&5));

    // A later failure cannot happen: the initializer no longer runs.
    let again: Result<&u32, &str> = cell.get_or_try_init_sync(|| Err("late"));
    assert_eq!(*again.unwrap(), 5);
}

#[test]
fn once_cell_init_once_keeps_first_value() {
    let mut cell = AsyncOnceCell::new();
    assert_eq!(*cell.init_once(3u32), 3);
    assert_eq!(*cell.init_once(9u32), 3);
    assert_eq!(cell.get(), Some(&3));

    assert_eq!(cell.take(), Some(3));
    assert!(cell.get().is_none());

    let mut filled = AsyncOnceCell::with_val(7u32);
    assert_eq!(filled.swap(Some(8)), Some(7));
    assert_eq!(filled.into_inner(), Some(8));

    let defaulted: AsyncOnceCell<u32> = Default::default();
    assert!(defaulted.get().is_none());
}

#[test]
fn load_lock_initializes_at_most_once() {
    let mut slot: AsyncLoadRwLock<String> = AsyncLoadRwLock::new();
    assert!(!slot.is_loaded());

    slot.store_if_absent("first".to_string());
    assert!(slot.is_loaded());
    slot.store_if_absent("second".to_string());
    assert_eq!(slot.get(), Some(&"first".to_string()));

    assert_eq!(slot.swap(None), Some("first".to_string()));
    assert!(!slot.is_loaded());

    let v = slot.get_mut_or_init(|| "lazy".to_string());
    v.push('!');
    assert_eq!(slot.get(), Some(&"lazy!".to_string()));

    let mut failing: AsyncLoadRwLock<u32> = AsyncLoadRwLock::new();
    let r: Result<&mut u32, &str> = failing.get_mut_or_try_init(|| Err("down"));
    assert_eq!(r.unwrap_err(), "down");
    assert!(!failing.is_loaded());
    let r: Result<&mut u32, &str> = failing.get_mut_or_try_init(|| Ok(4));
    assert_eq!(*r.unwrap(), 4);

    let preset = AsyncLoadRwLock::with_val(2u32);
    assert_eq!(preset.get(), Some(&2));
    let from_opt: AsyncLoadRwLock<u32> = AsyncLoadRwLock::with_opt(None);
    assert!(!from_opt.is_loaded());
    let empty: AsyncLoadRwLock<u32> = Default::default();
    assert!(!empty.is_loaded());
}

#[test]
fn map_once_set_refuses_occupied_keys() {
    let mut map: HashMapOnce<String> = HashMapOnce::new();
    assert_eq!(map.len(), 0);

    assert!(map.set(1, "one".to_string()).is_ok());
    assert_eq!(map.set(1, "uno".to_string()).unwrap_err(), "uno".to_string());
    assert_eq!(map.get(1), Some(&"one".to_string()));
    assert_eq!(map.len(), 1);

    assert_eq!(map.insert(1, "eins".to_string()), Some("one".to_string()));
    assert_eq!(map.insert(2, "two".to_string()), None);
    assert_eq!(map.len(), 2);

    assert_eq!(map.remove(1), Some("eins".to_string()));
    assert_eq!(map.remove(1), None);
    assert_eq!(map.get(1), None);

    let mut runs: u32 = 0;
    let v = map.get_or_init(3, || {
        runs += 1;
        "three".to_string()
    });
    assert_eq!(v, &"three".to_string());
    let v = map.get_or_init(3, || {
        runs += 1;
        "never".to_string()
    });
    assert_eq!(v, &"three".to_string());
    assert_eq!(runs, 1);

    let r: Result<&String, &str> = map.get_or_try_init(4, || Err("no"));
    assert_eq!(r.unwrap_err(), "no");
    let r: Result<&String, &str> = map.get_or_try_init(4, || Ok("four".to_string()));
    assert_eq!(r.unwrap(), &"four".to_string());

    if let Some(v) = map.get_mut(2) {
        v.push('!');
    }
    assert_eq!(map.get(2), Some(&"two!".to_string()));

    let mut drain = map.drain();
    assert_eq!(drain.len(), 3);
    let mut keys: Vec<u64> = Vec::new();
    while let Some((k, _)) = drain.next() {
        keys.push(k);
    }
    keys.sort();
    assert_eq!(keys, vec![2, 3, 4]);
    assert_eq!(map.len(), 0);

    map.clear();
    assert_eq!(map.len(), 0);
}

#[test]
fn drain_hands_entries_out_from_both_ends() {
    let mut map: HashMapOnce<u32> = HashMapOnce::new();
    assert!(map.set(1, 10).is_ok());
    assert!(map.set(2, 20).is_ok());
    assert!(map.set(3, 30).is_ok());

    let mut drain = map.drain();
    assert_eq!(drain.next(), Some((1, 10)));
    assert_eq!(drain.next_back(), Some((3, 30)));
    assert_eq!(drain.next(), Some((2, 20)));
    assert_eq!(drain.next(), None);
    assert_eq!(drain.next_back(), None);
}

#[test]
fn keyed_once_map_initializes_each_key_once() {
    let mut map: AsyncHashMapOnce<u32> = AsyncHashMapOnce::new();
    let mut runs: u32 = 0;

    for _ in 0..10 {
        let v = *map.get_or_init(1, || {
            runs += 1;
            runs * 100
        });
        assert_eq!(v, 100);
    }
    assert_eq!(runs, 1);

    let v = *map.get_or_init(2, || {
        runs += 1;
        runs * 100
    });
    assert_eq!(v, 200);
    assert_eq!(runs, 2);

    assert_eq!(map.get(1), Some(&100));
    assert_eq!(map.get(3), None);

    assert_eq!(map.insert(1, 111), Some(100));
    assert_eq!(map.get(1), Some(&111));

    assert_eq!(map.remove(2), Some(200));
    assert_eq!(map.remove(2), None);

    let mut drain = map.drain();
    assert_eq!(drain.next(), Some((1, 111)));
    assert_eq!(drain.next(), None);

    map.clear();
    assert_eq!(map.get(1), None);
}
