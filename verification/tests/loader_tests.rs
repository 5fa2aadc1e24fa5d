use snake_tuner::database::{Database, Entry, MemoryDatabase, OwnedEntry};
use snake_tuner::dataloader::DataLoader;
use snake_tuner::fixed::{Fx, FRAC};
use snake_tuner::ConfigError;

fn fx(raw: i64) -> Fx {
    Fx { raw }
}

/// A database of `n` one-input entries whose input and expected output
/// both hold the entry's index (scaled to fixed point).
fn indexed_db(n: i64) -> MemoryDatabase {
    let mut entries = Vec::new();
    for i in 0..n {
        entries.push(OwnedEntry { inputs: vec![fx(i * FRAC)], expected: fx(i * FRAC) });
    }
    MemoryDatabase::from_entries(entries)
}

fn entry_key(e: &OwnedEntry) -> i64 {
    e.expected.raw / FRAC
}

#[test]
fn memory_database_access() {
    let db = indexed_db(4);
    assert_eq!(db.size(), 4);
    let e = db.get(2);
    assert_eq!(e.get_expected_output(), fx(2 * FRAC));
    assert_eq!(e.get_inputs(), vec![fx(2 * FRAC)]);
}

#[test]
fn batch_partition_completeness() {
    // 7 entries, batch size 3: ceil(7/3) = 3 batches of sizes 3, 3, 1,
    // covering every index exactly once.
    let mut loader = DataLoader::new(indexed_db(7), 3, false).unwrap();
    assert_eq!(loader.batch_count(), 3);
    let mut seen = Vec::new();
    let sizes: Vec<usize> = (0..3).map(|_| {
        let batch = loader.sample();
        for e in &batch {
            seen.push(entry_key(e));
        }
        batch.len()
    }).collect();
    assert_eq!(sizes, vec![3, 3, 1]);
    seen.sort();
    assert_eq!(seen, vec![0, 1, 2, 3, 4, 5, 6]);
}

#[test]
fn batch_count_is_ceiling() {
    assert_eq!(DataLoader::new(indexed_db(6), 2, false).unwrap().batch_count(), 3);
    assert_eq!(DataLoader::new(indexed_db(7), 2, false).unwrap().batch_count(), 4);
    assert_eq!(DataLoader::new(indexed_db(1), 5, false).unwrap().batch_count(), 1);
    assert_eq!(DataLoader::new(indexed_db(5), 5, false).unwrap().batch_count(), 1);
}

#[test]
fn cyclic_sampling() {
    // 5 entries, batch size 2: ceil(5/2) = 3 batches; after one full
    // cycle the next sample is the first batch again.
    let mut loader = DataLoader::new(indexed_db(5), 2, false).unwrap();
    let first = loader.sample();
    for _ in 0..2 {
        loader.sample();
    }
    let again = loader.sample();
    assert_eq!(first, again);
    // And a second full cycle wraps the same way.
    loader.sample();
    loader.sample();
    assert_eq!(loader.sample(), first);
}

#[test]
fn determinism_without_shuffle() {
    // Without shuffling, batches come in strict ascending index order,
    // reproducibly.
    for _ in 0..3 {
        let mut loader = DataLoader::new(indexed_db(6), 2, false).unwrap();
        let mut keys = Vec::new();
        for _ in 0..3 {
            for e in loader.sample() {
                keys.push(entry_key(&e));
            }
        }
        assert_eq!(keys, vec![0, 1, 2, 3, 4, 5]);
    }
}

#[test]
fn shuffle_validity() {
    // With shuffling, the multiset of entries across all batches is the
    // same as without: same entries, possibly different grouping.
    let mut loader = DataLoader::new(indexed_db(9), 4, true).unwrap();
    assert_eq!(loader.batch_count(), 3);
    let mut keys = Vec::new();
    let mut total = 0;
    for _ in 0..3 {
        let batch = loader.sample();
        total += batch.len();
        for e in batch {
            keys.push(entry_key(&e));
        }
    }
    assert_eq!(total, 9);
    keys.sort();
    assert_eq!(keys, (0..9).collect::<Vec<i64>>());
}

#[test]
fn empty_database_is_rejected() {
    let db = MemoryDatabase::from_entries(Vec::new());
    assert_eq!(DataLoader::new(db, 3, false).unwrap_err(), ConfigError::EmptyDatabase);
}

#[test]
fn zero_batch_size_is_rejected() {
    assert_eq!(DataLoader::new(indexed_db(3), 0, false).unwrap_err(), ConfigError::ZeroBatchSize);
}

#[test]
fn check_dims_detects_mismatch() {
    let loader = DataLoader::new(indexed_db(4), 2, false).unwrap();
    assert!(loader.check_dims(1));
    assert!(!loader.check_dims(2));
}

#[test]
fn loader_clones_are_independent() {
    let mut a = DataLoader::new(indexed_db(4), 2, false).unwrap();
    let mut b = a.clone();
    let first = a.sample();
    a.sample();
    // The clone's cursor is untouched: it still starts at the first batch.
    assert_eq!(b.sample(), first);
}
