use bdstorage::paths::vault_object_path;
use bdstorage::store::{batch_write_plan, DbOp, StateError, Table, TableWrite};
use bdstorage::summary::{
    hashes_equal, index_files, tally_vault, vault_candidates, HashSizes, VaultCandidate,
    VaultTotals,
};
use bdstorage::codec::{encode_metadata, encode_refcount};
use bdstorage::types::FileMetadata;
use redb::backends::InMemoryBackend;
use redb::{Database, ReadableTable, TableDefinition, TableError};

fn definition(table: Table) -> TableDefinition<'static, &'static [u8], &'static [u8]> {
    TableDefinition::new(table.name())
}

fn fresh_db() -> Database {
    let db = Database::builder().create_with_backend(InMemoryBackend::new()).unwrap();
    let txn = db.begin_write().unwrap();
    for t in [Table::FileIndex, Table::CasIndex, Table::VaultedInodes] {
        txn.open_table(definition(t)).unwrap();
    }
    txn.commit().unwrap();
    db
}

fn batch_write(db: &Database, ops: Vec<DbOp>) {
    let Some(plan) = batch_write_plan(&ops) else { return };
    let txn = db.begin_write().unwrap();
    for w in &plan {
        match w {
            TableWrite::Insert { table, key, value } => {
                let mut t = txn.open_table(definition(*table)).unwrap();
                t.insert(key.as_slice(), value.as_slice()).unwrap();
            }
            TableWrite::Remove { table, key } => {
                let mut t = txn.open_table(definition(*table)).unwrap();
                t.remove(key.as_slice()).unwrap();
            }
        }
    }
    txn.commit().unwrap();
}

fn scan(db: &Database, table: Table) -> Option<Vec<(Vec<u8>, Vec<u8>)>> {
    let txn = db.begin_read().unwrap();
    let t = match txn.open_table(definition(table)) {
        Ok(t) => t,
        Err(TableError::TableDoesNotExist(_)) => return None,
        Err(e) => panic!("{e}"),
    };
    let mut out = Vec::new();
    for item in t.iter().unwrap() {
        let (k, v) = item.unwrap();
        out.push((k.value().to_vec(), v.value().to_vec()));
    }
    Some(out)
}

/// Runs the summary over the store, with `vault` listing the objects that
/// exist (path and size).
fn summarize(db: &Database, vault_dir: &str, vault: &[(String, u64)]) -> (usize, VaultTotals) {
    let files = scan(db, Table::FileIndex).map(|es| es.into_iter().map(|(_, v)| v).collect());
    let index = index_files(&files).unwrap();
    let candidates = vault_candidates(&scan(db, Table::CasIndex), &index.sizes);
    let sizes: Vec<Option<u64>> = candidates
        .iter()
        .map(|c| {
            let path = vault_object_path(vault_dir, &c.hash);
            vault.iter().find(|(p, _)| *p == path).map(|(_, s)| *s)
        })
        .collect();
    (index.tracked_paths, tally_vault(&candidates, &sizes))
}

#[test]
fn test_compute_summary() {
    let db = fresh_db();
    let hash1 = [1u8; 32];
    let hash2 = [2u8; 32];
    let hash3 = [3u8; 32];

    // 4 files tracked:
    // file1: hash1, size 100
    // file2: hash1, size 100
    // file3: hash2, size 50
    // file4: hash3, size 200 (not deduplicated)
    batch_write(
        &db,
        vec![
            DbOp::UpsertFile("f1".to_string(), FileMetadata { size: 100, modified: 0, hash: hash1 }),
            DbOp::UpsertFile("f2".to_string(), FileMetadata { size: 100, modified: 0, hash: hash1 }),
            DbOp::UpsertFile("f3".to_string(), FileMetadata { size: 50, modified: 0, hash: hash2 }),
            DbOp::UpsertFile("f4".to_string(), FileMetadata { size: 200, modified: 0, hash: hash3 }),
            DbOp::SetCasRefcount(hash1, 2),
            DbOp::SetCasRefcount(hash2, 1),
        ],
    );

    let vault_dir = "/tmp/test/vault";
    let vault = vec![
        (vault_object_path(vault_dir, &hash1), 100u64),
        (vault_object_path(vault_dir, &hash2), 50u64),
    ];
    let (tracked_paths, totals) = summarize(&db, vault_dir, &vault);

    assert_eq!(tracked_paths, 4);
    assert_eq!(totals.objects_in_vault, 2);
    assert_eq!(totals.total_vault_size, 150); // hash1 (100) + hash2 (50)
    assert_eq!(totals.estimated_savings, 100); // hash1 saves 100, hash2 saves 0

    let ratio = (totals.total_vault_size as f64 + totals.estimated_savings as f64)
        / (totals.total_vault_size as f64);
    let expected_ratio = (150.0 + 100.0) / 150.0;
    assert!((ratio - expected_ratio).abs() < f64::EPSILON);
}

#[test]
fn test_compute_summary_ignores_missing_vault_objects() {
    let db = fresh_db();
    let hash = [7u8; 32];
    batch_write(
        &db,
        vec![
            DbOp::UpsertFile("f1".to_string(), FileMetadata { size: 100, modified: 0, hash }),
            DbOp::UpsertFile("f2".to_string(), FileMetadata { size: 100, modified: 0, hash }),
            DbOp::SetCasRefcount(hash, 2),
        ],
    );

    let (tracked_paths, totals) = summarize(&db, "/tmp/test/vault", &[]);

    assert_eq!(tracked_paths, 2);
    assert_eq!(totals.objects_in_vault, 0);
    assert_eq!(totals.total_vault_size, 0);
    assert_eq!(totals.estimated_savings, 0);
}

#[test]
fn missing_file_index_means_no_vault() {
    assert!(matches!(index_files(&None), Err(StateError::NoVault)));
}

#[test]
fn unreadable_file_metadata_is_an_error() {
    let good = encode_metadata(&FileMetadata { size: 1, modified: 2, hash: [1u8; 32] });
    let files = Some(vec![good, vec![0u8; 47]]);
    assert!(matches!(index_files(&files), Err(StateError::CorruptMetadata)));
}

#[test]
fn later_file_sets_the_size_of_a_hash() {
    let a = encode_metadata(&FileMetadata { size: 10, modified: 0, hash: [1u8; 32] });
    let b = encode_metadata(&FileMetadata { size: 20, modified: 0, hash: [1u8; 32] });
    let c = encode_metadata(&FileMetadata { size: 30, modified: 0, hash: [2u8; 32] });
    let index = index_files(&Some(vec![a, b, c])).unwrap();
    assert_eq!(index.tracked_paths, 3);
    assert_eq!(index.sizes.get(&[1u8; 32]), Some(20));
    assert_eq!(index.sizes.get(&[2u8; 32]), Some(30));
    assert_eq!(index.sizes.get(&[3u8; 32]), None);
}

#[test]
fn hash_sizes_replace_and_look_up() {
    let mut s = HashSizes::new();
    assert_eq!(s.get(&[0u8; 32]), None);
    s.insert([5u8; 32], 1);
    s.insert([6u8; 32], 2);
    s.insert([5u8; 32], 3);
    assert_eq!(s.get(&[5u8; 32]), Some(3));
    assert_eq!(s.get(&[6u8; 32]), Some(2));
    assert!(hashes_equal(&[5u8; 32], &[5u8; 32]));
    let mut other = [5u8; 32];
    other[31] = 4;
    assert!(!hashes_equal(&[5u8; 32], &other));
}

#[test]
fn candidates_need_a_positive_count_and_a_tracked_hash() {
    let mut sizes = HashSizes::new();
    sizes.insert([1u8; 32], 100);
    sizes.insert([2u8; 32], 50);
    let entries = Some(vec![
        (vec![1u8; 32], encode_refcount(3)),
        (vec![2u8; 32], encode_refcount(0)),
        (vec![9u8; 32], encode_refcount(4)),
    ]);
    let cs = vault_candidates(&entries, &sizes);
    assert_eq!(cs, vec![VaultCandidate { hash: [1u8; 32], size: 100, refcount: 3 }]);
    assert!(vault_candidates(&None, &sizes).is_empty());
}

#[test]
fn tally_counts_only_objects_present_and_saturates_savings() {
    let cs = vec![
        VaultCandidate { hash: [1u8; 32], size: 100, refcount: 3 },
        VaultCandidate { hash: [2u8; 32], size: 40, refcount: 1 },
        VaultCandidate { hash: [3u8; 32], size: 7, refcount: 5 },
    ];
    let t = tally_vault(&cs, &vec![Some(90), Some(40), None]);
    assert_eq!(t, VaultTotals { objects_in_vault: 2, total_vault_size: 130, estimated_savings: 200 });
    let big = vec![VaultCandidate { hash: [1u8; 32], size: u64::MAX, refcount: 3 }];
    let t = tally_vault(&big, &vec![Some(1)]);
    assert_eq!(t.estimated_savings, u64::MAX);
    let t = tally_vault(&Vec::new(), &Vec::new());
    assert_eq!(t, VaultTotals { objects_in_vault: 0, total_vault_size: 0, estimated_savings: 0 });
}
