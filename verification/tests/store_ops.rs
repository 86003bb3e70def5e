use bdstorage::codec::{cas_key, encode_metadata, file_key, inode_key};
use bdstorage::store::{
    batch_write_plan, file_metadata_from_lookup, mark_inode_vaulted_write, refcount_from_lookup,
    remove_cas_refcount_write, remove_file_from_index_write, set_cas_refcount_write,
    unmark_inode_vaulted_write, upsert_file_write, vaulted_from_lookup, DbOp, StateError, Table,
    TableLookup, TableWrite,
};
use bdstorage::types::FileMetadata;
use redb::backends::InMemoryBackend;
use redb::{Database, TableDefinition, TableError};

fn definition(table: Table) -> TableDefinition<'static, &'static [u8], &'static [u8]> {
    TableDefinition::new(table.name())
}

fn memory_db(create_tables: bool) -> Database {
    let db = Database::builder().create_with_backend(InMemoryBackend::new()).unwrap();
    if create_tables {
        let txn = db.begin_write().unwrap();
        for t in [Table::FileIndex, Table::CasIndex, Table::VaultedInodes] {
            txn.open_table(definition(t)).unwrap();
        }
        txn.commit().unwrap();
    }
    db
}

fn perform(db: &Database, writes: &[TableWrite]) {
    let txn = db.begin_write().unwrap();
    for w in writes {
        match w {
            TableWrite::Insert { table, key, value } => {
                let mut t = txn.open_table(definition(*table)).unwrap();
                t.insert(key.as_slice(), value.as_slice()).unwrap();
            }
            TableWrite::Remove { table, key } => {
                let mut t = txn.open_table(definition(*table)).unwrap();
                t.remove(key.as_slice()).unwrap();
            }
        }
    }
    txn.commit().unwrap();
}

fn lookup(db: &Database, table: Table, key: &[u8]) -> TableLookup {
    let txn = db.begin_read().unwrap();
    let t = match txn.open_table(definition(table)) {
        Ok(t) => t,
        Err(TableError::TableDoesNotExist(_)) => return TableLookup::NoTable,
        Err(e) => panic!("{e}"),
    };
    match t.get(key).unwrap() {
        Some(v) => TableLookup::Found(v.value().to_vec()),
        None => TableLookup::Missing,
    }
}

fn md(size: u64, byte: u8) -> FileMetadata {
    FileMetadata { size, modified: 0, hash: [byte; 32] }
}

#[test]
fn table_names_match_the_database_layout() {
    assert_eq!(Table::FileIndex.name(), "file_index");
    assert_eq!(Table::CasIndex.name(), "cas_index");
    assert_eq!(Table::VaultedInodes.name(), "vaulted_inodes");
}

#[test]
fn each_operation_plans_its_write() {
    let m = md(5, 3);
    match upsert_file_write("a/b", &m) {
        TableWrite::Insert { table, key, value } => {
            assert_eq!(table, Table::FileIndex);
            assert_eq!(key, b"a/b".to_vec());
            assert_eq!(value, encode_metadata(&m));
        }
        other => panic!("{other:?}"),
    }
    match remove_file_from_index_write("a/b") {
        TableWrite::Remove { table, key } => {
            assert_eq!(table, Table::FileIndex);
            assert_eq!(key, b"a/b".to_vec());
        }
        other => panic!("{other:?}"),
    }
    match set_cas_refcount_write(&[4u8; 32], 3) {
        TableWrite::Insert { table, key, value } => {
            assert_eq!(table, Table::CasIndex);
            assert_eq!(key, vec![4u8; 32]);
            assert_eq!(value, vec![3, 0, 0, 0, 0, 0, 0, 0]);
        }
        other => panic!("{other:?}"),
    }
    match remove_cas_refcount_write(&[4u8; 32]) {
        TableWrite::Remove { table, key } => {
            assert_eq!(table, Table::CasIndex);
            assert_eq!(key, vec![4u8; 32]);
        }
        other => panic!("{other:?}"),
    }
    match mark_inode_vaulted_write(258) {
        TableWrite::Insert { table, key, value } => {
            assert_eq!(table, Table::VaultedInodes);
            assert_eq!(key, vec![2, 1, 0, 0, 0, 0, 0, 0]);
            assert_eq!(value, vec![1u8]);
        }
        other => panic!("{other:?}"),
    }
    match unmark_inode_vaulted_write(258) {
        TableWrite::Remove { table, key } => {
            assert_eq!(table, Table::VaultedInodes);
            assert_eq!(key, vec![2, 1, 0, 0, 0, 0, 0, 0]);
        }
        other => panic!("{other:?}"),
    }
}

#[test]
fn empty_batch_needs_no_transaction() {
    assert!(batch_write_plan(&Vec::new()).is_none());
}

#[test]
fn batch_plan_keeps_operation_order() {
    let ops = vec![
        DbOp::UpsertFile("f1".to_string(), md(1, 1)),
        DbOp::SetCasRefcount([1u8; 32], 2),
        DbOp::MarkInodeVaulted(9),
        DbOp::RemoveFileFromIndex("f1".to_string()),
        DbOp::UnmarkInodeVaulted(9),
        DbOp::RemoveCasRefcount([1u8; 32]),
    ];
    let plan = batch_write_plan(&ops).unwrap();
    assert_eq!(plan.len(), 6);
    assert!(matches!(&plan[0], TableWrite::Insert { table: Table::FileIndex, .. }));
    assert!(matches!(&plan[1], TableWrite::Insert { table: Table::CasIndex, .. }));
    assert!(matches!(&plan[2], TableWrite::Insert { table: Table::VaultedInodes, .. }));
    assert!(matches!(&plan[3], TableWrite::Remove { table: Table::FileIndex, .. }));
    assert!(matches!(&plan[4], TableWrite::Remove { table: Table::VaultedInodes, .. }));
    assert!(matches!(&plan[5], TableWrite::Remove { table: Table::CasIndex, .. }));
}

#[test]
fn lookups_are_interpreted() {
    assert_eq!(file_metadata_from_lookup(&TableLookup::NoTable), Ok(None));
    assert_eq!(file_metadata_from_lookup(&TableLookup::Missing), Ok(None));
    assert_eq!(
        file_metadata_from_lookup(&TableLookup::Found(vec![1, 2, 3])),
        Err(StateError::CorruptMetadata)
    );
    let m = md(77, 5);
    assert_eq!(file_metadata_from_lookup(&TableLookup::Found(encode_metadata(&m))), Ok(Some(m)));
    assert_eq!(refcount_from_lookup(&TableLookup::NoTable), 0);
    assert_eq!(refcount_from_lookup(&TableLookup::Missing), 0);
    assert_eq!(refcount_from_lookup(&TableLookup::Found(vec![7, 1, 0, 0, 0, 0, 0, 0])), 263);
    assert!(!vaulted_from_lookup(&TableLookup::NoTable));
    assert!(!vaulted_from_lookup(&TableLookup::Missing));
    assert!(vaulted_from_lookup(&TableLookup::Found(vec![1])));
}

#[test]
fn reads_give_back_what_was_written() {
    let db = memory_db(true);
    let m = md(100, 1);
    perform(&db, &[upsert_file_write("f1", &m)]);
    perform(&db, &[set_cas_refcount_write(&[1u8; 32], 2)]);
    perform(&db, &[mark_inode_vaulted_write(42)]);
    assert_eq!(
        file_metadata_from_lookup(&lookup(&db, Table::FileIndex, &file_key("f1"))),
        Ok(Some(m))
    );
    assert_eq!(file_metadata_from_lookup(&lookup(&db, Table::FileIndex, &file_key("f2"))), Ok(None));
    assert_eq!(refcount_from_lookup(&lookup(&db, Table::CasIndex, &cas_key(&[1u8; 32]))), 2);
    assert_eq!(refcount_from_lookup(&lookup(&db, Table::CasIndex, &cas_key(&[2u8; 32]))), 0);
    assert!(vaulted_from_lookup(&lookup(&db, Table::VaultedInodes, &inode_key(42))));
    assert!(!vaulted_from_lookup(&lookup(&db, Table::VaultedInodes, &inode_key(43))));

    perform(&db, &[remove_file_from_index_write("f1")]);
    perform(&db, &[remove_cas_refcount_write(&[1u8; 32])]);
    perform(&db, &[unmark_inode_vaulted_write(42)]);
    assert_eq!(file_metadata_from_lookup(&lookup(&db, Table::FileIndex, &file_key("f1"))), Ok(None));
    assert_eq!(refcount_from_lookup(&lookup(&db, Table::CasIndex, &cas_key(&[1u8; 32]))), 0);
    assert!(!vaulted_from_lookup(&lookup(&db, Table::VaultedInodes, &inode_key(42))));
}

#[test]
fn last_write_in_a_batch_wins() {
    let db = memory_db(true);
    let ops = vec![
        DbOp::UpsertFile("f".to_string(), md(1, 1)),
        DbOp::SetCasRefcount([1u8; 32], 5),
        DbOp::UpsertFile("f".to_string(), md(2, 2)),
        DbOp::RemoveCasRefcount([1u8; 32]),
        DbOp::UpsertFile("g".to_string(), md(3, 3)),
        DbOp::RemoveFileFromIndex("g".to_string()),
        DbOp::SetCasRefcount([1u8; 32], 9),
    ];
    perform(&db, &batch_write_plan(&ops).unwrap());
    assert_eq!(
        file_metadata_from_lookup(&lookup(&db, Table::FileIndex, &file_key("f"))),
        Ok(Some(md(2, 2)))
    );
    assert_eq!(file_metadata_from_lookup(&lookup(&db, Table::FileIndex, &file_key("g"))), Ok(None));
    assert_eq!(refcount_from_lookup(&lookup(&db, Table::CasIndex, &cas_key(&[1u8; 32]))), 9);
}

#[test]
fn reads_from_a_store_without_tables_find_nothing() {
    let db = memory_db(false);
    let l = lookup(&db, Table::FileIndex, &file_key("f1"));
    assert!(matches!(l, TableLookup::NoTable));
    assert_eq!(file_metadata_from_lookup(&l), Ok(None));
    assert_eq!(refcount_from_lookup(&lookup(&db, Table::CasIndex, &cas_key(&[0u8; 32]))), 0);
    assert!(!vaulted_from_lookup(&lookup(&db, Table::VaultedInodes, &inode_key(1))));
}
