//! The three tables of the state database, what each operation writes into
//! them, how each read is interpreted, and the laws that tie writes to later
//! reads.
//!
//! The database itself is driven by the caller: it opens the tables, performs
//! the [`TableWrite`]s planned here inside one write transaction, and hands
//! each lookup result back as a [`TableLookup`]. [`StoreView`] is the
//! mathematical content of the three tables, and [`StoreView::apply`] is what
//! one planned write does to it (an insert replaces the value under its key,
//! a remove deletes the key).

use vstd::prelude::*;
use vstd::bytes::*;
use crate::types::{ContentHash, FileMetadata};
use crate::codec::{
    cas_key, encode_metadata, encode_refcount, decode_metadata, decode_refcount, file_key,
    file_key_spec, inode_key, inode_key_spec, lemma_file_key_injective, lemma_metadata_roundtrip,
    lemma_refcount_roundtrip, metadata_bytes, metadata_decodes_to, refcount_bytes,
    vaulted_marker, vaulted_marker_value,
};

verus! {

/// The tables of the state database.
#[derive(Clone, Copy, Debug, PartialEq, Eq, Structural)]
pub enum Table {
    /// path -> file metadata
    FileIndex,
    /// content hash -> reference count
    CasIndex,
    /// inode -> marker
    VaultedInodes,
}

impl Table {
    /// The name under which the table is stored.
    pub fn name(&self) -> (name: &'static str)
        ensures
            *self == Table::FileIndex ==> name@ == "file_index"@,
            *self == Table::CasIndex ==> name@ == "cas_index"@,
            *self == Table::VaultedInodes ==> name@ == "vaulted_inodes"@,
    {
        match self {
            Table::FileIndex => "file_index",
            Table::CasIndex => "cas_index",
            Table::VaultedInodes => "vaulted_inodes",
        }
    }
}

/// Errors of the store's own logic.
#[derive(Clone, Copy, Debug, PartialEq, Eq, Structural)]
pub enum StateError {
    /// A file-index value is too short to hold file metadata.
    CorruptMetadata,
    /// The vault has not been created yet (no vault directory or no file index).
    NoVault,
}

/// What one write does, over byte sequences.
pub enum WriteSpec {
    Insert(Table, Seq<u8>, Seq<u8>),
    Remove(Table, Seq<u8>),
}

impl WriteSpec {
    pub open spec fn table(self) -> Table {
        match self {
            WriteSpec::Insert(t, _, _) => t,
            WriteSpec::Remove(t, _) => t,
        }
    }

    pub open spec fn key(self) -> Seq<u8> {
        match self {
            WriteSpec::Insert(_, k, _) => k,
            WriteSpec::Remove(_, k) => k,
        }
    }

    /// The entry that the write leaves under its key.
    pub open spec fn result(self) -> Option<Seq<u8>> {
        match self {
            WriteSpec::Insert(_, _, v) => Some(v),
            WriteSpec::Remove(_, _) => None,
        }
    }

    pub open spec fn touches(self, t: Table, key: Seq<u8>) -> bool {
        self.table() == t && self.key() == key
    }
}

/// One write for the caller to perform in a write transaction.
#[derive(Debug)]
pub enum TableWrite {
    Insert { table: Table, key: Vec<u8>, value: Vec<u8> },
    Remove { table: Table, key: Vec<u8> },
}

impl View for TableWrite {
    type V = WriteSpec;

    open spec fn view(&self) -> WriteSpec {
        match self {
            TableWrite::Insert { table, key, value } => WriteSpec::Insert(*table, key@, value@),
            TableWrite::Remove { table, key } => WriteSpec::Remove(*table, key@),
        }
    }
}

/// The effects of a sequence of planned writes.
pub open spec fn writes_view(ws: Seq<TableWrite>) -> Seq<WriteSpec> {
    ws.map_values(|w: TableWrite| w@)
}

/// The entry under `key` in a table: its value, if there is one.
pub open spec fn entry(m: Map<Seq<u8>, Seq<u8>>, key: Seq<u8>) -> Option<Seq<u8>> {
    if m.contains_key(key) {
        Some(m[key])
    } else {
        None
    }
}

/// The contents of the three tables.
#[verifier::ext_equal]
pub struct StoreView {
    pub files: Map<Seq<u8>, Seq<u8>>,
    pub cas: Map<Seq<u8>, Seq<u8>>,
    pub vaulted: Map<Seq<u8>, Seq<u8>>,
}

impl StoreView {
    pub open spec fn table(self, t: Table) -> Map<Seq<u8>, Seq<u8>> {
        match t {
            Table::FileIndex => self.files,
            Table::CasIndex => self.cas,
            Table::VaultedInodes => self.vaulted,
        }
    }

    pub open spec fn with_table(self, t: Table, m: Map<Seq<u8>, Seq<u8>>) -> StoreView {
        match t {
            Table::FileIndex => StoreView { files: m, ..self },
            Table::CasIndex => StoreView { cas: m, ..self },
            Table::VaultedInodes => StoreView { vaulted: m, ..self },
        }
    }

    /// One write: an insert replaces the value under its key, a remove
    /// deletes the key; the other keys and tables are untouched.
    pub open spec fn apply(self, w: WriteSpec) -> StoreView {
        match w {
            WriteSpec::Insert(t, k, v) => self.with_table(t, self.table(t).insert(k, v)),
            WriteSpec::Remove(t, k) => self.with_table(t, self.table(t).remove(k)),
        }
    }

    /// Writes in order.
    pub open spec fn apply_all(self, ws: Seq<WriteSpec>) -> StoreView
        decreases ws.len(),
    {
        if ws.len() == 0 {
            self
        } else {
            self.apply_all(ws.drop_last()).apply(ws.last())
        }
    }
}

/// What a lookup in one table found.
#[derive(Debug)]
pub enum TableLookup {
    /// The table has not been created.
    NoTable,
    /// The table has no entry under the key.
    Missing,
    /// The value under the key.
    Found(Vec<u8>),
}

impl TableLookup {
    /// The lookup reports the entry under `key` in table contents `m`.
    pub open spec fn reflects(self, m: Map<Seq<u8>, Seq<u8>>, key: Seq<u8>) -> bool {
        match self {
            TableLookup::Found(v) => m.contains_key(key) && m[key] == v@,
            _ => !m.contains_key(key),
        }
    }
}

// ---------------------------------------------------------------------------
// The effect of each operation.

pub open spec fn upsert_file_effect(path: Seq<char>, md: FileMetadata) -> WriteSpec {
    WriteSpec::Insert(Table::FileIndex, file_key_spec(path), metadata_bytes(md))
}

pub open spec fn remove_file_effect(path: Seq<char>) -> WriteSpec {
    WriteSpec::Remove(Table::FileIndex, file_key_spec(path))
}

pub open spec fn set_cas_refcount_effect(hash: Seq<u8>, count: u64) -> WriteSpec {
    WriteSpec::Insert(Table::CasIndex, hash, refcount_bytes(count))
}

pub open spec fn remove_cas_refcount_effect(hash: Seq<u8>) -> WriteSpec {
    WriteSpec::Remove(Table::CasIndex, hash)
}

pub open spec fn mark_inode_vaulted_effect(inode: u64) -> WriteSpec {
    WriteSpec::Insert(Table::VaultedInodes, inode_key_spec(inode), vaulted_marker())
}

pub open spec fn unmark_inode_vaulted_effect(inode: u64) -> WriteSpec {
    WriteSpec::Remove(Table::VaultedInodes, inode_key_spec(inode))
}

/// Records (or replaces) a file's metadata under its path.
pub fn upsert_file_write(path: &str, md: &FileMetadata) -> (w: TableWrite)
    ensures
        w@ == upsert_file_effect(path@, *md),
{
    TableWrite::Insert { table: Table::FileIndex, key: file_key(path), value: encode_metadata(md) }
}

/// Forgets a file's metadata.
pub fn remove_file_from_index_write(path: &str) -> (w: TableWrite)
    ensures
        w@ == remove_file_effect(path@),
{
    TableWrite::Remove { table: Table::FileIndex, key: file_key(path) }
}

/// Sets the reference count of a content hash.
pub fn set_cas_refcount_write(hash: &ContentHash, count: u64) -> (w: TableWrite)
    ensures
        w@ == set_cas_refcount_effect(hash@, count),
{
    TableWrite::Insert { table: Table::CasIndex, key: cas_key(hash), value: encode_refcount(count) }
}

/// Forgets the reference count of a content hash.
pub fn remove_cas_refcount_write(hash: &ContentHash) -> (w: TableWrite)
    ensures
        w@ == remove_cas_refcount_effect(hash@),
{
    TableWrite::Remove { table: Table::CasIndex, key: cas_key(hash) }
}

/// Marks an inode as vaulted.
pub fn mark_inode_vaulted_write(inode: u64) -> (w: TableWrite)
    ensures
        w@ == mark_inode_vaulted_effect(inode),
{
    TableWrite::Insert {
        table: Table::VaultedInodes,
        key: inode_key(inode),
        value: vaulted_marker_value(),
    }
}

/// Clears the vaulted mark of an inode.
pub fn unmark_inode_vaulted_write(inode: u64) -> (w: TableWrite)
    ensures
        w@ == unmark_inode_vaulted_effect(inode),
{
    TableWrite::Remove { table: Table::VaultedInodes, key: inode_key(inode) }
}

// ---------------------------------------------------------------------------
// Batched operations.

/// One queued change to the store. Paths are given as text (a path that is
/// not valid UTF-8 is recorded under its lossy UTF-8 form).
#[derive(Clone, Debug, PartialEq, Eq)]
pub enum DbOp {
    UpsertFile(String, FileMetadata),
    SetCasRefcount(ContentHash, u64),
    MarkInodeVaulted(u64),
    RemoveFileFromIndex(String),
    UnmarkInodeVaulted(u64),
    RemoveCasRefcount(ContentHash),
}

impl DbOp {
    /// What the operation writes.
    pub open spec fn effect(self) -> WriteSpec {
        match self {
            DbOp::UpsertFile(path, md) => upsert_file_effect(path@, md),
            DbOp::SetCasRefcount(hash, count) => set_cas_refcount_effect(hash@, count),
            DbOp::MarkInodeVaulted(inode) => mark_inode_vaulted_effect(inode),
            DbOp::RemoveFileFromIndex(path) => remove_file_effect(path@),
            DbOp::UnmarkInodeVaulted(inode) => unmark_inode_vaulted_effect(inode),
            DbOp::RemoveCasRefcount(hash) => remove_cas_refcount_effect(hash@),
        }
    }

    /// The write that performs the operation.
    pub fn to_write(&self) -> (w: TableWrite)
        ensures
            w@ == self.effect(),
    {
        match self {
            DbOp::UpsertFile(path, md) => upsert_file_write(path.as_str(), md),
            DbOp::SetCasRefcount(hash, count) => set_cas_refcount_write(hash, *count),
            DbOp::MarkInodeVaulted(inode) => mark_inode_vaulted_write(*inode),
            DbOp::RemoveFileFromIndex(path) => remove_file_from_index_write(path.as_str()),
            DbOp::UnmarkInodeVaulted(inode) => unmark_inode_vaulted_write(*inode),
            DbOp::RemoveCasRefcount(hash) => remove_cas_refcount_write(hash),
        }
    }
}

/// The effects of a sequence of operations, in order.
pub open spec fn ops_effects(ops: Seq<DbOp>) -> Seq<WriteSpec> {
    ops.map_values(|op: DbOp| op.effect())
}

/// The writes of a batch, to be performed in order in one write transaction;
/// `None` for an empty batch, which needs no transaction at all.
pub fn batch_write_plan(ops: &Vec<DbOp>) -> (plan: Option<Vec<TableWrite>>)
    ensures
        plan is None <==> ops@.len() == 0,
        plan matches Some(ws) ==> writes_view(ws@) == ops_effects(ops@),
{
    if ops.len() == 0 {
        return None;
    }
    let mut ws: Vec<TableWrite> = Vec::new();
    let mut i: usize = 0;
    while i < ops.len()
        invariant
            i <= ops@.len(),
            ws@.len() == i,
            forall|j: int| 0 <= j < i ==> #[trigger] ws@[j]@ == ops@[j].effect(),
        decreases ops@.len() - i,
    {
        let w = ops[i].to_write();
        ws.push(w);
        i = i + 1;
    }
    assert(writes_view(ws@) =~= ops_effects(ops@));
    Some(ws)
}

// ---------------------------------------------------------------------------
// Reads.

/// `r` is what reading a file's metadata gives for lookup `l`: nothing when
/// there is no entry (or no table), the decoded metadata when the stored
/// value holds it, and `CorruptMetadata` when it is too short.
pub open spec fn file_metadata_read(
    l: TableLookup,
    r: Result<Option<FileMetadata>, StateError>,
) -> bool {
    match l {
        TableLookup::Found(v) => if v@.len() >= 48 {
            r matches Ok(Some(md)) && metadata_decodes_to(v@, md)
        } else {
            r == Err::<Option<FileMetadata>, StateError>(StateError::CorruptMetadata)
        },
        _ => r == Ok::<Option<FileMetadata>, StateError>(None),
    }
}

/// The reference count that lookup `l` reads: the stored count, or 0 when
/// there is no entry (or no table).
pub open spec fn refcount_read(l: TableLookup) -> u64 {
    match l {
        TableLookup::Found(v) => spec_u64_from_le_bytes(v@),
        _ => 0,
    }
}

/// The stored value of every reference count is 8 bytes long.
pub open spec fn refcount_lookup_well_formed(l: TableLookup) -> bool {
    l matches TableLookup::Found(v) ==> v@.len() == 8
}

/// Interprets a file-index lookup.
pub fn file_metadata_from_lookup(l: &TableLookup) -> (r: Result<Option<FileMetadata>, StateError>)
    ensures
        file_metadata_read(*l, r),
{
    match l {
        TableLookup::Found(v) => match decode_metadata(v.as_slice()) {
            Some(md) => Ok(Some(md)),
            None => Err(StateError::CorruptMetadata),
        },
        _ => Ok(None),
    }
}

/// Interprets a content-index lookup.
pub fn refcount_from_lookup(l: &TableLookup) -> (count: u64)
    requires
        refcount_lookup_well_formed(*l),
    ensures
        count == refcount_read(*l),
{
    match l {
        TableLookup::Found(v) => decode_refcount(v.as_slice()),
        _ => 0,
    }
}

/// Interprets a vaulted-inode lookup: an inode is vaulted when it has an entry.
pub fn vaulted_from_lookup(l: &TableLookup) -> (vaulted: bool)
    ensures
        vaulted == (*l is Found),
{
    match l {
        TableLookup::Found(_) => true,
        _ => false,
    }
}

// ---------------------------------------------------------------------------
// Laws.

/// A write changes only the entry under its own key in its own table.
pub proof fn law_write_frame(s: StoreView, w: WriteSpec, t: Table, key: Seq<u8>)
    ensures
        w.touches(t, key) ==> entry(s.apply(w).table(t), key) == w.result(),
        !w.touches(t, key) ==> entry(s.apply(w).table(t), key) == entry(s.table(t), key),
{
}

/// After a batch, the entry under a key is what the last write to that key
/// left there; a key that no write of the batch touches keeps its entry.
pub proof fn law_last_write_wins(s: StoreView, ws: Seq<WriteSpec>, t: Table, key: Seq<u8>)
    ensures
        (forall|j: int| 0 <= j < ws.len() ==> !(#[trigger] ws[j]).touches(t, key)) ==> entry(
            s.apply_all(ws).table(t),
            key,
        ) == entry(s.table(t), key),
        forall|i: int|
            0 <= i < ws.len() && (#[trigger] ws[i]).touches(t, key) && (forall|j: int|
                i < j < ws.len() ==> !(#[trigger] ws[j]).touches(t, key)) ==> entry(
                s.apply_all(ws).table(t),
                key,
            ) == ws[i].result(),
    decreases ws.len(),
{
    if ws.len() > 0 {
        let prefix = ws.drop_last();
        law_last_write_wins(s, prefix, t, key);
        law_write_frame(s.apply_all(prefix), ws.last(), t, key);
        assert forall|i: int|
            0 <= i < ws.len() && (#[trigger] ws[i]).touches(t, key) && (forall|j: int|
                i < j < ws.len() ==> !(#[trigger] ws[j]).touches(t, key)) implies entry(
            s.apply_all(ws).table(t),
            key,
        ) == ws[i].result() by {
            if i < ws.len() - 1 {
                assert(!ws[ws.len() - 1].touches(t, key));
                assert(prefix[i] == ws[i]);
                assert forall|j: int| i < j < prefix.len() implies !(#[trigger] prefix[j]).touches(
                    t,
                    key,
                ) by {
                    assert(prefix[j] == ws[j]);
                }
            }
        }
        if forall|j: int| 0 <= j < ws.len() ==> !(#[trigger] ws[j]).touches(t, key) {
            assert forall|j: int| 0 <= j < prefix.len() implies !(#[trigger] prefix[j]).touches(
                t,
                key,
            ) by {
                assert(prefix[j] == ws[j]);
            }
            assert(!ws[ws.len() - 1].touches(t, key));
        }
    }
}

/// Reading a file's metadata after recording it gives back that metadata.
pub proof fn law_read_after_upsert(
    s: StoreView,
    path: Seq<char>,
    md: FileMetadata,
    l: TableLookup,
    r: Result<Option<FileMetadata>, StateError>,
)
    requires
        l.reflects(s.apply(upsert_file_effect(path, md)).files, file_key_spec(path)),
        file_metadata_read(l, r),
    ensures
        r == Ok::<Option<FileMetadata>, StateError>(Some(md)),
{
    lemma_metadata_roundtrip(md, md);
    if let Ok(Some(other)) = r {
        lemma_metadata_roundtrip(md, other);
    }
}

/// Reading a file's metadata after removing it gives nothing.
pub proof fn law_read_after_remove_file(
    s: StoreView,
    path: Seq<char>,
    l: TableLookup,
    r: Result<Option<FileMetadata>, StateError>,
)
    requires
        l.reflects(s.apply(remove_file_effect(path)).files, file_key_spec(path)),
        file_metadata_read(l, r),
    ensures
        r == Ok::<Option<FileMetadata>, StateError>(None),
{
}

/// Recording one path's metadata leaves every other path's entry unchanged.
pub proof fn law_paths_independent(s: StoreView, p: Seq<char>, md: FileMetadata, q: Seq<char>)
    requires
        p != q,
    ensures
        entry(s.apply(upsert_file_effect(p, md)).files, file_key_spec(q)) == entry(
            s.files,
            file_key_spec(q),
        ),
        entry(s.apply(remove_file_effect(p)).files, file_key_spec(q)) == entry(
            s.files,
            file_key_spec(q),
        ),
{
    lemma_file_key_injective(p, q);
}

/// Reading a reference count after setting it gives the count that was set.
pub proof fn law_refcount_after_set(s: StoreView, hash: Seq<u8>, count: u64, l: TableLookup)
    requires
        l.reflects(s.apply(set_cas_refcount_effect(hash, count)).cas, hash),
    ensures
        refcount_lookup_well_formed(l),
        refcount_read(l) == count,
{
    lemma_refcount_roundtrip(count);
}

/// Reading a reference count after removing it gives 0.
pub proof fn law_refcount_after_remove(s: StoreView, hash: Seq<u8>, l: TableLookup)
    requires
        l.reflects(s.apply(remove_cas_refcount_effect(hash)).cas, hash),
    ensures
        refcount_read(l) == 0,
{
}

/// An inode is vaulted after it is marked and not vaulted after it is unmarked.
pub proof fn law_vaulted_after_mark_and_unmark(
    s: StoreView,
    inode: u64,
    marked: TableLookup,
    unmarked: TableLookup,
)
    requires
        marked.reflects(s.apply(mark_inode_vaulted_effect(inode)).vaulted, inode_key_spec(inode)),
        unmarked.reflects(
            s.apply(unmark_inode_vaulted_effect(inode)).vaulted,
            inode_key_spec(inode),
        ),
    ensures
        marked is Found,
        !(unmarked is Found),
{
}

/// Every queued operation writes exactly what the matching single
/// operation writes.
pub proof fn law_op_effects_match_single_operations(op: DbOp)
    ensures
        op matches DbOp::UpsertFile(path, md) ==> op.effect() == upsert_file_effect(path@, md),
        op matches DbOp::SetCasRefcount(hash, count) ==> op.effect() == set_cas_refcount_effect(
            hash@,
            count,
        ),
        op matches DbOp::MarkInodeVaulted(inode) ==> op.effect() == mark_inode_vaulted_effect(
            inode,
        ),
        op matches DbOp::RemoveFileFromIndex(path) ==> op.effect() == remove_file_effect(path@),
        op matches DbOp::UnmarkInodeVaulted(inode) ==> op.effect() == unmark_inode_vaulted_effect(
            inode,
        ),
        op matches DbOp::RemoveCasRefcount(hash) ==> op.effect() == remove_cas_refcount_effect(
            hash@,
        ),
{
}

/// Operation `i` of a batch is the last one that writes `key` of `t`.
pub open spec fn last_to_touch(ops: Seq<DbOp>, i: int, t: Table, key: Seq<u8>) -> bool {
    &&& 0 <= i < ops.len()
    &&& ops[i].effect().touches(t, key)
    &&& forall|j: int| i < j < ops.len() ==> !(#[trigger] ops[j].effect()).touches(t, key)
}

proof fn lemma_batch_entry(s: StoreView, ops: Seq<DbOp>, i: int, t: Table, key: Seq<u8>)
    requires
        last_to_touch(ops, i, t, key),
    ensures
        entry(s.apply_all(ops_effects(ops)).table(t), key) == ops[i].effect().result(),
{
    let ws = ops_effects(ops);
    law_last_write_wins(s, ws, t, key);
    assert(ws[i] == ops[i].effect());
    assert forall|j: int| i < j < ws.len() implies !(#[trigger] ws[j]).touches(t, key) by {
        assert(ws[j] == ops[j].effect());
    }
}

/// After a batch whose last write to a path records `md` for it, reading
/// the path gives back `md` itself, every field of it.
pub proof fn law_batch_upsert_reads_back(
    s: StoreView,
    ops: Seq<DbOp>,
    i: int,
    path: String,
    md: FileMetadata,
    l: TableLookup,
    r: Result<Option<FileMetadata>, StateError>,
)
    requires
        0 <= i < ops.len(),
        ops[i] == DbOp::UpsertFile(path, md),
        forall|j: int|
            i < j < ops.len() ==> !(#[trigger] ops[j].effect()).touches(
                Table::FileIndex,
                file_key_spec(path@),
            ),
        l.reflects(s.apply_all(ops_effects(ops)).files, file_key_spec(path@)),
        file_metadata_read(l, r),
    ensures
        r == Ok::<Option<FileMetadata>, StateError>(Some(md)),
{
    lemma_batch_entry(s, ops, i, Table::FileIndex, file_key_spec(path@));
    lemma_metadata_roundtrip(md, md);
    if let Ok(Some(other)) = r {
        lemma_metadata_roundtrip(md, other);
    }
}

/// After a batch whose last write to a path removes it, reading the path
/// gives nothing.
pub proof fn law_batch_remove_file_reads_nothing(
    s: StoreView,
    ops: Seq<DbOp>,
    i: int,
    path: String,
    l: TableLookup,
    r: Result<Option<FileMetadata>, StateError>,
)
    requires
        0 <= i < ops.len(),
        ops[i] == DbOp::RemoveFileFromIndex(path),
        forall|j: int|
            i < j < ops.len() ==> !(#[trigger] ops[j].effect()).touches(
                Table::FileIndex,
                file_key_spec(path@),
            ),
        l.reflects(s.apply_all(ops_effects(ops)).files, file_key_spec(path@)),
        file_metadata_read(l, r),
    ensures
        r == Ok::<Option<FileMetadata>, StateError>(None),
{
    lemma_batch_entry(s, ops, i, Table::FileIndex, file_key_spec(path@));
}

/// After a batch whose last write to a hash sets its count, reading the
/// count of that hash gives that count.
pub proof fn law_batch_set_refcount_reads_back(
    s: StoreView,
    ops: Seq<DbOp>,
    i: int,
    hash: ContentHash,
    count: u64,
    l: TableLookup,
)
    requires
        0 <= i < ops.len(),
        ops[i] == DbOp::SetCasRefcount(hash, count),
        forall|j: int|
            i < j < ops.len() ==> !(#[trigger] ops[j].effect()).touches(Table::CasIndex, hash@),
        l.reflects(s.apply_all(ops_effects(ops)).cas, hash@),
    ensures
        refcount_lookup_well_formed(l),
        refcount_read(l) == count,
{
    lemma_batch_entry(s, ops, i, Table::CasIndex, hash@);
    lemma_refcount_roundtrip(count);
}

/// After a batch whose last write to a hash removes its count, reading the
/// count of that hash gives 0, whatever it was before.
pub proof fn law_batch_remove_refcount_reads_zero(
    s: StoreView,
    ops: Seq<DbOp>,
    i: int,
    hash: ContentHash,
    l: TableLookup,
)
    requires
        0 <= i < ops.len(),
        ops[i] == DbOp::RemoveCasRefcount(hash),
        forall|j: int|
            i < j < ops.len() ==> !(#[trigger] ops[j].effect()).touches(Table::CasIndex, hash@),
        l.reflects(s.apply_all(ops_effects(ops)).cas, hash@),
    ensures
        refcount_read(l) == 0,
{
    lemma_batch_entry(s, ops, i, Table::CasIndex, hash@);
}

/// After a batch whose last write to an inode marks it, the inode is
/// vaulted; when the last write unmarks it, it is not.
pub proof fn law_batch_vaulted_reads_back(
    s: StoreView,
    ops: Seq<DbOp>,
    i: int,
    inode: u64,
    l: TableLookup,
)
    requires
        0 <= i < ops.len(),
        ops[i] == DbOp::MarkInodeVaulted(inode) || ops[i] == DbOp::UnmarkInodeVaulted(inode),
        forall|j: int|
            i < j < ops.len() ==> !(#[trigger] ops[j].effect()).touches(
                Table::VaultedInodes,
                inode_key_spec(inode),
            ),
        l.reflects(s.apply_all(ops_effects(ops)).vaulted, inode_key_spec(inode)),
    ensures
        (l is Found) == (ops[i] == DbOp::MarkInodeVaulted(inode)),
{
    lemma_batch_entry(s, ops, i, Table::VaultedInodes, inode_key_spec(inode));
}

/// A batch leaves every entry that none of its operations writes as it was.
pub proof fn law_batch_leaves_untouched_entries(
    s: StoreView,
    ops: Seq<DbOp>,
    t: Table,
    key: Seq<u8>,
)
    requires
        forall|j: int| 0 <= j < ops.len() ==> !(#[trigger] ops[j].effect()).touches(t, key),
    ensures
        entry(s.apply_all(ops_effects(ops)).table(t), key) == entry(s.table(t), key),
{
    let ws = ops_effects(ops);
    law_last_write_wins(s, ws, t, key);
    assert forall|j: int| 0 <= j < ws.len() implies !(#[trigger] ws[j]).touches(t, key) by {
        assert(ws[j] == ops[j].effect());
    }
}

} // verus!
