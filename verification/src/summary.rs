//! The vault summary: how many paths are tracked, which stored objects are
//! shared, and what deduplication saves.
//!
//! It is computed in three steps around the caller's reads:
//! 1. [`index_files`] reads every file-index value (in key order) and keeps,
//!    for each content hash, the size of the last file seen with it;
//! 2. [`vault_candidates`] picks the content-index entries (in key order)
//!    with a positive reference count whose hash belongs to a tracked file;
//! 3. the caller looks up each candidate's object in the vault, and
//!    [`tally_vault`] adds up the objects that exist.

use vstd::prelude::*;
use vstd::bytes::*;
use crate::codec::{decode_metadata, decode_refcount, lemma_metadata_unique, metadata_decodes_to};
use crate::store::StateError;
use crate::types::{ContentHash, FileMetadata};

verus! {

broadcast use vstd::array::group_array_axioms;

/// The metadata held by a stored file-index value.
pub open spec fn stored_metadata(value: Seq<u8>) -> FileMetadata {
    choose|md: FileMetadata| metadata_decodes_to(value, md)
}

/// Every value holds file metadata.
pub open spec fn all_hold_metadata(values: Seq<Vec<u8>>) -> bool {
    forall|i: int| 0 <= i < values.len() ==> (#[trigger] values[i])@.len() >= 48
}

/// For each content hash, the size recorded by the last value with that hash.
pub open spec fn sizes_by_hash(values: Seq<Vec<u8>>) -> Map<Seq<u8>, u64>
    decreases values.len(),
{
    if values.len() == 0 {
        Map::empty()
    } else {
        let md = stored_metadata(values.last()@);
        sizes_by_hash(values.drop_last()).insert(md.hash@, md.size)
    }
}

/// Hash-to-size pairs, the later pair for a hash overriding the earlier.
pub open spec fn pairs_map(pairs: Seq<(ContentHash, u64)>) -> Map<Seq<u8>, u64>
    decreases pairs.len(),
{
    if pairs.len() == 0 {
        Map::empty()
    } else {
        pairs_map(pairs.drop_last()).insert(pairs.last().0@, pairs.last().1)
    }
}

/// Pairs after position `i` that all have another hash do not change what
/// the map says of `key`.
proof fn lemma_pairs_map_suffix(pairs: Seq<(ContentHash, u64)>, key: Seq<u8>, i: int)
    requires
        0 <= i <= pairs.len(),
        forall|j: int| i <= j < pairs.len() ==> (#[trigger] pairs[j]).0@ != key,
    ensures
        pairs_map(pairs).contains_key(key) == pairs_map(pairs.take(i)).contains_key(key),
        pairs_map(pairs).contains_key(key) ==> pairs_map(pairs)[key] == pairs_map(
            pairs.take(i),
        )[key],
    decreases pairs.len(),
{
    if i == pairs.len() {
        assert(pairs.take(i) =~= pairs);
    } else {
        let prefix = pairs.drop_last();
        assert(pairs[pairs.len() - 1].0@ != key);
        assert forall|j: int| i <= j < prefix.len() implies (#[trigger] prefix[j]).0@ != key by {
            assert(prefix[j] == pairs[j]);
        }
        lemma_pairs_map_suffix(prefix, key, i);
        assert(prefix.take(i) =~= pairs.take(i));
    }
}

/// Whether two hashes are the same.
pub fn hashes_equal(a: &ContentHash, b: &ContentHash) -> (same: bool)
    ensures
        same == (a@ == b@),
{
    let mut j: usize = 0;
    while j < 32
        invariant
            j <= 32,
            a@.len() == 32,
            b@.len() == 32,
            forall|k: int| 0 <= k < j ==> a@[k] == b@[k],
        decreases 32 - j,
    {
        if a[j] != b[j] {
            return false;
        }
        j = j + 1;
    }
    assert(a@ =~= b@);
    true
}

/// For each content hash, a file size.
pub struct HashSizes {
    pairs: Vec<(ContentHash, u64)>,
}

impl View for HashSizes {
    type V = Map<Seq<u8>, u64>;

    closed spec fn view(&self) -> Map<Seq<u8>, u64> {
        pairs_map(self.pairs@)
    }
}

impl HashSizes {
    /// No sizes yet.
    pub fn new() -> (sizes: Self)
        ensures
            sizes@ == Map::<Seq<u8>, u64>::empty(),
    {
        HashSizes { pairs: Vec::new() }
    }

    /// Records `size` for `hash`, replacing any earlier size.
    pub fn insert(&mut self, hash: ContentHash, size: u64)
        ensures
            final(self)@ == old(self)@.insert(hash@, size),
    {
        self.pairs.push((hash, size));
        assert(self.pairs@.drop_last() =~= old(self).pairs@);
    }

    /// The size recorded for `hash`.
    pub fn get(&self, hash: &ContentHash) -> (size: Option<u64>)
        ensures
            size == (if self@.contains_key(hash@) {
                Some(self@[hash@])
            } else {
                None::<u64>
            }),
    {
        let mut i: usize = self.pairs.len();
        while i > 0
            invariant
                i <= self.pairs@.len(),
                forall|j: int| i <= j < self.pairs@.len() ==> (#[trigger] self.pairs@[j]).0@ != hash@,
            decreases i,
        {
            let pair = &self.pairs[i - 1];
            if hashes_equal(&pair.0, hash) {
                proof {
                    lemma_pairs_map_suffix(self.pairs@, hash@, i as int);
                    assert(self.pairs@.take(i as int).drop_last() =~= self.pairs@.take(i - 1));
                }
                return Some(pair.1);
            }
            i = i - 1;
        }
        proof {
            lemma_pairs_map_suffix(self.pairs@, hash@, 0);
        }
        None
    }
}

/// What the file index says: how many paths it tracks, and the size of
/// each content hash.
pub struct FileIndexSummary {
    pub tracked_paths: usize,
    pub sizes: HashSizes,
}

/// Reads every file-index value, in key order. `None` stands for a missing
/// file index.
pub fn index_files(file_values: &Option<Vec<Vec<u8>>>) -> (r: Result<FileIndexSummary, StateError>)
    ensures
        file_values is None ==> r == Err::<FileIndexSummary, StateError>(StateError::NoVault),
        file_values matches Some(values) ==> {
            &&& r is Ok <==> all_hold_metadata(values@)
            &&& !all_hold_metadata(values@) ==> r == Err::<FileIndexSummary, StateError>(
                StateError::CorruptMetadata,
            )
            &&& r matches Ok(summary) ==> {
                &&& summary.tracked_paths == values@.len()
                &&& summary.sizes@ == sizes_by_hash(values@)
            }
        },
{
    let values = match file_values {
        None => {
            return Err(StateError::NoVault);
        },
        Some(values) => values,
    };
    let mut sizes = HashSizes::new();
    let mut i: usize = 0;
    while i < values.len()
        invariant
            *file_values == Some(*values),
            i <= values@.len(),
            all_hold_metadata(values@.take(i as int)),
            sizes@ == sizes_by_hash(values@.take(i as int)),
        decreases values@.len() - i,
    {
        match decode_metadata(values[i].as_slice()) {
            Some(md) => {
                proof {
                    let b = values@[i as int]@;
                    lemma_metadata_unique(b, md, stored_metadata(b));
                    assert(values@.take(i + 1).drop_last() =~= values@.take(i as int));
                    assert(values@.take(i + 1).last() == values@[i as int]);
                    assert forall|j: int| 0 <= j < i + 1 implies (#[trigger] values@.take(
                        i + 1,
                    )[j])@.len() >= 48 by {
                        if j < i {
                            assert(values@.take(i + 1)[j] == values@.take(i as int)[j]);
                        }
                    }
                }
                sizes.insert(md.hash, md.size);
            },
            None => {
                proof {
                    assert(!all_hold_metadata(values@)) by {
                        assert(values@[i as int]@.len() < 48);
                    }
                }
                return Err(StateError::CorruptMetadata);
            },
        }
        i = i + 1;
    }
    assert(values@.take(values@.len() as int) =~= values@);
    Ok(FileIndexSummary { tracked_paths: values.len(), sizes })
}

/// A stored object that may save space: its hash, the size of the files
/// that share it, and its reference count.
#[derive(Clone, Copy, Debug, PartialEq, Eq)]
pub struct VaultCandidate {
    pub hash: ContentHash,
    pub size: u64,
    pub refcount: u64,
}

/// Each content-index key is a hash and each value a stored count.
pub open spec fn cas_entries_well_formed(entries: Seq<(Vec<u8>, Vec<u8>)>) -> bool {
    forall|i: int|
        0 <= i < entries.len() ==> (#[trigger] entries[i]).0@.len() == 32 && entries[i].1@.len()
            == 8
}

/// The entries, in order, whose count is positive and whose hash has a
/// size: as (hash, size, count).
pub open spec fn candidates_spec(
    entries: Seq<(Vec<u8>, Vec<u8>)>,
    sizes: Map<Seq<u8>, u64>,
) -> Seq<(Seq<u8>, u64, u64)>
    decreases entries.len(),
{
    if entries.len() == 0 {
        Seq::empty()
    } else {
        let rest = candidates_spec(entries.drop_last(), sizes);
        let key = entries.last().0@;
        let count = spec_u64_from_le_bytes(entries.last().1@);
        if count > 0 && sizes.contains_key(key) {
            rest.push((key, sizes[key], count))
        } else {
            rest
        }
    }
}

pub open spec fn candidate_views(cs: Seq<VaultCandidate>) -> Seq<(Seq<u8>, u64, u64)> {
    cs.map_values(|c: VaultCandidate| (c.hash@, c.size, c.refcount))
}

/// The hash held in a 32-byte key.
fn key_to_hash(key: &Vec<u8>) -> (hash: ContentHash)
    requires
        key@.len() == 32,
    ensures
        hash@ == key@,
{
    let mut hash: ContentHash = [0u8; 32];
    let mut j: usize = 0;
    while j < 32
        invariant
            j <= 32,
            key@.len() == 32,
            hash@.len() == 32,
            forall|k: int| 0 <= k < j ==> hash@[k] == key@[k],
        decreases 32 - j,
    {
        hash[j] = key[j];
        j = j + 1;
    }
    assert(hash@ =~= key@);
    hash
}

/// Picks the content-index entries (in key order) that may save space.
/// `None` stands for a missing content index, which gives none.
pub fn vault_candidates(
    cas_entries: &Option<Vec<(Vec<u8>, Vec<u8>)>>,
    sizes: &HashSizes,
) -> (candidates: Vec<VaultCandidate>)
    requires
        cas_entries matches Some(entries) ==> cas_entries_well_formed(entries@),
    ensures
        cas_entries is None ==> candidates@.len() == 0,
        cas_entries matches Some(entries) ==> candidate_views(candidates@) == candidates_spec(
            entries@,
            sizes@,
        ),
{
    let mut out: Vec<VaultCandidate> = Vec::new();
    let entries = match cas_entries {
        None => {
            return out;
        },
        Some(entries) => entries,
    };
    let mut i: usize = 0;
    while i < entries.len()
        invariant
            i <= entries@.len(),
            cas_entries_well_formed(entries@),
            candidate_views(out@) == candidates_spec(entries@.take(i as int), sizes@),
        decreases entries@.len() - i,
    {
        let entry = &entries[i];
        assert(entries@[i as int].0@.len() == 32);
        let count = decode_refcount(entry.1.as_slice());
        let ghost before = out@;
        proof {
            assert(entries@.take(i + 1).drop_last() =~= entries@.take(i as int));
            assert(entries@.take(i + 1).last() == entries@[i as int]);
        }
        if count > 0 {
            let hash = key_to_hash(&entry.0);
            match sizes.get(&hash) {
                Some(size) => {
                    out.push(VaultCandidate { hash, size, refcount: count });
                    assert(candidate_views(out@) =~= candidate_views(before).push(
                        (hash@, size, count),
                    ));
                },
                None => {},
            }
        }
        i = i + 1;
    }
    assert(entries@.take(entries@.len() as int) =~= entries@);
    out
}

/// What sharing an object of `size` bytes among `refcount` files saves:
/// `size * (refcount - 1)`, saturating at both ends as in `u64` arithmetic.
pub open spec fn savings_of(size: u64, refcount: u64) -> u64 {
    let extra: int = if refcount == 0 {
        0
    } else {
        refcount - 1
    };
    if size * extra > u64::MAX {
        u64::MAX
    } else {
        (size * extra) as u64
    }
}

/// How many of the first `n` objects exist in the vault.
pub open spec fn objects_found(objects: Seq<Option<u64>>, n: int) -> int
    decreases n,
{
    if n <= 0 {
        0
    } else {
        objects_found(objects, n - 1) + if objects[n - 1] is Some {
            1int
        } else {
            0int
        }
    }
}

/// The total size of the first `n` objects that exist in the vault.
pub open spec fn vault_size_sum(objects: Seq<Option<u64>>, n: int) -> int
    decreases n,
{
    if n <= 0 {
        0
    } else {
        vault_size_sum(objects, n - 1) + match objects[n - 1] {
            Some(size) => size as int,
            None => 0int,
        }
    }
}

/// What the first `n` candidates whose object exists save.
pub open spec fn savings_sum(cs: Seq<VaultCandidate>, objects: Seq<Option<u64>>, n: int) -> int
    decreases n,
{
    if n <= 0 {
        0
    } else {
        savings_sum(cs, objects, n - 1) + if objects[n - 1] is Some {
            savings_of(cs[n - 1].size, cs[n - 1].refcount) as int
        } else {
            0int
        }
    }
}

proof fn lemma_sums_monotone(cs: Seq<VaultCandidate>, objects: Seq<Option<u64>>, n: int, m: int)
    requires
        0 <= n <= m,
    ensures
        vault_size_sum(objects, n) <= vault_size_sum(objects, m),
        savings_sum(cs, objects, n) <= savings_sum(cs, objects, m),
        objects_found(objects, n) <= objects_found(objects, m),
        objects_found(objects, m) <= m,
    decreases m,
{
    if m > n {
        lemma_sums_monotone(cs, objects, n, m - 1);
    } else if m > 0 {
        lemma_sums_monotone(cs, objects, m - 1, m - 1);
    }
}

/// The totals over the objects found in the vault.
#[derive(Clone, Copy, Debug, PartialEq, Eq)]
pub struct VaultTotals {
    pub objects_in_vault: usize,
    pub total_vault_size: u64,
    pub estimated_savings: u64,
}

/// Adds up the candidates whose object exists in the vault; `object_sizes[i]`
/// is the size of candidate `i`'s object, or `None` when it is missing.
pub fn tally_vault(candidates: &Vec<VaultCandidate>, object_sizes: &Vec<Option<u64>>) -> (totals:
    VaultTotals)
    requires
        candidates@.len() == object_sizes@.len(),
        vault_size_sum(object_sizes@, object_sizes@.len() as int) <= u64::MAX,
        savings_sum(candidates@, object_sizes@, object_sizes@.len() as int) <= u64::MAX,
    ensures
        totals.objects_in_vault == objects_found(object_sizes@, object_sizes@.len() as int),
        totals.total_vault_size == vault_size_sum(object_sizes@, object_sizes@.len() as int),
        totals.estimated_savings == savings_sum(
            candidates@,
            object_sizes@,
            object_sizes@.len() as int,
        ),
{
    let n: usize = object_sizes.len();
    let mut objects: usize = 0;
    let mut total: u64 = 0;
    let mut savings: u64 = 0;
    let mut i: usize = 0;
    while i < n
        invariant
            n == object_sizes@.len(),
            candidates@.len() == n,
            i <= n,
            vault_size_sum(object_sizes@, n as int) <= u64::MAX,
            savings_sum(candidates@, object_sizes@, n as int) <= u64::MAX,
            objects == objects_found(object_sizes@, i as int),
            total == vault_size_sum(object_sizes@, i as int),
            savings == savings_sum(candidates@, object_sizes@, i as int),
        decreases n - i,
    {
        proof {
            lemma_sums_monotone(candidates@, object_sizes@, i + 1, n as int);
        }
        match object_sizes[i] {
            Some(size) => {
                let c = &candidates[i];
                let extra: u64 = c.refcount.saturating_sub(1);
                let term: u64 = match c.size.checked_mul(extra) {
                    Some(p) => p,
                    None => u64::MAX,
                };
                assert(term == savings_of(c.size, c.refcount));
                objects = objects + 1;
                total = total + size;
                savings = savings + term;
            },
            None => {},
        }
        i = i + 1;
    }
    VaultTotals { objects_in_vault: objects, total_vault_size: total, estimated_savings: savings }
}

// ---------------------------------------------------------------------------
// Laws.

/// A value holding a file's metadata contributes that file's hash and size.
pub proof fn law_sizes_single(v: Vec<u8>, md: FileMetadata)
    requires
        metadata_decodes_to(v@, md),
    ensures
        sizes_by_hash(seq![v]) == Map::<Seq<u8>, u64>::empty().insert(md.hash@, md.size),
{
    lemma_metadata_unique(v@, md, stored_metadata(v@));
    assert(seq![v].drop_last() =~= Seq::<Vec<u8>>::empty());
    assert(seq![v].last() == v);
    assert(sizes_by_hash(Seq::<Vec<u8>>::empty()) == Map::<Seq<u8>, u64>::empty());
}

/// The sizes of two runs of values, one after the other: the later run
/// overrides the earlier for the hashes it has.
pub proof fn law_sizes_concat(a: Seq<Vec<u8>>, b: Seq<Vec<u8>>)
    ensures
        sizes_by_hash(a + b) == sizes_by_hash(a).union_prefer_right(sizes_by_hash(b)),
    decreases b.len(),
{
    if b.len() == 0 {
        assert(a + b =~= a);
        assert(sizes_by_hash(a).union_prefer_right(sizes_by_hash(b)) =~= sizes_by_hash(a));
    } else {
        law_sizes_concat(a, b.drop_last());
        assert((a + b).drop_last() =~= a + b.drop_last());
        assert((a + b).last() == b.last());
        let md = stored_metadata(b.last()@);
        assert(sizes_by_hash(a + b) =~= sizes_by_hash(a).union_prefer_right(sizes_by_hash(b)));
    }
}

/// One content-index entry is a candidate exactly when its count is
/// positive and its hash has a size.
pub proof fn law_candidates_single(e: (Vec<u8>, Vec<u8>), sizes: Map<Seq<u8>, u64>)
    ensures
        candidates_spec(seq![e], sizes) == (if spec_u64_from_le_bytes(e.1@) > 0
            && sizes.contains_key(e.0@) {
            seq![(e.0@, sizes[e.0@], spec_u64_from_le_bytes(e.1@))]
        } else {
            Seq::<(Seq<u8>, u64, u64)>::empty()
        }),
{
    assert(seq![e].drop_last() =~= Seq::<(Vec<u8>, Vec<u8>)>::empty());
    assert(seq![e].last() == e);
    assert(candidates_spec(Seq::<(Vec<u8>, Vec<u8>)>::empty(), sizes) == Seq::<(Seq<u8>, u64, u64)>::empty());
    assert(Seq::<(Seq<u8>, u64, u64)>::empty().push(
        (e.0@, sizes[e.0@], spec_u64_from_le_bytes(e.1@)),
    ) =~= seq![(e.0@, sizes[e.0@], spec_u64_from_le_bytes(e.1@))]);
}

/// Entries are picked one by one: the candidates of two runs of entries are
/// the candidates of the first followed by those of the second.
pub proof fn law_candidates_concat(
    a: Seq<(Vec<u8>, Vec<u8>)>,
    b: Seq<(Vec<u8>, Vec<u8>)>,
    sizes: Map<Seq<u8>, u64>,
)
    ensures
        candidates_spec(a + b, sizes) == candidates_spec(a, sizes) + candidates_spec(b, sizes),
    decreases b.len(),
{
    if b.len() == 0 {
        assert(a + b =~= a);
        assert(candidates_spec(a, sizes) + candidates_spec(b, sizes) =~= candidates_spec(a, sizes));
    } else {
        law_candidates_concat(a, b.drop_last(), sizes);
        assert((a + b).drop_last() =~= a + b.drop_last());
        assert((a + b).last() == b.last());
        let key = b.last().0@;
        let count = spec_u64_from_le_bytes(b.last().1@);
        if count > 0 && sizes.contains_key(key) {
            assert(candidates_spec(a, sizes) + candidates_spec(b.drop_last(), sizes).push(
                (key, sizes[key], count),
            ) =~= (candidates_spec(a, sizes) + candidates_spec(b.drop_last(), sizes)).push(
                (key, sizes[key], count),
            ));
        }
    }
}

proof fn lemma_sums_depend_on_prefix(
    cs: Seq<VaultCandidate>,
    a: Seq<Option<u64>>,
    b: Seq<Option<u64>>,
    n: int,
)
    requires
        forall|i: int| 0 <= i < n ==> a[i] == b[i],
    ensures
        objects_found(a, n) == objects_found(b, n),
        vault_size_sum(a, n) == vault_size_sum(b, n),
        savings_sum(cs, a, n) == savings_sum(cs, b, n),
    decreases n,
{
    if n > 0 {
        lemma_sums_depend_on_prefix(cs, a, b, n - 1);
    }
}

/// Each object is counted on its own: taking one object out of the vault
/// lowers the count by one and the totals by that object's size and saving
/// when it was present, and changes nothing when it was missing, whatever
/// the other objects are.
pub proof fn law_tally_counts_each_object(
    cs: Seq<VaultCandidate>,
    objects: Seq<Option<u64>>,
    n: int,
    k: int,
)
    requires
        0 <= k < n <= objects.len(),
    ensures
        objects_found(objects, n) == objects_found(objects.update(k, None), n) + (if objects[k] is Some {
            1int
        } else {
            0int
        }),
        vault_size_sum(objects, n) == vault_size_sum(objects.update(k, None), n) + match objects[k] {
            Some(size) => size as int,
            None => 0int,
        },
        savings_sum(cs, objects, n) == savings_sum(cs, objects.update(k, None), n) + (if objects[k] is Some {
            savings_of(cs[k].size, cs[k].refcount) as int
        } else {
            0int
        }),
    decreases n,
{
    let other = objects.update(k, None);
    if k == n - 1 {
        lemma_sums_depend_on_prefix(cs, objects, other, n - 1);
    } else {
        law_tally_counts_each_object(cs, objects, n - 1, k);
        assert(other[n - 1] == objects[n - 1]);
    }
}

/// With no object in the vault, nothing is counted.
pub proof fn law_tally_nothing_present(cs: Seq<VaultCandidate>, objects: Seq<Option<u64>>, n: int)
    requires
        0 <= n <= objects.len(),
        forall|i: int| 0 <= i < n ==> (#[trigger] objects[i]) is None,
    ensures
        objects_found(objects, n) == 0,
        vault_size_sum(objects, n) == 0,
        savings_sum(cs, objects, n) == 0,
    decreases n,
{
    if n > 0 {
        law_tally_nothing_present(cs, objects, n - 1);
    }
}

/// An object held by at most one file saves nothing; each further file
/// sharing it saves `size` more bytes, up to the largest `u64`.
pub proof fn law_savings_grow_by_size(size: u64, refcount: u64)
    ensures
        savings_of(size, 0) == 0,
        savings_of(size, 1) == 0,
        1 <= refcount < u64::MAX ==> savings_of(size, (refcount + 1) as u64) as int == if savings_of(
            size,
            refcount,
        ) + size > u64::MAX {
            u64::MAX as int
        } else {
            savings_of(size, refcount) + size
        },
{
    if 1 <= refcount < u64::MAX {
        let r = refcount as int;
        assert(size * r == size * (r - 1) + size) by (nonlinear_arith);
        assert(size * (r - 1) >= 0) by (nonlinear_arith)
            requires
                r >= 1,
        ;
    }
}

} // verus!
