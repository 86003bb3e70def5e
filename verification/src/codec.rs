//! The byte layout of the store: the key of each table and the value stored
//! under it.
//!
//! * file index: key = UTF-8 bytes of the path, value = the metadata as
//!   bincode writes the fields `(size, modified, hash)`;
//! * content index: key = the 32 hash bytes, value = the reference count as
//!   8 little-endian bytes;
//! * vaulted inodes: key = the inode number as 8 little-endian bytes,
//!   value = the single byte `1`.

use vstd::prelude::*;
use vstd::bytes::*;
use vstd::slice::*;
use vstd::string::*;
use vstd::utf8::*;
use crate::types::{FileMetadata, ContentHash};

verus! {

broadcast use vstd::array::group_array_axioms;

#[verifier::external_type_specification]
#[verifier::external_body]
pub struct ExBincodeErrorKind(bincode::ErrorKind);

/// The bytes stored for a file's metadata.
pub open spec fn metadata_bytes(md: FileMetadata) -> Seq<u8> {
    spec_u64_to_le_bytes(md.size) + spec_u64_to_le_bytes(md.modified) + md.hash@
}

/// `bytes` holds the stored form of `md` (in its first 48 bytes).
pub open spec fn metadata_decodes_to(bytes: Seq<u8>, md: FileMetadata) -> bool {
    &&& bytes.len() >= 48
    &&& md.size == spec_u64_from_le_bytes(bytes.subrange(0, 8))
    &&& md.modified == spec_u64_from_le_bytes(bytes.subrange(8, 16))
    &&& md.hash@ == bytes.subrange(16, 48)
}

/// The key of a path in the file index: its UTF-8 bytes.
pub open spec fn file_key_spec(path: Seq<char>) -> Seq<u8> {
    encode_utf8(path)
}

/// The key of an inode in the vaulted-inode table.
pub open spec fn inode_key_spec(inode: u64) -> Seq<u8> {
    spec_u64_to_le_bytes(inode)
}

/// The value stored for a reference count.
pub open spec fn refcount_bytes(count: u64) -> Seq<u8> {
    spec_u64_to_le_bytes(count)
}

/// The value stored for a vaulted inode.
pub open spec fn vaulted_marker() -> Seq<u8> {
    seq![1u8]
}

/// `bincode::serialize` (bincode 1.3) applied to the tuple `(size, modified, hash)`.
/// Its default options write fixed-width little-endian integers and a
/// fixed-size array as its bytes in order, with no length prefix, so the
/// result is the 8 bytes of `size`, the 8 bytes of `modified`, then the 32
/// hash bytes. Writing into a `Vec` under the unlimited default size limit
/// does not fail.
#[verifier::external_body]
fn bincode_serialize_fields(size: u64, modified: u64, hash: &ContentHash) -> (r: Result<
    Vec<u8>,
    Box<bincode::ErrorKind>,
>)
    ensures
        r is Ok,
        r matches Ok(v) ==> v@ == (spec_u64_to_le_bytes(size) + spec_u64_to_le_bytes(modified) + hash@),
{
    bincode::serialize(&(size, modified, *hash))
}

/// `bincode::deserialize` (bincode 1.3) into the tuple `(u64, u64, [u8; 32])`.
/// With the default options (fixed-width little-endian integers, trailing
/// bytes allowed) it reads the first 48 bytes as two little-endian `u64`s and
/// 32 hash bytes; it fails exactly when fewer than 48 bytes are given.
#[verifier::external_body]
fn bincode_deserialize_fields(bytes: &[u8]) -> (r: Result<
    (u64, u64, ContentHash),
    Box<bincode::ErrorKind>,
>)
    ensures
        r is Ok <==> bytes@.len() >= 48,
        r matches Ok((size, modified, hash)) ==> {
            &&& size == spec_u64_from_le_bytes(bytes@.subrange(0, 8))
            &&& modified == spec_u64_from_le_bytes(bytes@.subrange(8, 16))
            &&& hash@ == bytes@.subrange(16, 48)
        },
{
    bincode::deserialize::<(u64, u64, ContentHash)>(bytes)
}

/// The stored form of a file's metadata.
pub fn encode_metadata(md: &FileMetadata) -> (bytes: Vec<u8>)
    ensures
        bytes@ == metadata_bytes(*md),
{
    match bincode_serialize_fields(md.size, md.modified, &md.hash) {
        Ok(v) => v,
        Err(_) => {
            proof {
                assert(false);
            }
            Vec::new()
        },
    }
}

/// Reads a file's metadata back from its stored form; `None` when the bytes
/// are too short to hold it.
pub fn decode_metadata(bytes: &[u8]) -> (r: Option<FileMetadata>)
    ensures
        r is Some <==> bytes@.len() >= 48,
        r matches Some(md) ==> metadata_decodes_to(bytes@, md),
{
    match bincode_deserialize_fields(bytes) {
        Ok((size, modified, hash)) => Some(FileMetadata { size, modified, hash }),
        Err(_) => None,
    }
}

/// Decoding the stored form of `md` gives back `md` and nothing else.
pub proof fn lemma_metadata_roundtrip(md: FileMetadata, other: FileMetadata)
    ensures
        metadata_decodes_to(metadata_bytes(md), other) <==> other == md,
        metadata_bytes(md).len() == 48,
{
    lemma_auto_spec_u64_to_from_le_bytes();
    let b = metadata_bytes(md);
    assert(b.subrange(0, 8) =~= spec_u64_to_le_bytes(md.size));
    assert(b.subrange(8, 16) =~= spec_u64_to_le_bytes(md.modified));
    assert(b.subrange(16, 48) =~= md.hash@);
    if metadata_decodes_to(b, other) {
        assert(other.hash =~= md.hash);
    }
}

/// A stored value holds at most one file's metadata.
pub proof fn lemma_metadata_unique(bytes: Seq<u8>, a: FileMetadata, b: FileMetadata)
    requires
        metadata_decodes_to(bytes, a),
        metadata_decodes_to(bytes, b),
    ensures
        a == b,
{
    assert(a.hash =~= b.hash);
}

/// The key of a path in the file index.
pub fn file_key(path: &str) -> (key: Vec<u8>)
    ensures
        key@ == file_key_spec(path@),
{
    path.as_bytes_vec()
}

/// The key of a hash in the content index.
pub fn cas_key(hash: &ContentHash) -> (key: Vec<u8>)
    ensures
        key@ == hash@,
{
    slice_to_vec(hash.as_slice())
}

/// The key of an inode in the vaulted-inode table.
pub fn inode_key(inode: u64) -> (key: Vec<u8>)
    ensures
        key@ == inode_key_spec(inode),
        key@.len() == 8,
{
    u64_to_le_bytes(inode)
}

/// The value stored for a reference count.
pub fn encode_refcount(count: u64) -> (value: Vec<u8>)
    ensures
        value@ == refcount_bytes(count),
        value@.len() == 8,
{
    u64_to_le_bytes(count)
}

/// Reads a reference count back from its 8 stored bytes.
pub fn decode_refcount(bytes: &[u8]) -> (count: u64)
    requires
        bytes@.len() == 8,
    ensures
        count == spec_u64_from_le_bytes(bytes@),
{
    u64_from_le_bytes(bytes)
}

/// The value stored for a vaulted inode.
pub fn vaulted_marker_value() -> (value: Vec<u8>)
    ensures
        value@ == vaulted_marker(),
{
    let mut v: Vec<u8> = Vec::new();
    v.push(1u8);
    assert(v@ =~= vaulted_marker());
    v
}

/// Distinct paths have distinct keys.
pub proof fn lemma_file_key_injective(p1: Seq<char>, p2: Seq<char>)
    ensures
        file_key_spec(p1) == file_key_spec(p2) <==> p1 == p2,
{
    encode_utf8_decode_utf8(p1);
    encode_utf8_decode_utf8(p2);
}

/// Distinct inodes have distinct keys.
pub proof fn lemma_inode_key_injective(a: u64, b: u64)
    ensures
        inode_key_spec(a) == inode_key_spec(b) <==> a == b,
{
    lemma_auto_spec_u64_to_from_le_bytes();
}

/// A stored reference count reads back as itself.
pub proof fn lemma_refcount_roundtrip(count: u64)
    ensures
        spec_u64_from_le_bytes(refcount_bytes(count)) == count,
        refcount_bytes(count).len() == 8,
{
    lemma_auto_spec_u64_to_from_le_bytes();
}

} // verus!
