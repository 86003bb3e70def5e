//! Paths of the store: where the state database lives under a home
//! directory, and where a content object lives in the vault:
//! `<vault>/<h0>/<h1>/<hex>`, where `<hex>` is the hash in lowercase
//! hexadecimal and `<h0>`, `<h1>` are its first and second pairs of digits.

use vstd::prelude::*;
use vstd::string::*;
use crate::types::{law_hex_of_bytes_injective, byte_hex, hash_to_hex, hex_of_bytes, lemma_hex_of_bytes_layout, push_byte_hex, ContentHash};

verus! {

/// Joins one relative component onto a path: a `/` goes between them unless
/// the path is empty or already ends in `/`.
pub open spec fn path_join(base: Seq<char>, component: Seq<char>) -> Seq<char> {
    if base.len() == 0 || base.last() == '/' {
        base + component
    } else {
        base + seq!['/'] + component
    }
}

/// Appends one relative component to `path` as [`path_join`] says.
pub fn push_component(path: &mut String, component: &str)
    ensures
        final(path)@ == path_join(old(path)@, component@),
{
    proof {
        reveal_strlit("/");
    }
    let n: usize = path.as_str().unicode_len();
    let needs_separator: bool = n > 0 && path.as_str().get_char(n - 1) != '/';
    if needs_separator {
        path.append("/");
    }
    path.append(component);
    assert(final(path)@ =~= path_join(old(path)@, component@));
}

/// The vault path of the object with content hash `hash`.
pub open spec fn vault_object_path_spec(vault_location: Seq<char>, hash: Seq<u8>) -> Seq<char> {
    let hex = hex_of_bytes(hash);
    path_join(path_join(path_join(vault_location, hex.subrange(0, 2)), hex.subrange(2, 4)), hex)
}

/// A joined path starts with the base and ends with the component, with at
/// most one separator between them.
pub proof fn law_path_join_ends_with_component(base: Seq<char>, component: Seq<char>)
    ensures
        path_join(base, component).subrange(0, base.len() as int) == base,
        path_join(base, component).len() - component.len() - base.len() <= 1,
        path_join(base, component).len() >= base.len() + component.len(),
        path_join(base, component).subrange(
            path_join(base, component).len() - component.len(),
            path_join(base, component).len() as int,
        ) == component,
{
    let p = path_join(base, component);
    assert(p.subrange(0, base.len() as int) =~= base);
    assert(p.subrange(p.len() - component.len(), p.len() as int) =~= component);
}

/// Objects with different hashes live at different paths of a vault, and
/// each path ends with the full hexadecimal hash.
pub proof fn law_vault_paths_distinct(vault_location: Seq<char>, a: Seq<u8>, b: Seq<u8>)
    ensures
        ({
            let p = vault_object_path_spec(vault_location, a);
            let hex = hex_of_bytes(a);
            p.len() >= hex.len() && p.subrange(p.len() - hex.len(), p.len() as int) == hex
        }),
        a.len() == b.len() ==> (vault_object_path_spec(vault_location, a)
            == vault_object_path_spec(vault_location, b) <==> a == b),
{
    let ha = hex_of_bytes(a);
    let hb = hex_of_bytes(b);
    lemma_hex_of_bytes_layout(a);
    lemma_hex_of_bytes_layout(b);
    let ba = path_join(path_join(vault_location, ha.subrange(0, 2)), ha.subrange(2, 4));
    let bb = path_join(path_join(vault_location, hb.subrange(0, 2)), hb.subrange(2, 4));
    law_path_join_ends_with_component(ba, ha);
    law_path_join_ends_with_component(bb, hb);
    law_hex_of_bytes_injective(a, b);
    let pa = vault_object_path_spec(vault_location, a);
    let pb = vault_object_path_spec(vault_location, b);
    if a.len() == b.len() && pa == pb {
        assert(ha.len() == hb.len());
        assert(ha == pa.subrange(pa.len() - ha.len(), pa.len() as int));
    }
}

/// The vault path of the object with content hash `hash`.
pub fn vault_object_path(vault_location: &str, hash: &ContentHash) -> (path: String)
    ensures
        path@ == vault_object_path_spec(vault_location@, hash@),
{
    let hex = hash_to_hex(hash);
    let mut first = String::new();
    push_byte_hex(&mut first, hash[0]);
    let mut second = String::new();
    push_byte_hex(&mut second, hash[1]);
    proof {
        lemma_hex_of_bytes_layout(hash@);
        assert(hex_of_bytes(hash@).subrange(2 * 0int, 2 * 0int + 2) == byte_hex(hash@[0]));
        assert(hex_of_bytes(hash@).subrange(2 * 1int, 2 * 1int + 2) == byte_hex(hash@[1]));
        assert(first@ =~= byte_hex(hash@[0]));
        assert(second@ =~= byte_hex(hash@[1]));
    }
    let mut path = String::from_str(vault_location);
    push_component(&mut path, first.as_str());
    push_component(&mut path, second.as_str());
    push_component(&mut path, hex.as_str());
    path
}

/// The state database under a home directory: `<home>/.imprint/state.redb`.
pub open spec fn state_db_path_spec(home: Seq<char>) -> Seq<char> {
    path_join(path_join(home, ".imprint"@), "state.redb"@)
}

/// Where the state database lives: under `home` when it is known, else
/// under `user_profile`; `None` when neither is known.
pub fn state_db_path(home: Option<&str>, user_profile: Option<&str>) -> (path: Option<String>)
    ensures
        home matches Some(h) ==> path matches Some(p) && p@ == state_db_path_spec(h@),
        home is None ==> match user_profile {
            Some(u) => path matches Some(p) && p@ == state_db_path_spec(u@),
            None => path is None,
        },
{
    let base: &str = match home {
        Some(h) => h,
        None => match user_profile {
            Some(u) => u,
            None => {
                return None;
            },
        },
    };
    proof {
        reveal_strlit(".imprint");
        reveal_strlit("state.redb");
    }
    let mut path = String::from_str(base);
    push_component(&mut path, ".imprint");
    push_component(&mut path, "state.redb");
    Some(path)
}

} // verus!
