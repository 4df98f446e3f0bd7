//! Group-name edits that are waiting to be written into a bank file, one
//! list per file.
use vstd::prelude::*;
use crate::store::KeyedStore;
use crate::text::{copy_strings, normalized_path, normalized_path_string};

verus! {

/// Key under which a file's pending names are kept.
pub fn normalize_key(file_path: &str) -> (k: String)
    ensures
        k@ == normalized_path(file_path@),
{
    normalized_path_string(file_path)
}

/// The pending group names of a file, if any.
pub fn get(store: &KeyedStore<Vec<String>>, file_path: &str) -> (r: Option<Vec<String>>)
    ensures
        r.deep_view() == (if store@.contains_key(normalized_path(file_path@)) {
            Some(store@[normalized_path(file_path@)].deep_view())
        } else {
            None::<Seq<Seq<char>>>
        }),
{
    let key = normalize_key(file_path);
    match store.get(&key) {
        Some(names) => {
            let c = copy_strings(names);
            assert(c.deep_view() =~= names.deep_view());
            Some(c)
        },
        None => None,
    }
}

/// Records `names` as the pending group names of a file, replacing earlier ones.
pub fn set(store: &mut KeyedStore<Vec<String>>, file_path: &str, names: Vec<String>) -> (r:
    Result<(), String>)
    ensures
        r is Ok,
        final(store)@ == old(store)@.insert(normalized_path(file_path@), names),
{
    let key = normalize_key(file_path);
    store.insert(key, names);
    Ok(())
}

/// Drops the pending group names of a file.
pub fn clear(store: &mut KeyedStore<Vec<String>>, file_path: &str) -> (r: Result<(), String>)
    ensures
        r is Ok,
        final(store)@ == old(store)@.remove(normalized_path(file_path@)),
{
    let key = normalize_key(file_path);
    let _ = store.remove(&key);
    Ok(())
}

/// Whether a file has pending group names.
pub fn has(store: &KeyedStore<Vec<String>>, file_path: &str) -> (b: bool)
    ensures
        b == store@.contains_key(normalized_path(file_path@)),
{
    let key = normalize_key(file_path);
    store.contains_key(&key)
}

/// What is set for a file is what is read back for it, under any spelling
/// with the same key; after clearing, nothing is pending for it.
pub proof fn law_set_then_get(m: Map<Seq<char>, Vec<String>>, path: Seq<char>, other: Seq<char>, v: Vec<String>)
    requires
        normalized_path(other) == normalized_path(path),
    ensures
        m.insert(normalized_path(path), v).contains_key(normalized_path(other)),
        m.insert(normalized_path(path), v)[normalized_path(other)] == v,
        !m.insert(normalized_path(path), v).remove(normalized_path(other)).contains_key(normalized_path(path)),
{
}

} // verus!
