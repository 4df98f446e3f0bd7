//! Tone-descriptor edits that are waiting to be written into a bank file,
//! one list per file.
use vstd::prelude::*;
use crate::bank::{copy_tones, ToneDes, ToneView};
use crate::store::KeyedStore;
use crate::text::{normalized_path, normalized_path_string};

verus! {

/// Key under which a file's pending tones are kept.
pub fn normalize_key(file_path: &str) -> (k: String)
    ensures
        k@ == normalized_path(file_path@),
{
    normalized_path_string(file_path)
}

/// The pending tones of a file, if any.
pub fn get(store: &KeyedStore<Vec<ToneDes>>, file_path: &str) -> (r: Option<Vec<ToneDes>>)
    ensures
        r.deep_view() == (if store@.contains_key(normalized_path(file_path@)) {
            Some(store@[normalized_path(file_path@)].deep_view())
        } else {
            None::<Seq<ToneView>>
        }),
{
    let key = normalize_key(file_path);
    match store.get(&key) {
        Some(tones) => Some(copy_tones(tones)),
        None => None,
    }
}

/// Records `tones` as the pending tones of a file, replacing earlier ones.
pub fn set(store: &mut KeyedStore<Vec<ToneDes>>, file_path: &str, tones: Vec<ToneDes>) -> (r:
    Result<(), String>)
    ensures
        r is Ok,
        final(store)@ == old(store)@.insert(normalized_path(file_path@), tones),
{
    let key = normalize_key(file_path);
    store.insert(key, tones);
    Ok(())
}

/// Drops the pending tones of a file.
pub fn clear(store: &mut KeyedStore<Vec<ToneDes>>, file_path: &str) -> (r: Result<(), String>)
    ensures
        r is Ok,
        final(store)@ == old(store)@.remove(normalized_path(file_path@)),
{
    let key = normalize_key(file_path);
    let _ = store.remove(&key);
    Ok(())
}

/// Whether a file has pending tones.
pub fn has(store: &KeyedStore<Vec<ToneDes>>, file_path: &str) -> (b: bool)
    ensures
        b == store@.contains_key(normalized_path(file_path@)),
{
    let key = normalize_key(file_path);
    store.contains_key(&key)
}

/// What is set for a file is what is read back for it, under any spelling
/// with the same key; after clearing, nothing is pending for it.
pub proof fn law_set_then_get(m: Map<Seq<char>, Vec<ToneDes>>, path: Seq<char>, other: Seq<char>, v: Vec<ToneDes>)
    requires
        normalized_path(other) == normalized_path(path),
    ensures
        m.insert(normalized_path(path), v).contains_key(normalized_path(other)),
        m.insert(normalized_path(path), v)[normalized_path(other)] == v,
        !m.insert(normalized_path(path), v).remove(normalized_path(other)).contains_key(normalized_path(path)),
{
}

} // verus!
