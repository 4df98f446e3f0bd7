//! PROP-section edits that are waiting to be written into a bank file, one
//! section per file path (the path is used as given).
use vstd::prelude::*;
use crate::bank::{PropSection, PropView};
use crate::store::KeyedStore;

verus! {

/// Records `prop` as the pending PROP section of a file.
pub fn set(store: &mut KeyedStore<PropSection>, file_path: &str, prop: PropSection) -> (r: Result<
    (),
    String,
>)
    ensures
        r is Ok,
        final(store)@ == old(store)@.insert(file_path@, prop),
{
    store.insert(file_path.to_owned(), prop);
    Ok(())
}

/// The pending PROP section of a file, if any.
pub fn get(store: &KeyedStore<PropSection>, file_path: &str) -> (r: Option<PropSection>)
    ensures
        r.deep_view() == (if store@.contains_key(file_path@) {
            Some(store@[file_path@].deep_view())
        } else {
            None::<PropView>
        }),
{
    let key = file_path.to_owned();
    match store.get(&key) {
        Some(p) => Some(p.duplicate()),
        None => None,
    }
}

/// Drops the pending PROP section of a file.
pub fn clear(store: &mut KeyedStore<PropSection>, file_path: &str) -> (r: Result<(), String>)
    ensures
        r is Ok,
        final(store)@ == old(store)@.remove(file_path@),
{
    let key = file_path.to_owned();
    let _ = store.remove(&key);
    Ok(())
}

/// Removes and hands back the pending PROP section of a file.
pub fn take(store: &mut KeyedStore<PropSection>, file_path: &str) -> (r: Option<PropSection>)
    ensures
        final(store)@ == old(store)@.remove(file_path@),
        r == (if old(store)@.contains_key(file_path@) {
            Some(old(store)@[file_path@])
        } else {
            None::<PropSection>
        }),
{
    let key = file_path.to_owned();
    store.remove(&key)
}

} // verus!
