//! Decisions the track table makes on clicks: sorting by a header, the
//! select-all box of the filtered rows, row highlighting, and how a long
//! ID is shown.
use vstd::prelude::*;
use crate::audio_file_info::AudioFileInfo;
use crate::columns::SortColumn;
use crate::nus3audio_file_utils::track_key;
use crate::store::KeyedStore;
use crate::text::joined;
use std::collections::HashSet;
use vstd::string::StringSliceAdditionalSpecFns;

verus! {

/// The track table.
pub struct TableRenderer;

/// The keys (`name:id`) of the rows.
pub open spec fn row_keys(files: Seq<AudioFileInfo>) -> Seq<Seq<char>> {
    files.map_values(|f: AudioFileInfo| track_key(f.name@, f.id@))
}

/// The key of a row (`name:id`).
pub fn row_key(f: &AudioFileInfo) -> (k: String)
    ensures
        k@ == track_key(f.name@, f.id@),
{
    joined(f.name.as_str(), ":", f.id.as_str())
}

impl TableRenderer {
    /// A click on a column header: the same column flips the direction, a
    /// new column sorts by it ascending.
    pub fn header_clicked(clicked: SortColumn, sort_column: &mut SortColumn, sort_ascending: &mut bool)
        ensures
            *final(sort_column) == clicked,
            *final(sort_ascending) == (if *old(sort_column) == clicked { !*old(sort_ascending) } else { true }),
    {
        if *sort_column == clicked {
            *sort_ascending = !*sort_ascending;
        } else {
            *sort_column = clicked;
            *sort_ascending = true;
        }
    }

    /// Whether every shown row is selected (the select-all box is ticked);
    /// true when no row is shown.
    pub fn all_selected(files: &Vec<AudioFileInfo>, selected: &KeyedStore<()>) -> (b: bool)
        ensures
            b == forall|i: int| 0 <= i < files@.len() ==> selected@.contains_key(#[trigger] row_keys(files@)[i]),
    {
        let mut i: usize = 0;
        while i < files.len()
            invariant
                i <= files.len(),
                forall|j: int| 0 <= j < i ==> selected@.contains_key(#[trigger] row_keys(files@)[j]),
            decreases files.len() - i,
        {
            let k = row_key(&files[i]);
            if !selected.contains_key(&k) {
                assert(row_keys(files@)[i as int] == k@);
                return false;
            }
            i += 1;
        }
        true
    }

    /// The select-all box changed: ticking selects every shown row,
    /// clearing it deselects them; other selected rows stay selected.
    pub fn set_all_selected(files: &Vec<AudioFileInfo>, selected: &mut KeyedStore<()>, checked: bool)
        ensures
            forall|k: Seq<char>| #[trigger] final(selected)@.contains_key(k) == (if row_keys(files@).contains(k) {
                checked
            } else {
                old(selected)@.contains_key(k)
            }),
    {
        let ghost keys = row_keys(files@);
        let mut i: usize = 0;
        while i < files.len()
            invariant
                i <= files.len(),
                keys == row_keys(files@),
                forall|k: Seq<char>| #[trigger] selected@.contains_key(k) == (if keys.take(i as int).contains(k) {
                    checked
                } else {
                    old(selected)@.contains_key(k)
                }),
            decreases files.len() - i,
        {
            let k = row_key(&files[i]);
            proof {
                assert(keys[i as int] == k@);
                let t1 = keys.take(i + 1);
                let t0 = keys.take(i as int);
                assert forall|x: Seq<char>| t1.contains(x) == (t0.contains(x) || x == k@) by {
                    if t1.contains(x) {
                        let j = choose|j: int| 0 <= j < t1.len() && #[trigger] t1[j] == x;
                        if j < i {
                            assert(t0[j] == x);
                        }
                    }
                    if t0.contains(x) {
                        let j = choose|j: int| 0 <= j < t0.len() && #[trigger] t0[j] == x;
                        assert(t1[j] == x);
                    }
                    if x == k@ {
                        assert(t1[i as int] == x);
                    }
                }
            }
            if checked {
                selected.insert(k, ());
            } else {
                let _ = selected.remove(&k);
            }
            i += 1;
        }
        assert(keys.take(files.len() as int) =~= keys);
    }

    /// A click on a row toggles whether the row at that position of the
    /// table is highlighted.
    pub fn row_clicked(selected_rows: &mut HashSet<usize>, row_index: usize)
        ensures
            final(selected_rows)@ == if old(selected_rows)@.contains(row_index) {
                old(selected_rows)@.remove(row_index)
            } else {
                old(selected_rows)@.insert(row_index)
            },
    {
        broadcast use vstd::std_specs::hash::group_hash_axioms;
        if selected_rows.contains(&row_index) {
            selected_rows.remove(&row_index);
        } else {
            selected_rows.insert(row_index);
        }
    }
}

/// The ID as the track table shows it: an ID of more than 20 bytes (in
/// UTF-8) is cut to the characters of its first 17 bytes, followed by `...`.
pub open spec fn short_id_of(id: Seq<char>) -> Seq<char> {
    if vstd::utf8::encode_utf8(id).len() > 20 {
        vstd::utf8::decode_utf8(vstd::utf8::encode_utf8(id).subrange(0, 17)) + "..."@
    } else {
        id
    }
}

/// The ID as the track table shows it (see `short_id_of`); a long ID must
/// have a character boundary after its 17th byte.
pub fn short_id(id: &str) -> (r: String)
    requires
        vstd::utf8::encode_utf8(id@).len() > 20 ==> vstd::utf8::is_char_boundary(vstd::utf8::encode_utf8(id@), 17),
    ensures
        r@ == short_id_of(id@),
{
    if id.as_bytes().len() > 20 {
        let (head, _) = id.split_at(17);
        proof {
            vstd::utf8::encode_utf8_decode_utf8(head@);
            assert(head.spec_bytes() == vstd::utf8::encode_utf8(head@));
            assert(head.spec_bytes() == vstd::utf8::encode_utf8(id@).subrange(0, 17));
            assert(head@ == vstd::utf8::decode_utf8(vstd::utf8::encode_utf8(id@).subrange(0, 17)));
        }
        let mut r = head.to_owned();
        r.append("...");
        proof { reveal_strlit("..."); }
        r
    } else {
        id.to_owned()
    }
}

} // verus!
