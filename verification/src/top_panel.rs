//! The top menu bar: its message dialog and the decisions of its save
//! entries.
use vstd::prelude::*;
use crate::replace_utils::{is_bank_path, is_nus3bank_path};

verus! {

/// The top menu bar.
pub struct TopPanel;

/// The message dialog: whether it is open, its text, whether it reports an
/// error, and links shown under the message as (label, address).
pub struct ModalInfo {
    pub open: bool,
    pub title: String,
    pub message: String,
    pub is_error: bool,
    pub links: Vec<(String, String)>,
}

impl ModalInfo {
    /// A closed dialog with no text.
    pub fn new() -> (m: Self)
        ensures
            !m.open && m.title@.len() == 0 && m.message@.len() == 0 && !m.is_error && m.links@.len() == 0,
    {
        ModalInfo { open: false, title: String::new(), message: String::new(), is_error: false, links: Vec::new() }
    }
}

/// Opens the dialog with a message and no links.
pub fn show_modal(modal: &mut ModalInfo, title: &str, message: &str, is_error: bool)
    ensures
        final(modal).open,
        final(modal).title@ == title@,
        final(modal).message@ == message@,
        final(modal).is_error == is_error,
        final(modal).links@.len() == 0,
{
    modal.open = true;
    modal.title = title.to_string();
    modal.message = message.to_string();
    modal.is_error = is_error;
    modal.links = Vec::new();
}

/// Opens the dialog with a message and links under it.
pub fn show_modal_with_links(modal: &mut ModalInfo, title: &str, message: &str, links: Vec<(String, String)>, is_error: bool)
    ensures
        final(modal).open,
        final(modal).title@ == title@,
        final(modal).message@ == message@,
        final(modal).is_error == is_error,
        final(modal).links == links,
{
    modal.open = true;
    modal.title = title.to_string();
    modal.message = message.to_string();
    modal.is_error = is_error;
    modal.links = links;
}

/// What "Save changes" does.
pub enum SaveStep {
    /// No file is selected: the dialog reports it.
    NoFileSelected,
    /// Nothing is pending for the selected file: the dialog says so.
    NoPendingChanges,
    /// The pending changes are written into this file.
    Save(String),
}

/// "Save changes" checks first that a file is selected, then that something
/// is pending, and only then saves into the selected file.
pub fn save_step(selected: &Option<String>, has_pending: bool) -> (s: SaveStep)
    ensures
        match selected {
            None => s is NoFileSelected,
            Some(p) => if !has_pending {
                s is NoPendingChanges
            } else {
                s matches SaveStep::Save(q) && q@ == p@
            },
        },
{
    match selected {
        None => SaveStep::NoFileSelected,
        Some(p) => if !has_pending {
            SaveStep::NoPendingChanges
        } else {
            SaveStep::Save(p.clone())
        },
    }
}

/// Which kind of file the "Save as" entry writes (its label and file
/// filter follow from it).
#[derive(Clone, Copy, Debug, PartialEq, Eq, Structural)]
pub enum SaveTarget {
    /// The selected file is a sound bank.
    Nus3bank,
    /// The selected file is a NUS3AUDIO file.
    Nus3audio,
    /// No file is selected (the generic label, NUS3AUDIO filter).
    Generic,
}

/// The "Save as" target: by the selected file's name ending in `.nus3bank`,
/// ignoring case.
pub fn save_target(selected: &Option<String>) -> (t: SaveTarget)
    ensures
        t == match selected {
            None => SaveTarget::Generic,
            Some(p) => if is_bank_path(p@) { SaveTarget::Nus3bank } else { SaveTarget::Nus3audio },
        },
{
    match selected {
        None => SaveTarget::Generic,
        Some(p) => if is_nus3bank_path(p.as_str()) {
            SaveTarget::Nus3bank
        } else {
            SaveTarget::Nus3audio
        },
    }
}

} // verus!
