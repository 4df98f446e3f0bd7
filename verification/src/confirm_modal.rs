//! A yes/no confirmation dialog's state.
use vstd::prelude::*;

verus! {

/// A confirmation dialog: its text and what the user answered.
pub struct ConfirmModal {
    pub open: bool,
    pub title: String,
    pub message: String,
    pub confirmed: bool,
    pub cancelled: bool,
}

/// The dialog as built, closed with its generic text.
pub open spec fn initial_confirm(m: ConfirmModal) -> bool {
    &&& !m.open
    &&& m.title@ == "Confirm"@
    &&& m.message@ == "Are you sure you want to perform this action?"@
    &&& !m.confirmed
    &&& !m.cancelled
}

impl ConfirmModal {
    /// A closed dialog with the generic title and question.
    pub fn new() -> (m: Self)
        ensures
            initial_confirm(m),
    {
        ConfirmModal {
            open: false,
            title: "Confirm".to_string(),
            message: "Are you sure you want to perform this action?".to_string(),
            confirmed: false,
            cancelled: false,
        }
    }

    /// Shows the dialog with the given text; no answer yet.
    pub fn open(&mut self, title: &str, message: &str)
        ensures
            final(self).open,
            final(self).title@ == title@,
            final(self).message@ == message@,
            !final(self).confirmed,
            !final(self).cancelled,
    {
        self.title = title.to_string();
        self.message = message.to_string();
        self.open = true;
        self.confirmed = false;
        self.cancelled = false;
    }

    /// Hides the dialog; the answer is kept.
    pub fn close(&mut self)
        ensures
            !final(self).open,
            final(self).title == old(self).title,
            final(self).message == old(self).message,
            final(self).confirmed == old(self).confirmed,
            final(self).cancelled == old(self).cancelled,
    {
        self.open = false;
    }

    /// Forgets the answer.
    pub fn reset_state(&mut self)
        ensures
            final(self).open == old(self).open,
            final(self).title == old(self).title,
            final(self).message == old(self).message,
            !final(self).confirmed,
            !final(self).cancelled,
    {
        self.confirmed = false;
        self.cancelled = false;
    }
}

impl Default for ConfirmModal {
    fn default() -> (m: Self)
        ensures
            initial_confirm(m),
    {
        ConfirmModal::new()
    }
}

} // verus!
