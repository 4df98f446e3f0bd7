//! Which update windows are open: the one-time "new version" notice and the
//! release history browser, with the release data they show.
use vstd::prelude::*;

verus! {

/// The update windows' state; `P` is the release data shown.
pub struct UpdateLogState<P> {
    /// The "new version available" notice is open.
    pub show_update_notice: bool,
    /// The release history window is open.
    pub show_history: bool,
    /// The notice was already shown once this session.
    pub notice_shown: bool,
    /// The release data the open windows show.
    pub payload: Option<P>,
}

impl<P> UpdateLogState<P> {
    /// No window open, notice not yet shown.
    pub fn new() -> (s: Self)
        ensures
            !s.show_update_notice && !s.show_history && !s.notice_shown && s.payload is None,
    {
        UpdateLogState { show_update_notice: false, show_history: false, notice_shown: false, payload: None }
    }
}

/// Opens the history window on the latest checked release data, or on the
/// data built into the program when no check has finished.
pub fn open_history<P>(st: &mut UpdateLogState<P>, latest: Option<P>, embedded: P)
    ensures
        final(st).show_history,
        final(st).payload == Some(match latest {
            Some(p) => p,
            None => embedded,
        }),
        final(st).show_update_notice == old(st).show_update_notice,
        final(st).notice_shown == old(st).notice_shown,
{
    st.payload = Some(match latest {
        Some(p) => p,
        None => embedded,
    });
    st.show_history = true;
}

/// Opens the update notice, once per session, when a finished version check
/// (`result`, whose `has_new_version` flag is given) found a newer version.
pub fn poll_and_maybe_open_notice<P>(st: &mut UpdateLogState<P>, result: Option<P>, has_new_version: bool)
    ensures
        final(st).show_history == old(st).show_history,
        match result {
            Some(p) if has_new_version && !old(st).notice_shown => {
                &&& final(st).payload == Some(p)
                &&& final(st).show_update_notice
                &&& final(st).notice_shown
            },
            _ => {
                &&& final(st).payload == old(st).payload
                &&& final(st).show_update_notice == old(st).show_update_notice
                &&& final(st).notice_shown == old(st).notice_shown
            },
        },
{
    let p = match result {
        Some(p) => p,
        None => return,
    };
    if !has_new_version {
        return;
    }
    if st.notice_shown {
        return;
    }
    st.payload = Some(p);
    st.show_update_notice = true;
    st.notice_shown = true;
}

} // verus!
