//! Playback queue of the main player: the playlist in table order, the
//! current track, repeat and shuffle modes, and the decisions taken when a
//! track ends or the user skips.
use vstd::prelude::*;
use crate::audio_file_info::{AudioFileInfo, AudioFileInfoView, copy_opt_string};

verus! {

/// Queue repeat mode.
#[derive(Debug, Clone, Copy, PartialEq, Eq, Structural)]
pub enum LoopMode {
    /// No looping, stop at the end of the playlist.
    NoLoop,
    /// Loop the current track indefinitely.
    Single,
    /// Loop the entire playlist.
    All,
}

/// Action returned by the audio player to its parent.
#[derive(Debug, Clone, Copy, PartialEq, Eq, Structural)]
pub enum AudioPlayerAction {
    /// Nothing to do.
    NoAction,
    PlayNext,
    PlayPrevious,
    /// Auto-advance could not continue (end of queue).
    PlaylistEnded,
}

/// What the player does once the playhead reaches the end of a track.
#[derive(Debug, Clone, Copy, PartialEq, Eq, Structural)]
pub enum TrackEndAction {
    /// Repeat-one: seek back to the track's loop start and keep playing.
    RestartFromLoopStart,
    /// Repeat-one: seek back to the beginning and keep playing.
    RestartFromBeginning,
    /// Stop at position zero (a transition flag says what comes next).
    Stop,
}

/// Why a skip request found no track.
#[derive(Debug, Clone, Copy, PartialEq, Eq, Structural)]
pub enum QueueMessage {
    NoTracksInQueue,
    PlaylistEnded,
}

/// The repeat mode after the repeat button: off, one, all, then off again.
pub open spec fn next_mode(m: LoopMode) -> LoopMode {
    match m {
        LoopMode::NoLoop => LoopMode::Single,
        LoopMode::Single => LoopMode::All,
        LoopMode::All => LoopMode::NoLoop,
    }
}

/// Pressing the repeat button three times comes back to the mode one
/// started from, passing through the two others.
pub proof fn law_repeat_button_cycles(m: LoopMode)
    ensures
        next_mode(next_mode(next_mode(m))) == m,
        next_mode(m) != m,
        next_mode(next_mode(m)) != m,
{
}

/// The track that is loaded in the player.
pub struct AudioFile {
    /// Path of the opened sound file.
    pub file_path: String,
    /// Temporary playback file path.
    pub playback_path: Option<String>,
    pub name: String,
    pub file_type: String,
    pub id: String,
}

impl AudioFile {
    /// A copy of the loaded-track record.
    pub fn duplicate(&self) -> (r: AudioFile)
        ensures
            r.file_path@ == self.file_path@,
            r.playback_path.deep_view() == self.playback_path.deep_view(),
            r.name@ == self.name@,
            r.file_type@ == self.file_type@,
            r.id@ == self.id@,
    {
        AudioFile {
            file_path: self.file_path.clone(),
            playback_path: copy_opt_string(&self.playback_path),
            name: self.name.clone(),
            file_type: self.file_type.clone(),
            id: self.id.clone(),
        }
    }
}

/// Replacing `old` by `new` reuses the same temporary playback file: both
/// have one and the paths are equal (the old one must then not be deleted).
pub open spec fn reuses_playback_path(old: Option<Seq<char>>, new: Option<Seq<char>>) -> bool {
    match (old, new) {
        (Some(a), Some(b)) => a == b,
        _ => false,
    }
}

/// Whether loading `new` over `current` keeps the same temporary playback file.
pub fn reusing_same_path(current: &Option<AudioFile>, new: &AudioFile) -> (b: bool)
    ensures
        b == reuses_playback_path(
            match current {
                Some(a) => a.playback_path.deep_view(),
                None => None,
            },
            new.playback_path.deep_view(),
        ),
{
    match current {
        Some(a) => match (&a.playback_path, &new.playback_path) {
            (Some(x), Some(y)) => *x == *y,
            _ => false,
        },
        None => false,
    }
}

/// Every entry of the shuffle bag is a playlist position, and no position is
/// in it twice.
pub open spec fn bag_ok(bag: Seq<usize>, n: nat) -> bool {
    &&& forall|i: int| 0 <= i < bag.len() ==> (#[trigger] bag[i]) < n
    &&& forall|i: int, j: int| 0 <= i < bag.len() && 0 <= j < bag.len() && i != j ==> bag[i] != bag[j]
}

/// The bag holds every playlist position exactly once.
pub open spec fn bag_full(bag: Seq<usize>, n: nat) -> bool {
    bag_ok(bag, n) && bag.len() == n
}

/// Playlist entry `i` is the track named `name` with ID `id`.
pub open spec fn is_track(p: Seq<AudioFileInfoView>, i: int, name: Seq<char>, id: Seq<char>) -> bool {
    p[i].name == name && p[i].id == id
}

/// Position of the first playlist entry with that name and ID.
pub open spec fn first_position(p: Seq<AudioFileInfoView>, name: Seq<char>, id: Seq<char>) -> Option<usize> {
    if exists|i: int| 0 <= i < p.len() && is_track(p, i, name, id) {
        let i = choose|i: int|
            0 <= i < p.len() && is_track(p, i, name, id) && forall|j: int| 0 <= j < i ==> !is_track(p, j, name, id);
        Some(i as usize)
    } else {
        None
    }
}

/// State of the main player's queue.
pub struct AudioState {
    /// Track loaded in the player, if any.
    pub current_audio: Option<AudioFile>,
    /// Whether to use the custom loop points of the track.
    pub use_custom_loop: bool,
    /// The track has loop metadata.
    pub enable_loop: bool,
    /// Playback rewinds inside the track's loop region.
    pub honor_track_loop: bool,
    /// Queue repeat mode.
    pub loop_mode: LoopMode,
    /// Shuffle mode.
    pub shuffle: bool,
    /// Playlist in table order (filtered and sorted, never re-sorted by ID).
    pub playlist: Vec<AudioFileInfo>,
    /// Position of the current track in the playlist.
    pub current_track_index: Option<usize>,
    /// Playlist positions not yet drawn in shuffle mode; the next draw is the last one.
    pub shuffle_bag: Vec<usize>,
    /// The next track should be played.
    pub should_play_next: bool,
    /// The previous track was requested.
    pub should_play_previous: bool,
    /// Auto-advance could not continue.
    pub should_notify_playlist_ended: bool,
}

impl AudioState {
    /// Queue invariant: the shuffle bag only holds distinct playlist positions.
    pub open spec fn wf(&self) -> bool {
        bag_ok(self.shuffle_bag@, self.playlist@.len())
    }

    /// The playlist as plain values.
    pub open spec fn tracks(&self) -> Seq<AudioFileInfoView> {
        self.playlist.deep_view()
    }

    /// An empty queue: nothing loaded, no repeat, no shuffle.
    pub fn new() -> (s: Self)
        ensures
            s.wf(),
            s.current_audio is None,
            s.playlist@.len() == 0,
            s.current_track_index is None,
            s.shuffle_bag@.len() == 0,
            s.loop_mode == LoopMode::NoLoop,
            !s.shuffle && !s.use_custom_loop && !s.enable_loop && !s.honor_track_loop,
            !s.should_play_next && !s.should_play_previous && !s.should_notify_playlist_ended,
    {
        AudioState {
            current_audio: None,
            use_custom_loop: false,
            enable_loop: false,
            honor_track_loop: false,
            loop_mode: LoopMode::NoLoop,
            shuffle: false,
            playlist: Vec::new(),
            current_track_index: None,
            shuffle_bag: Vec::new(),
            should_play_next: false,
            should_play_previous: false,
            should_notify_playlist_ended: false,
        }
    }
}

impl Default for AudioState {
    fn default() -> (s: Self)
        ensures
            s.wf(),
            s.current_audio is None,
            s.playlist@.len() == 0,
            s.current_track_index is None,
            s.shuffle_bag@.len() == 0,
            s.loop_mode == LoopMode::NoLoop,
            !s.shuffle && !s.use_custom_loop && !s.enable_loop && !s.honor_track_loop,
            !s.should_play_next && !s.should_play_previous && !s.should_notify_playlist_ended,
    {
        AudioState::new()
    }
}

/// Position of the first entry named `name` with ID `id`.
pub fn position_of(playlist: &Vec<AudioFileInfo>, name: &String, id: &String) -> (r: Option<usize>)
    ensures
        r == first_position(playlist.deep_view(), name@, id@),
{
    let ghost p = playlist.deep_view();
    let mut i: usize = 0;
    while i < playlist.len()
        invariant
            p == playlist.deep_view(),
            i <= playlist.len(),
            forall|j: int| 0 <= j < i ==> !is_track(p, j, name@, id@),
        decreases playlist.len() - i,
    {
        if playlist[i].name == *name && playlist[i].id == *id {
            proof {
                assert(is_track(p, i as int, name@, id@));
                let k = choose|k: int|
                    0 <= k < p.len() && is_track(p, k, name@, id@) && forall|j: int| 0 <= j < k ==> !is_track(p, j, name@, id@);
                if k < i {
                } else if k > i {
                    assert(!is_track(p, i as int, name@, id@));
                }
                assert(k == i);
            }
            return Some(i);
        }
        i += 1;
    }
    None
}

/// A uniformly drawn position in `0..=i` (`rand::random_range(0..=i)`); only
/// the range of the draw is stated.
#[verifier::external_body]
fn random_index_through(i: usize) -> (j: usize)
    ensures
        j <= i,
{
    rand::random_range(0..=i)
}

/// The two playlists list the same tracks (by name and ID) in the same order.
pub open spec fn same_order(a: Seq<AudioFileInfoView>, b: Seq<AudioFileInfoView>) -> bool {
    &&& a.len() == b.len()
    &&& forall|i: int| 0 <= i < a.len() ==> a[i].name == b[i].name && (#[trigger] a[i]).id == b[i].id
}

/// Name and ID of the track the queue considers current: the loaded track,
/// else the playlist entry at the current index.
pub open spec fn current_identity(s: AudioState) -> Option<(Seq<char>, Seq<char>)> {
    match s.current_audio {
        Some(a) => Some((a.name@, a.id@)),
        None => match s.current_track_index {
            Some(i) => if i < s.playlist@.len() {
                Some((s.tracks()[i as int].name, s.tracks()[i as int].id))
            } else {
                None
            },
            None => None,
        },
    }
}

/// The queue's settings and flags are those of `b`.
pub open spec fn same_settings(a: AudioState, b: AudioState) -> bool {
    &&& a.current_audio == b.current_audio
    &&& a.use_custom_loop == b.use_custom_loop
    &&& a.enable_loop == b.enable_loop
    &&& a.honor_track_loop == b.honor_track_loop
    &&& a.loop_mode == b.loop_mode
    &&& a.shuffle == b.shuffle
    &&& a.should_play_next == b.should_play_next
    &&& a.should_play_previous == b.should_play_previous
    &&& a.should_notify_playlist_ended == b.should_notify_playlist_ended
}

/// Without shuffle, the track after position `cur`: the following one; past
/// the end the first when the whole queue repeats, else none; the first when
/// no track is current.
pub open spec fn sequential_next(cur: Option<usize>, len: nat, mode: LoopMode) -> Option<int> {
    match cur {
        Some(c) => if c + 1 < len {
            Some(c + 1)
        } else if mode == LoopMode::All {
            Some(0)
        } else {
            None
        },
        None => Some(0),
    }
}

/// Without shuffle, the track before position `cur`: the preceding one; at
/// the first track the last when the whole queue repeats, else the first
/// again; the first when no track is current.
pub open spec fn sequential_previous(cur: Option<usize>, len: nat, mode: LoopMode) -> Option<int> {
    match cur {
        Some(c) => if c == 0 {
            if mode == LoopMode::All { Some(len - 1) } else { Some(0) }
        } else {
            Some(c - 1)
        },
        None => Some(0),
    }
}

/// Whether a finished track may be followed automatically when nothing repeats.
pub open spec fn can_auto_advance(s: AudioState) -> bool {
    if s.shuffle {
        s.playlist@.len() > 0
    } else {
        match s.current_track_index {
            Some(i) => i + 1 < s.playlist@.len(),
            None => s.playlist@.len() > 0,
        }
    }
}

impl AudioState {
    /// Replaces the playlist (kept in the given table order) and points the
    /// current index at the first entry with the given name and ID; the
    /// shuffle bag is emptied.
    pub fn update_playlist(&mut self, playlist: Vec<AudioFileInfo>, current_name: &str, current_id: &str)
        ensures
            final(self).playlist == playlist,
            final(self).current_track_index == first_position(playlist.deep_view(), current_name@, current_id@),
            final(self).shuffle_bag@.len() == 0,
            same_settings(*final(self), *old(self)),
            final(self).wf(),
    {
        self.playlist = playlist;
        let name = current_name.to_owned();
        let id = current_id.to_owned();
        self.current_track_index = position_of(&self.playlist, &name, &id);
        self.shuffle_bag = Vec::new();
    }

    /// Replaces the playlist while keeping the current track current: the
    /// index follows the loaded track (or the previous current entry) to its
    /// first place in the new list, or becomes `None` when it is gone. The
    /// shuffle bag survives only when the order did not change.
    pub fn sync_playlist_preserving_current(&mut self, playlist: Vec<AudioFileInfo>)
        ensures
            final(self).playlist == playlist,
            final(self).current_track_index == match current_identity(*old(self)) {
                Some((name, id)) => first_position(playlist.deep_view(), name, id),
                None => None,
            },
            final(self).shuffle_bag@ == if same_order(old(self).tracks(), playlist.deep_view()) {
                old(self).shuffle_bag@
            } else {
                Seq::<usize>::empty()
            },
            same_settings(*final(self), *old(self)),
            old(self).wf() ==> final(self).wf(),
    {
        let identity: Option<(String, String)> = match &self.current_audio {
            Some(a) => Some((a.name.clone(), a.id.clone())),
            None => match self.current_track_index {
                Some(i) => if i < self.playlist.len() {
                    Some((self.playlist[i].name.clone(), self.playlist[i].id.clone()))
                } else {
                    None
                },
                None => None,
            },
        };
        let order_changed = !same_track_order(&self.playlist, &playlist);
        self.playlist = playlist;
        match identity {
            Some((name, id)) => {
                self.current_track_index = position_of(&self.playlist, &name, &id);
            },
            None => {
                self.current_track_index = None;
            },
        }
        if order_changed {
            self.shuffle_bag = Vec::new();
        }
    }

    /// Refills the shuffle bag with every playlist position in random order
    /// (Fisher-Yates); when the playlist has more than one track, the position
    /// `avoid` is then moved to the end of the bag.
    fn refill_shuffle_bag(&mut self, avoid: Option<usize>)
        ensures
            bag_full(final(self).shuffle_bag@, final(self).playlist@.len()),
            final(self).playlist == old(self).playlist,
            final(self).current_track_index == old(self).current_track_index,
            same_settings(*final(self), *old(self)),
            match avoid {
                Some(c) => c < final(self).playlist@.len() && final(self).playlist@.len() > 1
                    ==> final(self).shuffle_bag@.last() == c,
                None => true,
            },
    {
        let n = self.playlist.len();
        let mut bag: Vec<usize> = Vec::new();
        let mut k: usize = 0;
        while k < n
            invariant
                k <= n,
                bag@.len() == k,
                forall|j: int| 0 <= j < k ==> bag@[j] == j,
            decreases n - k,
        {
            bag.push(k);
            k += 1;
        }
        assert(bag_full(bag@, n as nat));
        let mut i: usize = bag.len();
        while i > 1
            invariant
                bag@.len() == n,
                i <= n,
                bag_full(bag@, n as nat),
            decreases i,
        {
            i -= 1;
            let j = random_index_through(i);
            let a = bag[i];
            let b = bag[j];
            bag.set(i, b);
            bag.set(j, a);
            proof {
                let old_bag = bag@.update(j as int, b).update(i as int, a);
                assert forall|x: int, y: int|
                    0 <= x < bag@.len() && 0 <= y < bag@.len() && x != y implies bag@[x] != bag@[y] by {
                    let ox = if x == i { j as int } else if x == j { i as int } else { x };
                    let oy = if y == i { j as int } else if y == j { i as int } else { y };
                    assert(ox != oy);
                }
            }
        }
        if let Some(cur) = avoid {
            if bag.len() > 1 {
                match position_in(&bag, cur) {
                    Some(p) => {
                        let last = bag.len() - 1;
                        let a = bag[p];
                        let b = bag[last];
                        bag.set(p, b);
                        bag.set(last, a);
                        proof {
                            assert forall|x: int, y: int|
                                0 <= x < bag@.len() && 0 <= y < bag@.len() && x != y implies bag@[x] != bag@[y] by {
                                let ox = if x == last { p as int } else if x == p { last as int } else { x };
                                let oy = if y == last { p as int } else if y == p { last as int } else { y };
                                assert(ox != oy);
                            }
                        }
                    },
                    None => {
                        proof {
                            if cur < n {
                                lemma_full_bag_has(bag@, n as nat, cur);
                            }
                        }
                    },
                }
            }
        }
        self.shuffle_bag = bag;
    }

    /// Draws the next shuffle position: refills the bag when it is empty, and
    /// when the draw would repeat the current track while others remain, swaps
    /// it with the bag's first entry. `None` only for an empty playlist.
    pub fn take_shuffle_next_index(&mut self) -> (r: Option<usize>)
        ensures
            r is None <==> old(self).playlist@.len() == 0,
            final(self).playlist == old(self).playlist,
            final(self).current_track_index == old(self).current_track_index,
            same_settings(*final(self), *old(self)),
            old(self).wf() ==> final(self).wf(),
            old(self).wf() && r is Some ==> r->0 < old(self).playlist@.len(),
            old(self).playlist@.len() > 0 && old(self).shuffle_bag@.len() > 0 ==> ({
                let b = old(self).shuffle_bag@;
                let c = old(self).current_track_index;
                if c is Some && b.len() > 1 && b.last() == c->0 {
                    r == Some(b[0]) && final(self).shuffle_bag@ == b.update(0, b.last()).drop_last()
                } else {
                    r == Some(b.last()) && final(self).shuffle_bag@ == b.drop_last()
                }
            }),
            old(self).playlist@.len() > 0 && old(self).shuffle_bag@.len() == 0 ==> bag_full(
                final(self).shuffle_bag@.push(r->0),
                old(self).playlist@.len(),
            ),
            old(self).wf() && (old(self).current_track_index matches Some(c) && c < old(self).playlist@.len()
                && (old(self).shuffle_bag@.len() > 1 || (old(self).shuffle_bag@.len() == 0
                && old(self).playlist@.len() > 1))) ==> r != old(self).current_track_index,
            old(self).playlist@.len() > 0 ==> shuffle_draw(
                old(self).shuffle_bag@,
                old(self).current_track_index,
                old(self).playlist@.len(),
                r->0,
                final(self).shuffle_bag@,
            ),
    {
        let n = self.playlist.len();
        if n == 0 {
            return None;
        }
        let current = self.current_track_index;
        if self.shuffle_bag.len() == 0 {
            self.refill_shuffle_bag(current);
        }
        let ghost b = self.shuffle_bag@;
        let mut bag: Vec<usize> = Vec::new();
        std::mem::swap(&mut bag, &mut self.shuffle_bag);
        let r = draw_from_bag(&mut bag, current);
        self.shuffle_bag = bag;
        proof {
            if bag_ok(b, n as nat) {
                law_shuffle_draw(b, n as nat, current, self.shuffle_bag@, r);
            }
        }
        Some(r)
    }

    /// Decides which playlist position "next" plays, after re-syncing the
    /// playlist to the table's current order: a shuffle draw, or the position
    /// after the current one (see `sequential_next`).
    pub fn play_next_decision(&mut self, visible: Vec<AudioFileInfo>) -> (r: Result<usize, QueueMessage>)
        ensures
            final(self).playlist == visible,
            final(self).current_track_index == match current_identity(*old(self)) {
                Some((name, id)) => first_position(visible.deep_view(), name, id),
                None => None,
            },
            visible@.len() == 0 ==> r == Err::<usize, QueueMessage>(QueueMessage::NoTracksInQueue),
            visible@.len() > 0 && !old(self).shuffle ==> r == match sequential_next(
                final(self).current_track_index,
                visible@.len(),
                old(self).loop_mode,
            ) {
                Some(i) => if i < visible@.len() {
                    Ok(i as usize)
                } else {
                    Err(QueueMessage::PlaylistEnded)
                },
                None => Err(QueueMessage::PlaylistEnded),
            },
            visible@.len() > 0 && old(self).shuffle && old(self).wf() ==> (r matches Ok(i) && i
                < visible@.len()),
            visible@.len() > 0 && old(self).shuffle ==> exists|x: usize|
                shuffle_draw(
                    synced_bag(*old(self), visible.deep_view()),
                    final(self).current_track_index,
                    visible@.len(),
                    x,
                    final(self).shuffle_bag@,
                ) && r == (if x < visible@.len() {
                    Ok::<usize, QueueMessage>(x)
                } else {
                    Err(QueueMessage::PlaylistEnded)
                }),
            r matches Ok(i) ==> i < visible@.len(),
            old(self).wf() ==> final(self).wf(),
            final(self).loop_mode == old(self).loop_mode,
            final(self).shuffle == old(self).shuffle,
    {
        let ghost vis = visible.deep_view();
        let ghost vlen = visible@.len();
        self.sync_playlist_preserving_current(visible);
        let len = self.playlist.len();
        if len == 0 {
            return Err(QueueMessage::NoTracksInQueue);
        }
        let ghost bag0 = self.shuffle_bag@;
        let next_index: Option<usize> = if self.shuffle {
            let t = self.take_shuffle_next_index();
            proof {
                let x = t->0;
                assert(shuffle_draw(bag0, self.current_track_index, len as nat, x, self.shuffle_bag@));
            }
            t
        } else {
            match self.current_track_index {
                Some(current_index) => {
                    if current_index < len - 1 {
                        Some(current_index + 1)
                    } else {
                        match self.loop_mode {
                            LoopMode::All => Some(0),
                            _ => None,
                        }
                    }
                },
                None => Some(0),
            }
        };
        let r = match next_index {
            Some(idx) => if idx < len {
                Ok(idx)
            } else {
                Err(QueueMessage::PlaylistEnded)
            },
            None => Err(QueueMessage::PlaylistEnded),
        };
        proof {
            if self.shuffle {
                let x = next_index->0;
                assert(bag0 == synced_bag(*old(self), vis));
                assert(vlen == len);
                assert(shuffle_draw(synced_bag(*old(self), vis), self.current_track_index, vlen, x, self.shuffle_bag@));
                assert(r == (if x < vlen { Ok::<usize, QueueMessage>(x) } else { Err(QueueMessage::PlaylistEnded) }));
            }
        }
        r
    }

    /// Decides which playlist position "previous" plays, after re-syncing the
    /// playlist: in shuffle another draw from the bag, else the position before
    /// the current one (see `sequential_previous`).
    pub fn play_previous_decision(&mut self, visible: Vec<AudioFileInfo>) -> (r: Result<usize, QueueMessage>)
        ensures
            final(self).playlist == visible,
            final(self).current_track_index == match current_identity(*old(self)) {
                Some((name, id)) => first_position(visible.deep_view(), name, id),
                None => None,
            },
            visible@.len() == 0 ==> r == Err::<usize, QueueMessage>(QueueMessage::NoTracksInQueue),
            visible@.len() > 0 && !old(self).shuffle ==> r == match sequential_previous(
                final(self).current_track_index,
                visible@.len(),
                old(self).loop_mode,
            ) {
                Some(i) => if 0 <= i < visible@.len() {
                    Ok(i as usize)
                } else {
                    Err(QueueMessage::NoTracksInQueue)
                },
                None => Err(QueueMessage::NoTracksInQueue),
            },
            visible@.len() > 0 && old(self).shuffle && old(self).wf() ==> (r matches Ok(i) && i
                < visible@.len()),
            visible@.len() > 0 && old(self).shuffle ==> exists|x: usize|
                shuffle_draw(
                    synced_bag(*old(self), visible.deep_view()),
                    final(self).current_track_index,
                    visible@.len(),
                    x,
                    final(self).shuffle_bag@,
                ) && r == (if x < visible@.len() {
                    Ok::<usize, QueueMessage>(x)
                } else {
                    Err(QueueMessage::NoTracksInQueue)
                }),
            r matches Ok(i) ==> i < visible@.len(),
            old(self).wf() ==> final(self).wf(),
            final(self).loop_mode == old(self).loop_mode,
            final(self).shuffle == old(self).shuffle,
    {
        let ghost vis = visible.deep_view();
        let ghost vlen = visible@.len();
        self.sync_playlist_preserving_current(visible);
        let len = self.playlist.len();
        if len == 0 {
            return Err(QueueMessage::NoTracksInQueue);
        }
        let ghost bag0 = self.shuffle_bag@;
        let prev_index: Option<usize> = if self.shuffle {
            let t = self.take_shuffle_next_index();
            proof {
                let x = t->0;
                assert(shuffle_draw(bag0, self.current_track_index, len as nat, x, self.shuffle_bag@));
            }
            t
        } else {
            match self.current_track_index {
                Some(current_index) => {
                    if current_index == 0 {
                        match self.loop_mode {
                            LoopMode::All => Some(len - 1),
                            _ => Some(0),
                        }
                    } else {
                        Some(current_index - 1)
                    }
                },
                None => Some(0),
            }
        };
        let r = match prev_index {
            Some(idx) => if idx < len {
                Ok(idx)
            } else {
                Err(QueueMessage::NoTracksInQueue)
            },
            None => Err(QueueMessage::NoTracksInQueue),
        };
        proof {
            if self.shuffle {
                let x = prev_index->0;
                assert(bag0 == synced_bag(*old(self), vis));
                assert(vlen == len);
                assert(shuffle_draw(synced_bag(*old(self), vis), self.current_track_index, vlen, x, self.shuffle_bag@));
                assert(r == (if x < vlen { Ok::<usize, QueueMessage>(x) } else { Err(QueueMessage::NoTracksInQueue) }));
            }
        }
        r
    }

    /// Cycles the repeat mode: off, one, all, off; entering repeat-one on a
    /// track with loop marks starts honoring them.
    pub fn next_loop_mode(&mut self)
        ensures
            final(self).loop_mode == next_mode(old(self).loop_mode),
            final(self).honor_track_loop == if final(self).loop_mode == LoopMode::Single && old(self).enable_loop {
                true
            } else {
                old(self).honor_track_loop
            },
            final(self).playlist == old(self).playlist,
            final(self).shuffle_bag == old(self).shuffle_bag,
            final(self).current_track_index == old(self).current_track_index,
            final(self).shuffle == old(self).shuffle,
            final(self).enable_loop == old(self).enable_loop,
            final(self).use_custom_loop == old(self).use_custom_loop,
    {
        self.loop_mode = match self.loop_mode {
            LoopMode::NoLoop => LoopMode::Single,
            LoopMode::Single => LoopMode::All,
            LoopMode::All => LoopMode::NoLoop,
        };
        if self.loop_mode == LoopMode::Single && self.enable_loop {
            self.honor_track_loop = true;
        }
    }

    /// Turns shuffle on or off and forgets the shuffle bag.
    pub fn toggle_shuffle(&mut self)
        ensures
            final(self).shuffle == !old(self).shuffle,
            final(self).shuffle_bag@.len() == 0,
            final(self).playlist == old(self).playlist,
            final(self).current_track_index == old(self).current_track_index,
            final(self).loop_mode == old(self).loop_mode,
            final(self).wf(),
    {
        self.shuffle = !self.shuffle;
        self.shuffle_bag = Vec::new();
    }

    /// Requests the next track.
    pub fn next_track(&mut self)
        ensures
            final(self).should_play_next,
            final(self).should_play_previous == old(self).should_play_previous,
            final(self).playlist == old(self).playlist,
            final(self).shuffle_bag == old(self).shuffle_bag,
    {
        self.should_play_next = true;
    }

    /// Requests the previous track.
    pub fn previous_track(&mut self)
        ensures
            final(self).should_play_previous,
            final(self).should_play_next == old(self).should_play_next,
            final(self).playlist == old(self).playlist,
            final(self).shuffle_bag == old(self).shuffle_bag,
    {
        self.should_play_previous = true;
    }

    /// On load, loop marks are honored only in repeat-one mode.
    pub fn apply_default_honor_for_load(&mut self)
        ensures
            final(self).honor_track_loop == (old(self).enable_loop && old(self).loop_mode == LoopMode::Single),
            final(self).enable_loop == old(self).enable_loop,
            final(self).loop_mode == old(self).loop_mode,
            final(self).playlist == old(self).playlist,
            final(self).shuffle_bag == old(self).shuffle_bag,
    {
        self.honor_track_loop = self.enable_loop && self.loop_mode == LoopMode::Single;
    }

    /// Flips whether loop marks are honored, when the track has some.
    pub fn toggle_honor_track_loop(&mut self)
        ensures
            final(self).honor_track_loop == if old(self).enable_loop {
                !old(self).honor_track_loop
            } else {
                old(self).honor_track_loop
            },
            final(self).enable_loop == old(self).enable_loop,
            final(self).playlist == old(self).playlist,
            final(self).shuffle_bag == old(self).shuffle_bag,
    {
        if self.enable_loop {
            self.honor_track_loop = !self.honor_track_loop;
        }
    }

    /// Records whether the track has loop marks and whether they are custom;
    /// without marks nothing is honored.
    pub fn set_loop_flags(&mut self, use_custom: bool, enable_loop: bool)
        ensures
            final(self).use_custom_loop == use_custom,
            final(self).enable_loop == enable_loop,
            final(self).honor_track_loop == (enable_loop && old(self).honor_track_loop),
            final(self).loop_mode == old(self).loop_mode,
            final(self).playlist == old(self).playlist,
            final(self).shuffle_bag == old(self).shuffle_bag,
    {
        self.use_custom_loop = use_custom;
        self.enable_loop = enable_loop;
        if !enable_loop {
            self.honor_track_loop = false;
        }
    }

    /// What happens when the playhead reaches the end of the track: repeat-one
    /// restarts (from the loop start when custom marks are honored), repeat-all
    /// asks for the next track, and otherwise the next track is asked for only
    /// when one can follow, else the end of the playlist is announced.
    pub fn on_track_end(&mut self) -> (a: TrackEndAction)
        ensures
            a == match old(self).loop_mode {
                LoopMode::Single => if old(self).enable_loop && old(self).honor_track_loop && old(self).use_custom_loop {
                    TrackEndAction::RestartFromLoopStart
                } else {
                    TrackEndAction::RestartFromBeginning
                },
                _ => TrackEndAction::Stop,
            },
            final(self).should_play_next == (old(self).should_play_next || old(self).loop_mode == LoopMode::All
                || (old(self).loop_mode == LoopMode::NoLoop && can_auto_advance(*old(self)))),
            final(self).should_notify_playlist_ended == (old(self).should_notify_playlist_ended || (
            old(self).loop_mode == LoopMode::NoLoop && !can_auto_advance(*old(self)))),
            final(self).should_play_previous == old(self).should_play_previous,
            final(self).playlist == old(self).playlist,
            final(self).shuffle_bag == old(self).shuffle_bag,
            final(self).current_track_index == old(self).current_track_index,
            final(self).loop_mode == old(self).loop_mode,
    {
        match self.loop_mode {
            LoopMode::Single => {
                if self.enable_loop && self.honor_track_loop && self.use_custom_loop {
                    TrackEndAction::RestartFromLoopStart
                } else {
                    TrackEndAction::RestartFromBeginning
                }
            },
            LoopMode::All => {
                self.should_play_next = true;
                TrackEndAction::Stop
            },
            LoopMode::NoLoop => {
                let can = if self.shuffle {
                    self.playlist.len() > 0
                } else {
                    match self.current_track_index {
                        Some(idx) => self.playlist.len() > 0 && idx < self.playlist.len() - 1,
                        None => self.playlist.len() > 0,
                    }
                };
                if can {
                    self.should_play_next = true;
                } else {
                    self.should_notify_playlist_ended = true;
                }
                TrackEndAction::Stop
            },
        }
    }

    /// Consumes one pending transition request: next before previous before
    /// the end-of-playlist notice.
    pub fn check_for_transitions(&mut self) -> (a: AudioPlayerAction)
        ensures
            a == if old(self).should_play_next {
                AudioPlayerAction::PlayNext
            } else if old(self).should_play_previous {
                AudioPlayerAction::PlayPrevious
            } else if old(self).should_notify_playlist_ended {
                AudioPlayerAction::PlaylistEnded
            } else {
                AudioPlayerAction::NoAction
            },
            final(self).should_play_next == false,
            final(self).should_play_previous == (old(self).should_play_previous && old(self).should_play_next),
            final(self).should_notify_playlist_ended == (old(self).should_notify_playlist_ended && (
            old(self).should_play_next || old(self).should_play_previous)),
            final(self).playlist == old(self).playlist,
            final(self).shuffle_bag == old(self).shuffle_bag,
            final(self).current_track_index == old(self).current_track_index,
    {
        if self.should_play_next {
            self.should_play_next = false;
            AudioPlayerAction::PlayNext
        } else if self.should_play_previous {
            self.should_play_previous = false;
            AudioPlayerAction::PlayPrevious
        } else if self.should_notify_playlist_ended {
            self.should_notify_playlist_ended = false;
            AudioPlayerAction::PlaylistEnded
        } else {
            AudioPlayerAction::NoAction
        }
    }
}

/// The draw rule: the bag's last entry, unless that is the current track and
/// others remain, in which case the first entry (which takes the last's place).
fn draw_from_bag(bag: &mut Vec<usize>, current: Option<usize>) -> (r: usize)
    requires
        old(bag)@.len() > 0,
    ensures
        ({
            let b = old(bag)@;
            if current is Some && b.len() > 1 && b.last() == current->0 {
                r == b[0] && final(bag)@ == b.update(0, b.last()).drop_last()
            } else {
                r == b.last() && final(bag)@ == b.drop_last()
            }
        }),
{
    let ghost b = bag@;
    if let Some(cur) = current {
        if bag.len() > 1 && bag[bag.len() - 1] == cur {
            let last = bag.len() - 1;
            let first = bag[0];
            let l = bag[last];
            bag.set(0, l);
            bag.set(last, first);
        }
    }
    let r = bag.pop().unwrap();
    proof {
        if current is Some && b.len() > 1 && b.last() == current->0 {
            assert(bag@ =~= b.update(0, b.last()).drop_last());
        } else {
            assert(bag@ =~= b.drop_last());
        }
    }
    r
}

/// Whether both playlists list the same tracks in the same order.
fn same_track_order(a: &Vec<AudioFileInfo>, b: &Vec<AudioFileInfo>) -> (r: bool)
    ensures
        r == same_order(a.deep_view(), b.deep_view()),
{
    if a.len() != b.len() {
        return false;
    }
    let mut k: usize = 0;
    while k < a.len()
        invariant
            a.len() == b.len(),
            k <= a.len(),
            forall|j: int| 0 <= j < k ==> a.deep_view()[j].name == b.deep_view()[j].name
                && (#[trigger] a.deep_view()[j]).id == b.deep_view()[j].id,
        decreases a.len() - k,
    {
        if a[k].name != b[k].name || a[k].id != b[k].id {
            assert(!(a.deep_view()[k as int].name == b.deep_view()[k as int].name && a.deep_view()[k as int].id
                == b.deep_view()[k as int].id));
            return false;
        }
        k += 1;
    }
    true
}

/// First place of `x` in `bag`.
fn position_in(bag: &Vec<usize>, x: usize) -> (r: Option<usize>)
    ensures
        match r {
            Some(p) => p < bag@.len() && bag@[p as int] == x,
            None => forall|q: int| 0 <= q < bag@.len() ==> bag@[q] != x,
        },
{
    let mut p: usize = 0;
    while p < bag.len()
        invariant
            p <= bag.len(),
            forall|q: int| 0 <= q < p ==> bag@[q] != x,
        decreases bag.len() - p,
    {
        if bag[p] == x {
            return Some(p);
        }
        p += 1;
    }
    None
}

/// A full bag holds every position below its size.
proof fn lemma_full_bag_has(bag: Seq<usize>, n: nat, x: usize)
    requires
        n <= usize::MAX,
        bag_full(bag, n),
        x < n,
    ensures
        exists|q: int| 0 <= q < bag.len() && bag[q] == x,
{
    let s = Set::new(|v: usize| v < n);
    let img = bag.to_set();
    assert(bag.no_duplicates());
    bag.unique_seq_to_set();
    assert forall|v: usize| img.contains(v) implies s.contains(v) by {
        let q = choose|q: int| 0 <= q < bag.len() && bag[q] == v;
    }
    assert(img.subset_of(s));
    lemma_usize_range_card(n);
    if !img.contains(x) {
        assert(img.subset_of(s.remove(x)));
        vstd::set_lib::lemma_len_subset(img, s.remove(x));
        assert(false);
    }
    assert(img.contains(x));
}

/// The positions below `n` form a set of `n` elements.
proof fn lemma_usize_range_card(n: nat)
    requires
        n <= usize::MAX + 1,
    ensures
        Set::new(|v: usize| v < n).finite(),
        Set::new(|v: usize| v < n).len() == n,
    decreases n,
{
    if n == 0 {
        assert(Set::new(|v: usize| v < n) =~= Set::<usize>::empty());
    } else {
        lemma_usize_range_card((n - 1) as nat);
        assert(Set::new(|v: usize| v < n) =~= Set::new(|v: usize| v < (n - 1) as nat).insert((n - 1) as usize));
    }
}

/// Drawing from a sound bag keeps it sound, gives a playlist position, and
/// never repeats the current track when another one was left to draw.
pub proof fn law_shuffle_draw(b: Seq<usize>, n: nat, c: Option<usize>, after: Seq<usize>, x: usize)
    requires
        bag_ok(b, n),
        b.len() > 0,
        (c is Some && b.len() > 1 && b.last() == c->0) ==> after == b.update(0, b.last()).drop_last() && x == b[0],
        !(c is Some && b.len() > 1 && b.last() == c->0) ==> after == b.drop_last() && x == b.last(),
    ensures
        bag_ok(after, n),
        x < n,
        c is Some && b.len() > 1 ==> x != c->0,
{
    if c is Some && b.len() > 1 && b.last() == c->0 {
        assert forall|i: int, j: int| 0 <= i < after.len() && 0 <= j < after.len() && i != j implies after[i] != after[j] by {
            let oi = if i == 0 { b.len() - 1 } else { i };
            let oj = if j == 0 { b.len() - 1 } else { j };
            assert(after[i] == b[oi] && after[j] == b[oj]);
        }
        assert forall|i: int| 0 <= i < after.len() implies (#[trigger] after[i]) < n by {
            let oi = if i == 0 { b.len() - 1 } else { i };
            assert(after[i] == b[oi]);
        }
        assert(b[0] != b[b.len() - 1]);
    } else {
        assert forall|i: int, j: int| 0 <= i < after.len() && 0 <= j < after.len() && i != j implies after[i] != after[j] by {
            assert(after[i] == b[i] && after[j] == b[j]);
        }
        assert forall|i: int| 0 <= i < after.len() implies (#[trigger] after[i]) < n by {
            assert(after[i] == b[i]);
        }
    }
}

/// The shuffle bag left by re-syncing the playlist of `s` to `visible`: kept
/// when the track order is unchanged, else empty.
pub open spec fn synced_bag(s: AudioState, visible: Seq<AudioFileInfoView>) -> Seq<usize> {
    if same_order(s.tracks(), visible) {
        s.shuffle_bag@
    } else {
        Seq::<usize>::empty()
    }
}

/// One shuffle draw over a playlist of `n > 0` tracks with current track
/// `c`, as `take_shuffle_next_index` makes it: from the bag `bag` it draws
/// `x` and leaves `after`.
pub open spec fn shuffle_draw(bag: Seq<usize>, c: Option<usize>, n: nat, x: usize, after: Seq<usize>) -> bool {
    if bag.len() == 0 {
        &&& bag_full(after.push(x), n)
        &&& (c is Some && c->0 < n && n > 1 ==> x != c->0)
    } else if c is Some && bag.len() > 1 && bag.last() == c->0 {
        x == bag[0] && after == bag.update(0, bag.last()).drop_last()
    } else {
        x == bag.last() && after == bag.drop_last()
    }
}

/// `t` is `s` with its entries moved: entry `j` of `t` is entry `m(j)` of
/// `s`, and no two entries of `t` come from the same entry of `s`.
proof fn lemma_moved_entries(s: Seq<usize>, t: Seq<usize>, n: nat, m: spec_fn(int) -> int)
    requires
        bag_ok(s, n),
        forall|j: int| 0 <= j < t.len() ==> 0 <= #[trigger] m(j) < s.len() && t[j] == s[m(j)],
        forall|i: int, j: int| 0 <= i < t.len() && 0 <= j < t.len() && i != j ==> #[trigger] m(i) != #[trigger] m(j),
    ensures
        bag_ok(t, n),
{
    assert forall|i: int| 0 <= i < t.len() implies (#[trigger] t[i]) < n by {
        assert(t[i] == s[m(i)]);
    }
    assert forall|i: int, j: int| 0 <= i < t.len() && 0 <= j < t.len() && i != j implies t[i] != t[j] by {
        assert(m(i) != m(j));
        assert(t[i] == s[m(i)] && t[j] == s[m(j)]);
    }
}

/// One draw from a non-empty bag moves the drawn position from the bag to
/// the end of the draws so far.
proof fn lemma_draw_moves(b: Seq<usize>, d: Seq<usize>, c: Option<usize>, n: nat, x: usize, after: Seq<usize>)
    requires
        b.len() > 0,
        bag_ok(b + d, n),
        shuffle_draw(b, c, n, x, after),
    ensures
        bag_ok(after + d.push(x), n),
        after.len() + 1 == b.len(),
{
    let s = b + d;
    let t = after + d.push(x);
    let bl = b.len() as int;
    let dl = d.len() as int;
    if c is Some && b.len() > 1 && b.last() == c->0 {
        let m = |j: int| if j == 0 { bl - 1 } else if j < bl - 1 { j } else if j < bl - 1 + dl { j + 1 } else { 0 };
        assert forall|j: int| 0 <= j < t.len() implies 0 <= #[trigger] m(j) < s.len() && t[j] == s[m(j)] by {
            if j == 0 {
            } else if j < bl - 1 {
            } else if j < bl - 1 + dl {
                assert(t[j] == d[j - (bl - 1)]);
                assert(s[j + 1] == d[j + 1 - bl]);
            } else {
                assert(t[j] == x);
            }
        }
        lemma_moved_entries(s, t, n, m);
    } else {
        let m = |j: int| if j < bl - 1 { j } else if j < bl - 1 + dl { j + 1 } else { bl - 1 };
        assert forall|j: int| 0 <= j < t.len() implies 0 <= #[trigger] m(j) < s.len() && t[j] == s[m(j)] by {
            if j < bl - 1 {
            } else if j < bl - 1 + dl {
                assert(t[j] == d[j - (bl - 1)]);
                assert(s[j + 1] == d[j + 1 - bl]);
            } else {
                assert(t[j] == x);
            }
        }
        lemma_moved_entries(s, t, n, m);
    }
}

/// After `i` draws of a round that started from an empty bag, the bag and
/// the draws so far hold every playlist position exactly once between them.
proof fn lemma_round_prefix(bags: Seq<Seq<usize>>, draws: Seq<usize>, c: Option<usize>, n: nat, i: int)
    requires
        n > 0,
        1 <= i <= n,
        bags.len() == n + 1,
        draws.len() == n,
        bags[0].len() == 0,
        forall|q: int| 0 <= q < n ==> shuffle_draw(#[trigger] bags[q], c, n, draws[q], bags[q + 1]),
    ensures
        bag_ok(bags[i] + draws.take(i), n),
        bags[i].len() + i == n,
    decreases i,
{
    if i == 1 {
        assert(shuffle_draw(bags[0], c, n, draws[0], bags[1]));
        assert(bags[1] + draws.take(1) =~= bags[1].push(draws[0]));
    } else {
        let p = i - 1;
        lemma_round_prefix(bags, draws, c, n, p);
        assert(shuffle_draw(bags[p], c, n, draws[p], bags[i]));
        assert(draws.take(i) =~= draws.take(p).push(draws[p]));
        lemma_draw_moves(bags[p], draws.take(p), c, n, draws[p], bags[i]);
    }
}

/// A whole shuffle round: starting from an empty bag (as after the playlist
/// or the shuffle mode changed) with the playlist and current track left
/// alone, `n` successive draws give every playlist position exactly once,
/// the first draw is not the current track when there is another, and the
/// bag is empty again at the end of the round.
pub proof fn law_shuffle_round(bags: Seq<Seq<usize>>, draws: Seq<usize>, c: Option<usize>, n: nat)
    requires
        n > 0,
        bags.len() == n + 1,
        draws.len() == n,
        bags[0].len() == 0,
        forall|i: int| 0 <= i < n ==> shuffle_draw(#[trigger] bags[i], c, n, draws[i], bags[i + 1]),
    ensures
        bag_full(draws, n),
        c is Some && c->0 < n && n > 1 ==> draws[0] != c->0,
        bags[n as int].len() == 0,
{
    assert(shuffle_draw(bags[0], c, n, draws[0], bags[1]));
    lemma_round_prefix(bags, draws, c, n, n as int);
    assert(bags[n as int] + draws.take(n as int) =~= draws);
}

/// Without shuffle, "next" moves one place forward and "previous" one place
/// back: from a position with a track after it, next is the position just
/// after it; from a position other than the first, previous is the position
/// just before it; and going next then previous (or previous then next)
/// comes back to where it started. Only at the ends does the repeat mode
/// matter: past the last track next wraps to the first with repeat-all and
/// stops otherwise; before the first, previous wraps to the last with
/// repeat-all and stays on the first otherwise.
pub proof fn law_sequential_steps(c: usize, len: nat, mode: LoopMode)
    requires
        c < len <= usize::MAX,
    ensures
        c + 1 < len ==> sequential_next(Some(c), len, mode) == Some(c + 1),
        c > 0 ==> sequential_previous(Some(c), len, mode) == Some(c - 1),
        c + 1 < len ==> sequential_previous(Some((c + 1) as usize), len, mode) == Some(c as int),
        c > 0 ==> sequential_next(Some((c - 1) as usize), len, mode) == Some(c as int),
        c + 1 == len ==> sequential_next(Some(c), len, mode) == (if mode == LoopMode::All {
            Some(0int)
        } else {
            None
        }),
        c == 0 ==> sequential_previous(Some(c), len, mode) == (if mode == LoopMode::All {
            Some(len - 1)
        } else {
            Some(0int)
        }),
        sequential_next(None, len, mode) == Some(0int),
        sequential_previous(None, len, mode) == Some(0int),
{
}

/// With repeat off, the end of a track asks for the next one exactly when
/// "next" has a track to go to: in shuffle when the playlist is not empty,
/// otherwise when the next position is one of the playlist's.
pub proof fn law_auto_advance_matches_next(s: AudioState)
    ensures
        can_auto_advance(s) == if s.shuffle {
            s.playlist@.len() > 0
        } else {
            sequential_next(s.current_track_index, s.playlist@.len(), LoopMode::NoLoop) matches Some(i) && i
                < s.playlist@.len()
        },
{
}

proof fn lemma_some_first_position(p: Seq<AudioFileInfoView>, name: Seq<char>, id: Seq<char>, t: int)
    requires
        0 <= t < p.len(),
        is_track(p, t, name, id),
    ensures
        exists|i: int| 0 <= i < p.len() && is_track(p, i, name, id) && forall|j: int| 0 <= j < i ==> !is_track(p, j, name, id),
    decreases t,
{
    if exists|j: int| 0 <= j < t && is_track(p, j, name, id) {
        let j = choose|j: int| 0 <= j < t && is_track(p, j, name, id);
        lemma_some_first_position(p, name, id, j);
    }
}

/// The current track is found again in a new playlist at the first entry
/// with its name and ID; it is lost exactly when no entry has both.
pub proof fn law_first_position_is_first(p: Seq<AudioFileInfoView>, name: Seq<char>, id: Seq<char>)
    requires
        p.len() <= usize::MAX,
    ensures
        first_position(p, name, id) matches Some(i) ==> {
            &&& i < p.len()
            &&& p[i as int].name == name && p[i as int].id == id
            &&& forall|j: int| 0 <= j < i ==> !(p[j].name == name && p[j].id == id)
        },
        first_position(p, name, id) is None <==> forall|j: int| 0 <= j < p.len() ==> !(p[j].name == name && p[j].id == id),
{
    if exists|t: int| 0 <= t < p.len() && is_track(p, t, name, id) {
        let t = choose|t: int| 0 <= t < p.len() && is_track(p, t, name, id);
        lemma_some_first_position(p, name, id, t);
        let i = choose|i: int|
            0 <= i < p.len() && is_track(p, i, name, id) && forall|j: int| 0 <= j < i ==> !is_track(p, j, name, id);
        assert(first_position(p, name, id) == Some(i as usize));
        assert((i as usize) as int == i);
        assert forall|j: int| 0 <= j < i implies !(p[j].name == name && p[j].id == id) by {
            assert(!is_track(p, j, name, id));
        }
    } else {
        assert(first_position(p, name, id) is None);
        assert forall|j: int| 0 <= j < p.len() implies !(p[j].name == name && p[j].id == id) by {
            if p[j].name == name && p[j].id == id {
                assert(is_track(p, j, name, id));
            }
        }
    }
}

} // verus!
