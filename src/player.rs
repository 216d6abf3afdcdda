use vstd::prelude::*;

use crate::config::{
    entry_line, favorites_with, skipped_after_add, lemma_remove_unique, lemma_views_remove, ConfigError, FavoritesList, SkipList,
};
use crate::text::{rendered_lines, track_lines};
use crate::text::{lemma_views_push, position_of, views};

verus! {

/// Volume of a freshly loaded track, in percent.
pub const DEFAULT_VOLUME: u32 = 100;

/// Highest volume, in percent.
pub const MAX_VOLUME: u32 = 200;

/// Change of volume for one step up or down, in percent.
pub const VOLUME_STEP: u32 = 10;

pub open spec fn sat_sub(a: u64, b: u64) -> u64 {
    if a >= b {
        (a - b) as u64
    } else {
        0
    }
}

pub open spec fn sat_add(a: u64, b: u64) -> u64 {
    if a + b <= u64::MAX {
        (a + b) as u64
    } else {
        u64::MAX
    }
}

/// The tags of a track, each present or absent on its own.
#[derive(Clone, Debug)]
pub struct TrackMetadata {
    pub artist: Option<String>,
    pub album: Option<String>,
    pub title: Option<String>,
    pub year: Option<String>,
}

/// A track offered for a playlist: its path as given, and its canonical path
/// where that could be resolved.
#[derive(Clone, Debug)]
pub struct TrackPath {
    pub path: String,
    pub canonical: Option<String>,
}

/// Whether a track whose canonical path is `canonical` belongs to `set`; one
/// whose path could not be resolved belongs to none.
pub open spec fn listed(canonical: Option<String>, set: Set<Seq<char>>) -> bool {
    canonical matches Some(c) && set.contains(c@)
}

/// The tracks of `tracks` that are not skipped, in order.
pub open spec fn kept_tracks(tracks: Seq<TrackPath>, skipped: Set<Seq<char>>) -> Seq<TrackPath>
    decreases tracks.len(),
{
    if tracks.len() == 0 {
        seq![]
    } else {
        let rest = kept_tracks(tracks.drop_last(), skipped);
        if listed(tracks.last().canonical, skipped) {
            rest
        } else {
            rest.push(tracks.last())
        }
    }
}

/// The paths of `tracks`, in order.
pub open spec fn track_paths(tracks: Seq<TrackPath>) -> Seq<Seq<char>> {
    tracks.map_values(|t: TrackPath| t.path@)
}

/// The paths of `tracks`, each favorite given twice in a row.
pub open spec fn doubled_paths(tracks: Seq<TrackPath>, favorites: Set<Seq<char>>) -> Seq<
    Seq<char>,
>
    decreases tracks.len(),
{
    if tracks.len() == 0 {
        seq![]
    } else {
        let rest = doubled_paths(tracks.drop_last(), favorites);
        let p = tracks.last().path@;
        if listed(tracks.last().canonical, favorites) {
            rest.push(p).push(p)
        } else {
            rest.push(p)
        }
    }
}

/// The playlist of a session over `tracks`: skipped tracks dropped first, then,
/// for a randomized session, each favorite doubled.
pub open spec fn session_playlist(
    tracks: Seq<TrackPath>,
    skipped: Set<Seq<char>>,
    favorites: Set<Seq<char>>,
    random: bool,
) -> Seq<Seq<char>> {
    let kept = kept_tracks(tracks, skipped);
    if random {
        doubled_paths(kept, favorites)
    } else {
        track_paths(kept)
    }
}

/// The cursor after one step forward over a playlist of `len` tracks.
pub open spec fn next_index(cursor: nat, len: nat) -> nat {
    ((cursor + 1) as int % (len as int)) as nat
}

/// The cursor after one step backward over a playlist of `len` tracks.
pub open spec fn previous_index(cursor: nat, len: nat) -> nat {
    if cursor == 0 {
        (len - 1) as nat
    } else {
        (cursor - 1) as nat
    }
}

/// The cursor after `k` steps in one direction.
pub open spec fn steps_from(cursor: nat, k: nat, len: nat, forward: bool) -> nat
    decreases k,
{
    if k == 0 {
        cursor
    } else {
        let c = steps_from(cursor, (k - 1) as nat, len, forward);
        if forward {
            next_index(c, len)
        } else {
            previous_index(c, len)
        }
    }
}

/// How many entries of `s` equal `x`.
pub open spec fn occurrences(s: Seq<Seq<char>>, x: Seq<char>) -> nat
    decreases s.len(),
{
    if s.len() == 0 {
        0
    } else {
        occurrences(s.drop_last(), x) + if s.last() == x {
            1nat
        } else {
            0nat
        }
    }
}

/// `playlist` without any entry equal to `track`, the other entries kept in
/// order.
pub open spec fn without_all(playlist: Seq<Seq<char>>, track: Seq<char>) -> Seq<Seq<char>>
    decreases playlist.len(),
{
    if playlist.len() == 0 {
        seq![]
    } else {
        let rest = without_all(playlist.drop_last(), track);
        if playlist.last() == track {
            rest
        } else {
            rest.push(playlist.last())
        }
    }
}

/// How many entries equal to `track` stand at or before the cursor.
pub open spec fn removed_through(playlist: Seq<Seq<char>>, cursor: nat, track: Seq<char>) -> nat {
    let end = if cursor + 1 <= playlist.len() {
        (cursor + 1) as int
    } else {
        playlist.len() as int
    };
    occurrences(playlist.take(end), track)
}

/// The playlist with every entry equal to `track` removed, and the cursor
/// moved back once for each removed entry at or before it, never below 0.
pub open spec fn without_track(playlist: Seq<Seq<char>>, cursor: nat, track: Seq<char>) -> (
    Seq<Seq<char>>,
    nat,
) {
    let r = removed_through(playlist, cursor, track);
    (
        without_all(playlist, track),
        if cursor >= r {
            (cursor - r) as nat
        } else {
            0
        },
    )
}

pub(crate) proof fn lemma_occurrences_push(s: Seq<Seq<char>>, y: Seq<char>, x: Seq<char>)
    ensures
        occurrences(s.push(y), x) == occurrences(s, x) + if y == x {
            1nat
        } else {
            0nat
        },
{
    assert(s.push(y).drop_last() =~= s);
}

/// Removing every copy of a track shortens the playlist by the number of copies.
proof fn lemma_without_all_len(s: Seq<Seq<char>>, t: Seq<char>)
    ensures
        without_all(s, t).len() + occurrences(s, t) == s.len(),
    decreases s.len(),
{
    if s.len() > 0 {
        lemma_without_all_len(s.drop_last(), t);
    }
}

/// After removing every copy of a track, the cursor points into what is left,
/// or is 0 when nothing is left.
pub(crate) proof fn lemma_without_track_cursor(s: Seq<Seq<char>>, cursor: nat, t: Seq<char>)
    requires
        cursor < s.len(),
    ensures
        ({
            let (p, c) = without_track(s, cursor, t);
            &&& p.len() > 0 ==> c < p.len()
            &&& p.len() == 0 ==> c == 0
        }),
{
    lemma_without_all_len(s, t);
    lemma_occurrences_prefix(s, t, (cursor + 1) as int);
    lemma_occurrences_bound(s.take((cursor + 1) as int), t);
}

proof fn lemma_occurrences_bound(s: Seq<Seq<char>>, t: Seq<char>)
    ensures
        occurrences(s, t) <= s.len(),
    decreases s.len(),
{
    if s.len() > 0 {
        lemma_occurrences_bound(s.drop_last(), t);
    }
}

/// The copies of a track beyond the first `k` entries are at most the entries
/// beyond them.
proof fn lemma_occurrences_prefix(s: Seq<Seq<char>>, t: Seq<char>, k: int)
    requires
        0 <= k <= s.len(),
    ensures
        occurrences(s, t) <= occurrences(s.take(k), t) + (s.len() - k),
    decreases s.len(),
{
    if k == s.len() {
        assert(s.take(k) =~= s);
    } else {
        lemma_occurrences_prefix(s.drop_last(), t, k);
        assert(s.drop_last().take(k) =~= s.take(k));
    }
}

/// The clock that tells how far into the loaded track playback is: when the
/// track was loaded, how long it stood paused before, and since when it is
/// paused, if it is. Times are in milliseconds.
#[derive(Clone, Copy, Debug, PartialEq, Eq, Structural)]
pub struct PlaybackClock {
    pub start_time: Option<u64>,
    pub paused_duration: u64,
    pub pause_start: Option<u64>,
}

impl PlaybackClock {
    /// No track loaded: no position.
    pub open spec fn stopped() -> PlaybackClock {
        PlaybackClock { start_time: None, paused_duration: 0, pause_start: None }
    }

    /// A track loaded at `now`.
    pub open spec fn started_at(now: u64) -> PlaybackClock {
        PlaybackClock { start_time: Some(now), paused_duration: 0, pause_start: None }
    }

    pub open spec fn paused_at(self, now: u64) -> PlaybackClock {
        PlaybackClock { pause_start: Some(now), ..self }
    }

    /// The pause that ends at `now`, if any, counted into the paused time.
    pub open spec fn resumed_at(self, now: u64) -> PlaybackClock {
        match self.pause_start {
            Some(ps) => PlaybackClock {
                paused_duration: sat_add(self.paused_duration, sat_sub(now, ps)),
                pause_start: None,
                ..self
            },
            None => self,
        }
    }

    /// The time played at `now`: the time since the track was loaded, less the
    /// time it stood paused, never below zero.
    pub open spec fn position_at(self, now: u64) -> Option<u64> {
        match self.start_time {
            None => None,
            Some(st) => {
                let pausing = match self.pause_start {
                    Some(ps) => sat_sub(now, ps),
                    None => 0,
                };
                Some(sat_sub(sat_sub(now, st), sat_add(self.paused_duration, pausing)))
            },
        }
    }

    pub fn new() -> (r: PlaybackClock)
        ensures
            r == PlaybackClock::stopped(),
    {
        PlaybackClock { start_time: None, paused_duration: 0, pause_start: None }
    }

    pub fn start(&mut self, now: u64)
        ensures
            *final(self) == PlaybackClock::started_at(now),
    {
        self.start_time = Some(now);
        self.paused_duration = 0;
        self.pause_start = None;
    }

    pub fn pause(&mut self, now: u64)
        ensures
            *final(self) == old(self).paused_at(now),
    {
        self.pause_start = Some(now);
    }

    pub fn resume(&mut self, now: u64)
        ensures
            *final(self) == old(self).resumed_at(now),
    {
        if let Some(ps) = self.pause_start {
            self.paused_duration = self.paused_duration.saturating_add(now.saturating_sub(ps));
            self.pause_start = None;
        }
    }

    pub fn position(&self, now: u64) -> (r: Option<u64>)
        ensures
            r == self.position_at(now),
    {
        match self.start_time {
            None => None,
            Some(st) => {
                let pausing = match self.pause_start {
                    Some(ps) => now.saturating_sub(ps),
                    None => 0,
                };
                Some(now.saturating_sub(st).saturating_sub(self.paused_duration.saturating_add(pausing)))
            },
        }
    }
}

/// What the engine knows of the audio sink of the loaded track.
#[derive(Clone, Copy, Debug, PartialEq, Eq, Structural)]
pub struct SinkState {
    pub paused: bool,
    /// In percent.
    pub volume: u32,
}

/// A search for a loadable track under way: its direction, and how many
/// candidates failed to load so far.
#[derive(Clone, Copy, Debug, PartialEq, Eq, Structural)]
pub struct Search {
    pub forward: bool,
    pub attempts: usize,
}

/// What the caller does after a tick of automatic playback.
#[derive(Clone, Debug, PartialEq, Eq)]
pub enum PlaybackAction {
    /// Nothing to do: keep going.
    Continue,
    /// The playlist is at its end: stop.
    Stop,
    /// Try to load this track (a forward search has begun), then keep going.
    Load(String),
}

/// A change to make to a track file.
#[derive(Clone, Debug, PartialEq, Eq)]
pub enum FileUpdate {
    /// Append this text.
    Append(String),
    /// Replace the whole file with this text.
    Rewrite(String),
}

/// What marking the current track as skipped asks of the caller: the line to
/// append to the skip file, and the track to try next, if any.
#[derive(Clone, Debug, PartialEq, Eq)]
pub struct SkipMarked {
    pub line: String,
    pub next: Option<String>,
}

/// The abstract state of a `Player`.
pub struct PlayerView {
    pub playlist: Seq<Seq<char>>,
    pub cursor: nat,
    pub current: Option<Seq<char>>,
    pub skip_loaded: bool,
    pub skipped: Set<Seq<char>>,
    pub favorite_entries: Seq<Seq<char>>,
    pub total_duration: Option<u64>,
    pub clock: PlaybackClock,
    pub metadata: Option<TrackMetadata>,
    pub sink: Option<SinkState>,
    pub search: Option<Search>,
}

impl PlayerView {
    pub open spec fn favorites(self) -> Set<Seq<char>> {
        self.favorite_entries.to_set()
    }
}

/// The state after the candidate of the search under way failed to load: the
/// cursor moves on in the search's direction (backward only while candidates
/// remain), and the search ends after one pass over the playlist. Without a
/// search nothing changes.
pub open spec fn after_failure(v: PlayerView) -> PlayerView {
    match v.search {
        None => v,
        Some(search) => {
            let len = v.playlist.len();
            let attempts = search.attempts + 1;
            let c = if search.forward {
                next_index(v.cursor, len)
            } else if attempts < len {
                previous_index(v.cursor, len)
            } else {
                v.cursor
            };
            PlayerView {
                cursor: c,
                search: if attempts < len {
                    Some(Search { forward: search.forward, attempts: attempts as usize })
                } else {
                    None
                },
                ..v
            }
        },
    }
}

/// The state after `k` candidates in a row failed to load.
pub open spec fn after_failures(v: PlayerView, k: nat) -> PlayerView
    decreases k,
{
    if k == 0 {
        v
    } else {
        after_failure(after_failures(v, (k - 1) as nat))
    }
}

/// The state after the candidate of the search under way loaded: it becomes
/// the current track (after a forward search the cursor moves past it) and the
/// clock, tags and sink are those of the new track. Without a search nothing
/// changes.
pub open spec fn after_success(
    v: PlayerView,
    now: u64,
    total_duration: Option<u64>,
    metadata: Option<TrackMetadata>,
) -> PlayerView {
    match v.search {
        None => v,
        Some(search) => PlayerView {
            current: Some(v.playlist[v.cursor as int]),
            cursor: if search.forward {
                next_index(v.cursor, v.playlist.len())
            } else {
                v.cursor
            },
            search: None,
            total_duration: total_duration,
            clock: PlaybackClock::started_at(now),
            metadata: metadata,
            sink: Some(SinkState { paused: false, volume: DEFAULT_VOLUME }),
            ..v
        },
    }
}

/// The playback engine: a playlist and its cursor (the index of the next track
/// to play), the track loaded, its position clock, and the skip and favorite
/// lists. Loading a track is the caller's work: the engine names the
/// candidate, the caller reports whether it loaded.
pub struct Player {
    playlist: Vec<String>,
    current_index: usize,
    current_playing: Option<String>,
    skip_list: SkipList,
    favorites_list: FavoritesList,
    pub total_duration: Option<u64>,
    clock: PlaybackClock,
    pub current_metadata: Option<TrackMetadata>,
    sink: Option<SinkState>,
    search: Option<Search>,
}

impl View for Player {
    type V = PlayerView;

    closed spec fn view(&self) -> PlayerView {
        PlayerView {
            playlist: views(self.playlist@),
            cursor: self.current_index as nat,
            current: match self.current_playing {
                Some(c) => Some(c@),
                None => None,
            },
            skip_loaded: self.skip_list.loaded(),
            skipped: self.skip_list.members(),
            favorite_entries: self.favorites_list.entries(),
            total_duration: self.total_duration,
            clock: self.clock,
            metadata: self.current_metadata,
            sink: self.sink,
            search: self.search,
        }
    }
}

impl Player {
    /// The cursor points into a non-empty playlist and is 0 on an empty one; a
    /// search runs only over a non-empty playlist.
    pub open spec fn wf(&self) -> bool {
        &&& self@.playlist.len() == 0 ==> self@.cursor == 0
        &&& self@.playlist.len() > 0 ==> self@.cursor < self@.playlist.len()
        &&& self@.search matches Some(search) ==> search.attempts < self@.playlist.len()
        &&& self@.favorite_entries.no_duplicates()
    }

    proof fn lemma_view_fields(&self)
        ensures
            self@.playlist.len() == self.playlist@.len(),
            forall|i: int| 0 <= i < self.playlist@.len() ==> #[trigger] self@.playlist[i]
                == self.playlist@[i]@,
            self@.cursor == self.current_index,
            self@.favorite_entries.no_duplicates() == self.favorites_list.wf(),
    {
    }

    /// An engine with an empty playlist and nothing loaded, over the given lists.
    pub fn new(skip_list: SkipList, favorites_list: FavoritesList) -> (r: Player)
        requires
            favorites_list.wf(),
        ensures
            r.wf(),
            r@.playlist.len() == 0,
            r@.cursor == 0,
            r@.current is None,
            r@.skip_loaded == skip_list.loaded(),
            r@.skipped == skip_list.members(),
            r@.favorite_entries == favorites_list.entries(),
            r@.total_duration is None,
            r@.clock == PlaybackClock::stopped(),
            r@.metadata is None,
            r@.sink is None,
            r@.search is None,
    {
        Player {
            playlist: Vec::new(),
            current_index: 0,
            current_playing: None,
            skip_list,
            favorites_list,
            total_duration: None,
            clock: PlaybackClock::new(),
            current_metadata: None,
            sink: None,
            search: None,
        }
    }
}


/// A copy of a canonical path.
fn copy_canonical(c: &Option<String>) -> (r: Option<String>)
    ensures
        r == *c,
{
    match c {
        Some(s) => Some(s.clone()),
        None => None,
    }
}

/// The paths of `tracks`, in order.
fn paths_of(tracks: &Vec<TrackPath>) -> (r: Vec<String>)
    ensures
        views(r@) == track_paths(tracks@),
{
    let mut out: Vec<String> = Vec::new();
    let mut i: usize = 0;
    while i < tracks.len()
        invariant
            i <= tracks@.len(),
            views(out@) =~= track_paths(tracks@.subrange(0, i as int)),
        decreases tracks@.len() - i,
    {
        let p = tracks[i].path.clone();
        proof {
            lemma_views_push(out@, p);
            assert(track_paths(tracks@.subrange(0, i as int + 1)) =~= track_paths(
                tracks@.subrange(0, i as int),
            ).push(tracks@[i as int].path@));
        }
        out.push(p);
        i = i + 1;
    }
    assert(tracks@.subrange(0, tracks@.len() as int) =~= tracks@);
    out
}

impl Player {
    /// Drops the tracks that the skip list holds, keeping the order of the rest.
    fn filter_skipped_tracks(&self, playlist: &Vec<TrackPath>) -> (r: Vec<TrackPath>)
        ensures
            r@ == kept_tracks(playlist@, self@.skipped),
    {
        let mut out: Vec<TrackPath> = Vec::new();
        let mut i: usize = 0;
        while i < playlist.len()
            invariant
                i <= playlist@.len(),
                out@ == kept_tracks(playlist@.subrange(0, i as int), self@.skipped),
            decreases playlist@.len() - i,
        {
            let t = &playlist[i];
            proof {
                assert(playlist@.subrange(0, i as int + 1).drop_last() =~= playlist@.subrange(
                    0,
                    i as int,
                ));
            }
            if !self.skip_list.is_skipped(&t.canonical) {
                out.push(TrackPath { path: t.path.clone(), canonical: copy_canonical(&t.canonical) });
            }
            i = i + 1;
        }
        assert(playlist@.subrange(0, playlist@.len() as int) =~= playlist@);
        out
    }

    /// The paths of `playlist`, each favorite given twice in a row.
    fn add_favorites_twice(&self, playlist: &Vec<TrackPath>) -> (r: Vec<String>)
        ensures
            views(r@) == doubled_paths(playlist@, self@.favorites()),
    {
        let mut out: Vec<String> = Vec::with_capacity(playlist.len());
        let mut i: usize = 0;
        while i < playlist.len()
            invariant
                i <= playlist@.len(),
                views(out@) == doubled_paths(playlist@.subrange(0, i as int), self@.favorites()),
            decreases playlist@.len() - i,
        {
            let t = &playlist[i];
            proof {
                assert(playlist@.subrange(0, i as int + 1).drop_last() =~= playlist@.subrange(
                    0,
                    i as int,
                ));
            }
            let p = t.path.clone();
            proof {
                lemma_views_push(out@, p);
            }
            out.push(p);
            if self.favorites_list.is_favorite(&t.canonical) {
                let q = t.path.clone();
                proof {
                    lemma_views_push(out@, q);
                }
                out.push(q);
            }
            i = i + 1;
        }
        assert(playlist@.subrange(0, playlist@.len() as int) =~= playlist@);
        out
    }

    /// Starts a session over `playlist`: the tracks that the skip list holds
    /// are dropped, the order of the rest is kept and, where `random` holds,
    /// each favorite is given twice in a row (a shuffle, if any, is the
    /// caller's). The cursor goes back to the first track.
    pub fn set_playlist(&mut self, playlist: Vec<TrackPath>, random: bool)
        requires
            old(self).wf(),
        ensures
            final(self).wf(),
            final(self)@ == (PlayerView {
                playlist: session_playlist(
                    playlist@,
                    old(self)@.skipped,
                    old(self)@.favorites(),
                    random,
                ),
                cursor: 0,
                search: None,
                ..old(self)@
            }),
    {
        let kept = self.filter_skipped_tracks(&playlist);
        let list = if random {
            self.add_favorites_twice(&kept)
        } else {
            paths_of(&kept)
        };
        self.playlist = list;
        self.current_index = 0;
        self.search = None;
    }

    /// Begins a forward search for a track that loads: returns the track under
    /// the cursor, for the caller to load, or `None` on an empty playlist. The
    /// caller answers with `load_succeeded` or `load_failed`.
    pub fn play_next(&mut self) -> (r: Option<String>)
        requires
            old(self).wf(),
        ensures
            final(self).wf(),
            old(self)@.playlist.len() == 0 ==> (r is None) && final(self)@ == old(self)@,
            old(self)@.playlist.len() > 0 ==> (r matches Some(p) && p@
                == old(self)@.playlist[old(self)@.cursor as int] && final(self)@ == (PlayerView {
                search: Some(Search { forward: true, attempts: 0 }),
                ..old(self)@
            })),
    {
        if self.playlist.len() == 0 {
            return None;
        }
        if self.current_index >= self.playlist.len() {
            self.current_index = 0;
        }
        self.search = Some(Search { forward: true, attempts: 0 });
        proof {
            self.lemma_view_fields();
        }
        Some(self.playlist[self.current_index].clone())
    }

    /// Begins a backward search for a track that loads: steps the cursor back
    /// (from the first track to the last) and returns the track there, for the
    /// caller to load, or `None` on an empty playlist.
    pub fn play_previous(&mut self) -> (r: Option<String>)
        requires
            old(self).wf(),
        ensures
            final(self).wf(),
            old(self)@.playlist.len() == 0 ==> (r is None) && final(self)@ == old(self)@,
            old(self)@.playlist.len() > 0 ==> ({
                let c = previous_index(old(self)@.cursor, old(self)@.playlist.len());
                r matches Some(p) && p@ == old(self)@.playlist[c as int] && final(self)@ == (
                PlayerView { cursor: c, search: Some(Search { forward: false, attempts: 0 }), ..old(self)@ })
            }),
    {
        if self.playlist.len() == 0 {
            return None;
        }
        if self.current_index == 0 {
            self.current_index = self.playlist.len() - 1;
        } else {
            self.current_index = self.current_index - 1;
        }
        self.search = Some(Search { forward: false, attempts: 0 });
        proof {
            self.lemma_view_fields();
        }
        Some(self.playlist[self.current_index].clone())
    }

    /// The candidate of the search under way could not be loaded: moves on to
    /// the next one in the same direction and returns it, until one pass over
    /// the playlist has failed. Then the search ends with nothing loaded
    /// (`None`). Without a search under way nothing changes.
    pub fn load_failed(&mut self) -> (r: Option<String>)
        requires
            old(self).wf(),
        ensures
            final(self).wf(),
            final(self)@ == after_failure(old(self)@),
            match final(self)@.search {
                Some(_) => r matches Some(p) && p@ == final(self)@.playlist[final(self)@.cursor as int],
                None => r is None,
            },
    {
        let search = match self.search {
            Some(s) => s,
            None => {
                return None;
            },
        };
        let len = self.playlist.len();
        let attempts = search.attempts + 1;
        if search.forward {
            self.current_index = (self.current_index + 1) % len;
        }
        if attempts < len {
            if !search.forward {
                if self.current_index == 0 {
                    self.current_index = len - 1;
                } else {
                    self.current_index = self.current_index - 1;
                }
            }
            self.search = Some(Search { forward: search.forward, attempts });
            proof {
                self.lemma_view_fields();
            }
            Some(self.playlist[self.current_index].clone())
        } else {
            self.search = None;
            None
        }
    }

    /// The candidate of the search under way was loaded: it becomes the current
    /// track (after a forward search the cursor moves past it) and the clock,
    /// tags and sink are those of the new track. Without a search under way
    /// nothing changes.
    pub fn load_succeeded(
        &mut self,
        now: u64,
        total_duration: Option<u64>,
        metadata: Option<TrackMetadata>,
    )
        requires
            old(self).wf(),
        ensures
            final(self).wf(),
            final(self)@ == after_success(old(self)@, now, total_duration, metadata),
    {
        let search = match self.search {
            Some(s) => s,
            None => {
                return ;
            },
        };
        proof {
            self.lemma_view_fields();
        }
        assert(self@.search == Some(search));
        assert(self.current_index < self.playlist.len());
        let path = self.playlist[self.current_index].clone();
        let next = if search.forward {
            (self.current_index + 1) % self.playlist.len()
        } else {
            self.current_index
        };
        self.play_file(now, total_duration, metadata);
        self.current_playing = Some(path);
        self.current_index = next;
        self.search = None;
    }

    /// Takes in a track that the caller has loaded: its length, its tags, a
    /// fresh clock started at `now`, and a sink that plays at the default volume.
    pub fn play_file(&mut self, now: u64, total_duration: Option<u64>, metadata: Option<TrackMetadata>)
        ensures
            final(self)@ == (PlayerView {
                total_duration: total_duration,
                clock: PlaybackClock::started_at(now),
                metadata: metadata,
                sink: Some(SinkState { paused: false, volume: DEFAULT_VOLUME }),
                ..old(self)@
            }),
    {
        self.total_duration = total_duration;
        self.clock.start(now);
        self.current_metadata = metadata;
        self.sink = Some(SinkState { paused: false, volume: DEFAULT_VOLUME });
    }
}


/// The volume one step up from `v`, at most the highest volume.
pub open spec fn volume_up(v: u32) -> u32 {
    if v + VOLUME_STEP >= MAX_VOLUME {
        MAX_VOLUME
    } else {
        (v + VOLUME_STEP) as u32
    }
}

/// The volume one step down from `v`, at least zero.
pub open spec fn volume_down(v: u32) -> u32 {
    if v >= VOLUME_STEP {
        (v - VOLUME_STEP) as u32
    } else {
        0
    }
}

impl Player {
    /// One tick of automatic playback. When the sink of the loaded track has
    /// run dry (`queue_empty`) over a non-empty playlist, a forward search
    /// begins and its first candidate is returned to load, or, with the cursor
    /// past the end, playback stops. Otherwise nothing happens.
    pub fn handle_playback(&mut self, queue_empty: bool) -> (r: PlaybackAction)
        requires
            old(self).wf(),
        ensures
            final(self).wf(),
            if old(self)@.sink is Some && queue_empty && old(self)@.playlist.len() > 0 {
                if old(self)@.cursor >= old(self)@.playlist.len() {
                    (r is Stop) && final(self)@ == old(self)@
                } else {
                    r matches PlaybackAction::Load(p) && p@ == old(self)@.playlist[old(self)@.cursor as int]
                        && final(self)@ == (PlayerView {
                        search: Some(Search { forward: true, attempts: 0 }),
                        ..old(self)@
                    })
                }
            } else {
                (r is Continue) && final(self)@ == old(self)@
            },
    {
        if self.sink.is_some() && queue_empty && self.playlist.len() > 0 {
            if self.current_index >= self.playlist.len() {
                return PlaybackAction::Stop;
            }
            match self.play_next() {
                Some(p) => PlaybackAction::Load(p),
                None => PlaybackAction::Continue,
            }
        } else {
            PlaybackAction::Continue
        }
    }

    /// Pauses the loaded track at `now`; without one nothing changes.
    pub fn pause(&mut self, now: u64)
        ensures
            match old(self)@.sink {
                Some(sink) => final(self)@ == (PlayerView {
                    sink: Some(SinkState { paused: true, ..sink }),
                    clock: old(self)@.clock.paused_at(now),
                    ..old(self)@
                }),
                None => final(self)@ == old(self)@,
            },
    {
        if let Some(sink) = self.sink {
            self.sink = Some(SinkState { paused: true, volume: sink.volume });
            self.clock.pause(now);
        }
    }

    /// Resumes the loaded track at `now`, the pause that ends counted into the
    /// paused time; without a loaded track nothing changes.
    pub fn play(&mut self, now: u64)
        ensures
            match old(self)@.sink {
                Some(sink) => final(self)@ == (PlayerView {
                    sink: Some(SinkState { paused: false, ..sink }),
                    clock: old(self)@.clock.resumed_at(now),
                    ..old(self)@
                }),
                None => final(self)@ == old(self)@,
            },
    {
        if let Some(sink) = self.sink {
            self.sink = Some(SinkState { paused: false, volume: sink.volume });
            self.clock.resume(now);
        }
    }

    /// Whether a track is loaded and not paused.
    pub fn is_playing(&self) -> (r: bool)
        ensures
            r == (self@.sink matches Some(sink) && !sink.paused),
    {
        match self.sink {
            Some(sink) => !sink.paused,
            None => false,
        }
    }

    /// The volume of the loaded track in percent, if one is loaded.
    pub fn volume(&self) -> (r: Option<u32>)
        ensures
            r == (match self@.sink {
                Some(sink) => Some(sink.volume),
                None => None::<u32>,
            }),
    {
        match self.sink {
            Some(sink) => Some(sink.volume),
            None => None,
        }
    }

    /// Raises the volume one step, up to the highest volume; without a loaded
    /// track nothing changes.
    pub fn increase_volume(&mut self)
        ensures
            match old(self)@.sink {
                Some(sink) => final(self)@ == (PlayerView {
                    sink: Some(SinkState { volume: volume_up(sink.volume), ..sink }),
                    ..old(self)@
                }),
                None => final(self)@ == old(self)@,
            },
    {
        if let Some(sink) = self.sink {
            let raised = sink.volume.saturating_add(VOLUME_STEP);
            let v = if raised >= MAX_VOLUME {
                MAX_VOLUME
            } else {
                raised
            };
            self.sink = Some(SinkState { paused: sink.paused, volume: v });
        }
    }

    /// Lowers the volume one step, down to zero; without a loaded track nothing
    /// changes.
    pub fn decrease_volume(&mut self)
        ensures
            match old(self)@.sink {
                Some(sink) => final(self)@ == (PlayerView {
                    sink: Some(SinkState { volume: volume_down(sink.volume), ..sink }),
                    ..old(self)@
                }),
                None => final(self)@ == old(self)@,
            },
    {
        if let Some(sink) = self.sink {
            self.sink = Some(SinkState {
                paused: sink.paused,
                volume: sink.volume.saturating_sub(VOLUME_STEP),
            });
        }
    }

    /// Removes every entry of the current track from the playlist, the cursor
    /// moved back over the removed entries at or before it (`without_track`),
    /// and ends any search under way. Without a current track nothing changes.
    fn remove_current_from_playlist(&mut self)
        requires
            old(self).wf(),
        ensures
            final(self).wf(),
            match old(self)@.current {
                None => final(self)@ == old(self)@,
                Some(cur) => {
                    let (p, c) = without_track(old(self)@.playlist, old(self)@.cursor, cur);
                    final(self)@ == (PlayerView { playlist: p, cursor: c, search: None, ..old(self)@ })
                },
            },
    {
        let cur = match &self.current_playing {
            Some(c) => c.clone(),
            None => {
                return ;
            },
        };
        proof {
            self.lemma_view_fields();
        }
        let ghost pl = views(self.playlist@);
        let n = self.playlist.len();
        let cursor = self.current_index;
        let mut kept: Vec<String> = Vec::new();
        let mut before: usize = 0;
        let mut i: usize = 0;
        assert(pl.take(0) =~= Seq::<Seq<char>>::empty());
        assert(views(kept@) =~= Seq::<Seq<char>>::empty());
        while i < n
            invariant
                n == self.playlist@.len(),
                pl == views(self.playlist@),
                cursor == self.current_index,
                i <= n,
                before <= i,
                views(kept@) == without_all(pl.take(i as int), cur@),
                before == occurrences(
                    pl.take(
                        if i <= cursor + 1 {
                            i as int
                        } else {
                            cursor + 1
                        },
                    ),
                    cur@,
                ),
            decreases n - i,
        {
            let ghost prefix = pl.take(i as int);
            proof {
                assert(pl.take(i + 1) =~= prefix.push(pl[i as int]));
                assert(pl.take(i + 1).drop_last() =~= prefix);
                assert(pl[i as int] == self.playlist@[i as int]@);
                lemma_occurrences_push(prefix, pl[i as int], cur@);
            }
            if self.playlist[i] == cur {
                if i <= cursor {
                    before = before + 1;
                }
            } else {
                let e = self.playlist[i].clone();
                proof {
                    lemma_views_push(kept@, e);
                }
                kept.push(e);
            }
            i = i + 1;
        }
        proof {
            assert(pl.take(n as int) =~= pl);
            lemma_without_all_len(pl, cur@);
            if n > 0 {
                lemma_occurrences_prefix(pl, cur@, cursor + 1);
            }
        }
        self.playlist = kept;
        self.current_index = if cursor >= before {
            cursor - before
        } else {
            0
        };
        self.search = None;
    }

    /// The line that marking the current track as skipped appends to the skip
    /// file, so that the caller can write it before the state changes: `None`
    /// without a current track, an error where its canonical path could not be
    /// resolved. Nothing changes.
    pub fn skip_entry(&self, canonical: &Option<String>) -> (r: Result<Option<String>, ConfigError>)
        ensures
            match self@.current {
                None => r matches Ok(None),
                Some(_) => match canonical {
                    None => r == Err::<Option<String>, ConfigError>(ConfigError::TrackNotFound),
                    Some(c) => r matches Ok(Some(line)) && line@ == entry_line(c@),
                },
            },
    {
        if self.current_playing.is_none() {
            return Ok(None);
        }
        match canonical {
            None => Err(ConfigError::TrackNotFound),
            Some(c) => Ok(Some(crate::config::track_entry_line(c))),
        }
    }

    /// Marks the current track as skipped: it joins the skip list, every entry
    /// of it leaves the playlist (`without_track`), and a forward search for the next track
    /// begins. `canonical` is the current track's canonical path; where it could
    /// not be resolved the call fails and nothing changes. The result holds the
    /// line to append to the skip file and the first candidate of the search.
    /// Without a current track nothing changes.
    pub fn mark_skip(&mut self, canonical: &Option<String>) -> (r: Result<
        Option<SkipMarked>,
        ConfigError,
    >)
        requires
            old(self).wf(),
        ensures
            final(self).wf(),
            match old(self)@.current {
                None => (r matches Ok(None)) && final(self)@ == old(self)@,
                Some(cur) => match canonical {
                    None => r == Err::<Option<SkipMarked>, ConfigError>(ConfigError::TrackNotFound)
                        && final(self)@ == old(self)@,
                    Some(c) => r matches Ok(Some(marked)) && marked.line@ == entry_line(c@) && ({
                        let (p, k) = without_track(old(self)@.playlist, old(self)@.cursor, cur);
                        let skipped = skipped_after_add(
                            old(self)@.skip_loaded,
                            old(self)@.skipped,
                            c@,
                        );
                        if p.len() == 0 {
                            (marked.next is None) && final(self)@ == (PlayerView {
                                playlist: p,
                                cursor: k,
                                skipped: skipped,
                                search: None,
                                ..old(self)@
                            })
                        } else {
                            marked.next matches Some(n) && n@ == p[k as int] && final(self)@ == (
                            PlayerView {
                                playlist: p,
                                cursor: k,
                                skipped: skipped,
                                search: Some(Search { forward: true, attempts: 0 }),
                                ..old(self)@
                            })
                        }
                    }),
                },
            },
    {
        if self.current_playing.is_none() {
            return Ok(None);
        }
        let line = match self.skip_list.add(canonical) {
            Ok(line) => line,
            Err(e) => {
                return Err(e);
            },
        };
        self.remove_current_from_playlist();
        let next = self.play_next();
        Ok(Some(SkipMarked { line, next }))
    }

    /// Toggles the current track's place among the favorites. `canonical` is
    /// its canonical path. A favorite leaves the list, and the result holds the
    /// new text of the favorites file; any other track joins it, and the result
    /// holds the line to append, unless its path could not be resolved, which
    /// fails. Without a current track nothing changes.
    pub fn mark_favorite(&mut self, canonical: &Option<String>) -> (r: Result<
        Option<FileUpdate>,
        ConfigError,
    >)
        requires
            old(self).wf(),
        ensures
            final(self).wf(),
            match old(self)@.current {
                None => (r matches Ok(None)) && final(self)@ == old(self)@,
                Some(_) => if listed(*canonical, old(self)@.favorites()) {
                    &&& final(self)@ == (PlayerView {
                        favorite_entries: final(self)@.favorite_entries,
                        ..old(self)@
                    })
                    &&& final(self)@.favorites() == old(self)@.favorites().remove(
                        canonical->0@,
                    )
                    &&& r matches Ok(Some(FileUpdate::Rewrite(t))) && t@ == rendered_lines(
                        final(self)@.favorite_entries,
                    )
                } else {
                    match canonical {
                        None => r == Err::<Option<FileUpdate>, ConfigError>(
                            ConfigError::TrackNotFound,
                        ) && final(self)@ == old(self)@,
                        Some(c) => r matches Ok(Some(FileUpdate::Append(l))) && l@ == entry_line(
                            c@,
                        ) && final(self)@ == (PlayerView {
                            favorite_entries: favorites_with(old(self)@.favorite_entries, c@),
                            ..old(self)@
                        }),
                    }
                },
            },
    {
        if self.current_playing.is_none() {
            return Ok(None);
        }
        if self.favorites_list.is_favorite(canonical) {
            match self.favorites_list.remove(canonical) {
                Some(text) => Ok(Some(FileUpdate::Rewrite(text))),
                None => Ok(None),
            }
        } else {
            match self.favorites_list.add(canonical) {
                Ok(Some(line)) => Ok(Some(FileUpdate::Append(line))),
                Ok(None) => Ok(None),
                Err(e) => Err(e),
            }
        }
    }

    /// Drops every entry of the current track from the playlist once the caller
    /// has deleted its file (`without_track`); playing on is the caller's choice. Without a
    /// current track nothing changes.
    pub fn delete_current_track(&mut self)
        requires
            old(self).wf(),
        ensures
            final(self).wf(),
            match old(self)@.current {
                None => final(self)@ == old(self)@,
                Some(cur) => {
                    let (p, c) = without_track(old(self)@.playlist, old(self)@.cursor, cur);
                    final(self)@ == (PlayerView { playlist: p, cursor: c, search: None, ..old(self)@ })
                },
            },
    {
        self.remove_current_from_playlist();
    }

    /// Whether the track whose canonical path is `canonical` is a favorite.
    pub fn is_favorite(&self, canonical: &Option<String>) -> (r: bool)
        ensures
            r == listed(*canonical, self@.favorites()),
    {
        self.favorites_list.is_favorite(canonical)
    }

    /// How far into the loaded track playback is at `now`, if a track is loaded.
    pub fn get_current_position(&self, now: u64) -> (r: Option<u64>)
        ensures
            r == self@.clock.position_at(now),
    {
        self.clock.position(now)
    }

    /// The track loaded last, if any.
    pub fn get_current_track(&self) -> (r: Option<&String>)
        ensures
            match r {
                Some(t) => self@.current == Some(t@),
                None => self@.current is None,
            },
    {
        self.current_playing.as_ref()
    }

    /// The tags of the track loaded last, where they could be read.
    pub fn get_current_metadata(&self) -> (r: Option<&TrackMetadata>)
        ensures
            match r {
                Some(m) => self@.metadata == Some(*m),
                None => self@.metadata is None,
            },
    {
        self.current_metadata.as_ref()
    }

    /// The playlist of the session.
    pub fn get_playlist(&self) -> (r: &Vec<String>)
        ensures
            views(r@) == self@.playlist,
    {
        &self.playlist
    }

    /// The cursor: the index of the next track to play.
    pub fn get_current_index(&self) -> (r: usize)
        ensures
            r == self@.cursor,
    {
        self.current_index
    }

    /// The skip list.
    pub fn skip_list(&self) -> (r: &SkipList)
        ensures
            r.loaded() == self@.skip_loaded,
            r.members() == self@.skipped,
    {
        &self.skip_list
    }

    /// Reads the skip file's text into the skip list, unless that was done before.
    pub fn load_skipped_tracks(&mut self, text: &str)
        requires
            old(self).wf(),
        ensures
            final(self).wf(),
            final(self)@ == (PlayerView {
                skip_loaded: true,
                skipped: if old(self)@.skip_loaded {
                    old(self)@.skipped
                } else {
                    track_lines(text@).to_set()
                },
                ..old(self)@
            }),
    {
        self.skip_list.load_skipped_tracks(text);
    }
}


/// Whether `s` is a non-empty run of ASCII digits.
pub open spec fn is_digits(s: Seq<char>) -> bool {
    s.len() > 0 && forall|i: int| 0 <= i < s.len() ==> '0' <= #[trigger] s[i] <= '9'
}

/// The number that the ASCII digits `s` write in base ten.
pub open spec fn digits_value(s: Seq<char>) -> int
    decreases s.len(),
{
    if s.len() == 0 {
        0
    } else {
        digits_value(s.drop_last()) * 10 + (s.last() as int - '0' as int)
    }
}

/// The value of `s` read as an `i32` in base ten: an optional `+` or `-`,
/// then digits, the value in range; `None` for any other text.
pub open spec fn i32_of(s: Seq<char>) -> Option<i32> {
    let (negative, digits) = if s.len() > 0 && (s[0] == '-' || s[0] == '+') {
        (s[0] == '-', s.drop_first())
    } else {
        (false, s)
    };
    let v = if negative {
        -digits_value(digits)
    } else {
        digits_value(digits)
    };
    if is_digits(digits) && i32::MIN <= v <= i32::MAX {
        Some(v as i32)
    } else {
        None
    }
}

/// Relies on `<i32 as FromStr>::from_str`: an optional sign, then decimal
/// digits whose value fits; anything else is an error.
#[verifier::external_body]
fn parse_i32(s: &str) -> (r: Option<i32>)
    ensures
        r == i32_of(s@),
{
    s.parse::<i32>().ok()
}

/// How a year is written into a track's tags.
#[derive(Clone, Debug, PartialEq, Eq)]
pub enum YearTag {
    /// A year that reads as a number.
    Number(i32),
    /// Any other text, kept as it was given.
    Text(String),
}

/// The changes to make to a track's tags: a field left `None` is not touched.
#[derive(Clone, Debug, PartialEq, Eq)]
pub struct TagEdits {
    pub artist: Option<String>,
    pub album: Option<String>,
    pub title: Option<String>,
    pub year: Option<YearTag>,
}

impl Player {
    /// The tag changes that an edit asks for: each field given is set, each
    /// field left out keeps its value, and a year that does not read as a
    /// number is still kept, as text.
    pub fn edit_tags(
        artist: Option<String>,
        album: Option<String>,
        title: Option<String>,
        year: Option<String>,
    ) -> (r: TagEdits)
        ensures
            r.artist == artist,
            r.album == album,
            r.title == title,
            match year {
                None => r.year is None,
                Some(y) => match i32_of(y@) {
                    Some(n) => r.year == Some(YearTag::Number(n)),
                    None => r.year matches Some(YearTag::Text(t)) && t@ == y@,
                },
            },
    {
        let year_tag = match year {
            None => None,
            Some(y) => match parse_i32(y.as_str()) {
                Some(n) => Some(YearTag::Number(n)),
                None => Some(YearTag::Text(y)),
            },
        };
        TagEdits { artist, album, title, year: year_tag }
    }
}

} // verus!
