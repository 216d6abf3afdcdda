use vstd::prelude::*;

use crate::config::{favorites_with, skipped_after_add, SkipList};
use crate::player::{
    after_failures, after_success, doubled_paths, kept_tracks, lemma_occurrences_push, listed, next_index, occurrences,
    previous_index, session_playlist, steps_from, track_paths, without_all, without_track,
    PlaybackClock, PlayerView, Search, TrackMetadata, TrackPath,
};

verus! {

broadcast use vstd::seq_lib::group_seq_properties;

/// Skipping or deleting a track removes every copy of it from the playlist
/// (a doubled favorite included) and keeps every other entry as often as
/// before, in order; a cursor into the playlist still points into what is left.
pub proof fn lemma_removal_leaves_no_copy(
    playlist: Seq<Seq<char>>,
    cursor: nat,
    track: Seq<char>,
    other: Seq<char>,
)
    requires
        cursor < playlist.len(),
    ensures
        !without_track(playlist, cursor, track).0.contains(track),
        other != track ==> occurrences(without_track(playlist, cursor, track).0, other)
            == occurrences(playlist, other),
        without_track(playlist, cursor, track).0.len() > 0 ==> without_track(
            playlist,
            cursor,
            track,
        ).1 < without_track(playlist, cursor, track).0.len(),
        without_track(playlist, cursor, track).0.len() == 0 ==> without_track(
            playlist,
            cursor,
            track,
        ).1 == 0,
{
    lemma_without_all_facts(playlist, track, other);
    crate::player::lemma_without_track_cursor(playlist, cursor, track);
}

proof fn lemma_without_all_facts(s: Seq<Seq<char>>, t: Seq<char>, other: Seq<char>)
    ensures
        !without_all(s, t).contains(t),
        other != t ==> occurrences(without_all(s, t), other) == occurrences(s, other),
    decreases s.len(),
{
    if s.len() > 0 {
        lemma_without_all_facts(s.drop_last(), t, other);
        let rest = without_all(s.drop_last(), t);
        if s.last() != t {
            lemma_occurrences_push(rest, s.last(), other);
            if rest.push(s.last()).contains(t) {
                let k = choose|k: int| 0 <= k < rest.len() + 1 && rest.push(s.last())[k] == t;
                assert(rest[k] == t);
            }
        }
    }
}

proof fn lemma_track_paths_push(ts: Seq<TrackPath>, t: TrackPath)
    ensures
        track_paths(ts.push(t)) == track_paths(ts).push(t.path@),
{
    assert(track_paths(ts.push(t)) =~= track_paths(ts).push(t.path@));
}

/// Once the skip list is in memory, a track added to it (`SkipList::add`,
/// `Player::mark_skip`) is reported as skipped under its canonical path from
/// then on, every track skipped before stays skipped, and no other track
/// becomes skipped. Reading the backing file again leaves a list in memory as
/// it is (`SkipList::load_skipped_tracks`).
pub proof fn lemma_skipped_after_add(list: SkipList, track: Seq<char>, other: Seq<char>)
    requires
        list.loaded(),
    ensures
        skipped_after_add(list.loaded(), list.members(), track).contains(track),
        list.members().contains(other) ==> skipped_after_add(
            list.loaded(),
            list.members(),
            track,
        ).contains(other),
        other != track && !list.members().contains(other) ==> !skipped_after_add(
            list.loaded(),
            list.members(),
            track,
        ).contains(other),
{
}

/// Without randomizing, a session's playlist holds no path more often than the
/// offered tracks do: no entry is repeated that was not repeated before, and
/// the order of the kept tracks is that of the offer.
pub proof fn lemma_plain_session_adds_nothing(
    tracks: Seq<TrackPath>,
    skipped: Set<Seq<char>>,
    favorites: Set<Seq<char>>,
    x: Seq<char>,
)
    ensures
        session_playlist(tracks, skipped, favorites, false) == track_paths(
            kept_tracks(tracks, skipped),
        ),
        occurrences(session_playlist(tracks, skipped, favorites, false), x) <= occurrences(
            track_paths(tracks),
            x,
        ),
    decreases tracks.len(),
{
    if tracks.len() > 0 {
        let rest = tracks.drop_last();
        let t = tracks.last();
        lemma_plain_session_adds_nothing(rest, skipped, favorites, x);
        assert(tracks =~= rest.push(t));
        lemma_track_paths_push(rest, t);
        lemma_occurrences_push(track_paths(rest), t.path@, x);
        if !listed(t.canonical, skipped) {
            lemma_track_paths_push(kept_tracks(rest, skipped), t);
            lemma_occurrences_push(track_paths(kept_tracks(rest, skipped)), t.path@, x);
        }
    }
}

/// A path that no offered track has does not appear in a randomized session.
proof fn lemma_absent_path(
    tracks: Seq<TrackPath>,
    skipped: Set<Seq<char>>,
    favorites: Set<Seq<char>>,
    x: Seq<char>,
)
    requires
        !track_paths(tracks).contains(x),
    ensures
        occurrences(session_playlist(tracks, skipped, favorites, true), x) == 0,
    decreases tracks.len(),
{
    if tracks.len() > 0 {
        let rest = tracks.drop_last();
        let t = tracks.last();
        assert(tracks =~= rest.push(t));
        lemma_track_paths_push(rest, t);
        assert(track_paths(tracks)[tracks.len() - 1] == t.path@);
        if track_paths(rest).contains(x) {
            let k = choose|k: int| 0 <= k < track_paths(rest).len() && track_paths(rest)[k] == x;
            assert(track_paths(tracks)[k] == x);
        }
        lemma_absent_path(rest, skipped, favorites, x);
        let d = doubled_paths(kept_tracks(rest, skipped), favorites);
        if !listed(t.canonical, skipped) {
            assert(kept_tracks(tracks, skipped).drop_last() =~= kept_tracks(rest, skipped));
            lemma_occurrences_push(d, t.path@, x);
            lemma_occurrences_push(d.push(t.path@), t.path@, x);
        }
    }
}

/// In a randomized session over tracks with distinct paths, a skipped track
/// appears zero times, a favorite exactly twice, and any other track exactly
/// once.
pub proof fn lemma_random_session_counts(
    tracks: Seq<TrackPath>,
    skipped: Set<Seq<char>>,
    favorites: Set<Seq<char>>,
    i: int,
)
    requires
        track_paths(tracks).no_duplicates(),
        0 <= i < tracks.len(),
    ensures
        occurrences(session_playlist(tracks, skipped, favorites, true), tracks[i].path@) == if listed(
            tracks[i].canonical,
            skipped,
        ) {
            0nat
        } else if listed(tracks[i].canonical, favorites) {
            2nat
        } else {
            1nat
        },
    decreases tracks.len(),
{
    let rest = tracks.drop_last();
    let t = tracks.last();
    let x = tracks[i].path@;
    assert(tracks =~= rest.push(t));
    lemma_track_paths_push(rest, t);
    assert(track_paths(rest) =~= track_paths(tracks).drop_last());
    let d = doubled_paths(kept_tracks(rest, skipped), favorites);
    if !listed(t.canonical, skipped) {
        assert(kept_tracks(tracks, skipped).drop_last() =~= kept_tracks(rest, skipped));
        lemma_occurrences_push(d, t.path@, x);
        lemma_occurrences_push(d.push(t.path@), t.path@, x);
    }
    if i == tracks.len() - 1 {
        if track_paths(rest).contains(x) {
            let k = choose|k: int| 0 <= k < track_paths(rest).len() && track_paths(rest)[k] == x;
            assert(track_paths(tracks)[k] == track_paths(tracks)[i]);
        }
        lemma_absent_path(rest, skipped, favorites, x);
    } else {
        assert(track_paths(tracks)[i] != track_paths(tracks)[tracks.len() - 1]);
        assert(rest[i] == tracks[i]);
        lemma_random_session_counts(rest, skipped, favorites, i);
    }
}

/// Adding a track to the favorites makes it a favorite, adding it again
/// changes nothing (the number of favorites included), and removing it makes
/// it no favorite.
pub proof fn lemma_favorites_round_trip(entries: Seq<Seq<char>>, track: Seq<char>)
    requires
        entries.no_duplicates(),
    ensures
        favorites_with(entries, track).to_set().contains(track),
        favorites_with(favorites_with(entries, track), track) == favorites_with(entries, track),
        favorites_with(entries, track).to_set().remove(track).contains(track) == false,
{
    let once = favorites_with(entries, track);
    if !entries.to_set().contains(track) {
        assert(once[entries.len() as int] == track);
    }
    assert(once.to_set().contains(track));
}

proof fn lemma_forward_steps(start: nat, k: nat, len: nat)
    requires
        len > 0,
        start < len,
    ensures
        steps_from(start, k, len, true) == (start + k) as int % (len as int),
    decreases k,
{
    if k > 0 {
        lemma_forward_steps(start, (k - 1) as nat, len);
        let c = steps_from(start, (k - 1) as nat, len, true);
        let x = (start + k - 1) as int;
        vstd::arithmetic::div_mod::lemma_add_mod_noop(x, 1, len as int);
        vstd::arithmetic::div_mod::lemma_add_mod_noop(x % (len as int), 1, len as int);
        vstd::arithmetic::div_mod::lemma_mod_twice(x, len as int);
        assert(next_index(c, len) == (c + 1) as int % (len as int));
    } else {
        vstd::arithmetic::div_mod::lemma_small_mod(start, len);
    }
}

proof fn lemma_backward_steps(start: nat, k: nat, len: nat)
    requires
        len > 0,
        start < len,
        k <= len,
    ensures
        steps_from(start, k, len, false) == if k <= start {
            start - k
        } else {
            start + len - k
        },
    decreases k,
{
    if k > 0 {
        lemma_backward_steps(start, (k - 1) as nat, len);
    }
}

/// Each failed candidate of a forward search moves the cursor one step on;
/// within one pass the search is still under way.
proof fn lemma_forward_failures(v: PlayerView, k: nat)
    requires
        v.cursor < v.playlist.len() <= usize::MAX,
        v.search == Some(Search { forward: true, attempts: 0 }),
        k < v.playlist.len(),
    ensures
        after_failures(v, k) == (PlayerView {
            cursor: steps_from(v.cursor, k, v.playlist.len(), true),
            search: Some(Search { forward: true, attempts: k as usize }),
            ..v
        }),
    decreases k,
{
    if k > 0 {
        lemma_forward_failures(v, (k - 1) as nat);
    }
}

/// For `j` below the length, `(start + j) % len` as a plain sum.
proof fn lemma_wrapped(start: nat, j: nat, len: nat)
    requires
        start < len,
        j < len,
    ensures
        (start + j) as int % (len as int) == if start + j < len {
            (start + j) as int
        } else {
            start + j - len
        },
{
    if start + j < len {
        vstd::arithmetic::div_mod::lemma_small_mod((start + j) as nat, len);
    } else {
        let x = (start + j - len) as int;
        vstd::arithmetic::div_mod::lemma_mod_add_multiples_vanish(x, len as int);
        vstd::arithmetic::div_mod::lemma_small_mod(x as nat, len);
    }
}

/// A forward search (`play_next`) over a playlist in which only the track at
/// `target` loads lands on it within one pass, whatever the cursor: reporting
/// each other candidate as failed (`load_failed`) leads to `target` and to no
/// other track first, and loading it (`load_succeeded`) makes it the current
/// track with the cursor just past it, from where the next search begins.
pub proof fn lemma_search_finds_only_loadable(
    v: PlayerView,
    target: nat,
    now: u64,
    total_duration: Option<u64>,
    metadata: Option<TrackMetadata>,
)
    requires
        v.cursor < v.playlist.len() <= usize::MAX,
        target < v.playlist.len(),
        v.search == Some(Search { forward: true, attempts: 0 }),
    ensures
        exists|k: nat|
            #![trigger after_failures(v, k)]
            {
                &&& k < v.playlist.len()
                &&& forall|j: nat| j < k ==> (#[trigger] after_failures(v, j)).cursor != target
                    && after_failures(v, j).search is Some
                &&& after_failures(v, k).cursor == target
                &&& after_failures(v, k).search is Some
                &&& after_success(after_failures(v, k), now, total_duration, metadata).current
                    == Some(v.playlist[target as int])
                &&& after_success(after_failures(v, k), now, total_duration, metadata).cursor
                    == next_index(target, v.playlist.len())
                &&& next_index(target, v.playlist.len()) < v.playlist.len()
            },
{
    let len = v.playlist.len();
    let c = v.cursor;
    let k: nat = if target >= c {
        (target - c) as nat
    } else {
        (target + len - c) as nat
    };
    lemma_forward_failures(v, k);
    lemma_forward_steps(c, k, len);
    lemma_wrapped(c, k, len);
    assert forall|j: nat| j < k implies (#[trigger] after_failures(v, j)).cursor != target
        && after_failures(v, j).search is Some by {
        lemma_forward_failures(v, j);
        lemma_forward_steps(c, j, len);
        lemma_wrapped(c, j, len);
    }
    vstd::arithmetic::div_mod::lemma_mod_bound((target + 1) as int, len as int);
    assert(after_failures(v, k).cursor == target);
}

/// Whatever the cursor, a backward search tries every track of the playlist
/// within one pass: its candidates are the cursor moved 1, 2, ... steps back,
/// and some number of steps up to the length reaches any given track.
pub proof fn lemma_backward_search_reaches(len: nat, start: nat, target: nat)
    requires
        start < len,
        target < len,
    ensures
        exists|k: nat| 1 <= k <= len && #[trigger] steps_from(start, k, len, false) == target,
        previous_index(target, len) < len,
{
    let k: nat = if target < start {
        (start - target) as nat
    } else {
        (start + len - target) as nat
    };
    lemma_backward_steps(start, k, len);
    assert(steps_from(start, k, len, false) == target);
}

/// The position excludes the time spent paused: a track loaded at `start`,
/// paused at `pause` and resumed at `resume`, stands at
/// `(now - start) - (resume - pause)` at any later `now`.
pub proof fn lemma_position_excludes_pause(start: u64, pause: u64, resume: u64, now: u64)
    requires
        start <= pause <= resume <= now,
    ensures
        PlaybackClock::started_at(start).paused_at(pause).resumed_at(resume).position_at(now)
            == Some(((now - start) - (resume - pause)) as u64),
{
}

} // verus!
