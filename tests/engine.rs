use ksound::config::{FavoritesList, SkipList};
use ksound::player::{
    FileUpdate, PlaybackAction, PlaybackClock, Player, TagEdits, TrackMetadata, TrackPath,
    YearTag,
};

fn track(name: &str) -> TrackPath {
    TrackPath { path: format!("{}.mp3", name), canonical: Some(format!("/music/{}.mp3", name)) }
}

fn canon(name: &str) -> Option<String> {
    Some(format!("/music/{}.mp3", name))
}

fn player_with(skipped: &str, favorites: &str) -> Player {
    let mut skip = SkipList::new("skip".to_string());
    skip.load_skipped_tracks(skipped);
    let fav = FavoritesList::new("fav".to_string(), favorites);
    Player::new(skip, fav)
}

fn paths(p: &Player) -> Vec<String> {
    p.get_playlist().clone()
}

/// Loads the next track, failing every candidate but those named in `loads`.
fn advance(p: &mut Player, now: u64, loads: &[&str]) -> Option<String> {
    let mut candidate = p.play_next();
    while let Some(c) = candidate {
        if loads.iter().any(|l| format!("{}.mp3", l) == c) {
            p.load_succeeded(now, Some(180_000), None);
            return Some(c);
        }
        candidate = p.load_failed();
    }
    None
}

#[test]
fn plain_session_keeps_order_and_repeats() {
    let mut p = player_with("/music/b.mp3\n", "/music/a.mp3\n");
    p.set_playlist(vec![track("a"), track("a"), track("b"), track("c")], false);
    assert_eq!(paths(&p), vec!["a.mp3", "a.mp3", "c.mp3"]);
    assert_eq!(p.get_current_index(), 0);
}

#[test]
fn random_session_doubles_favorites_and_drops_skipped() {
    let mut p = player_with("/music/c.mp3\n", "/music/a.mp3\n/music/c.mp3\n");
    p.set_playlist(vec![track("a"), track("b"), track("c"), track("d")], true);
    assert_eq!(paths(&p), vec!["a.mp3", "a.mp3", "b.mp3", "d.mp3"]);
}

#[test]
fn unresolved_tracks_are_kept_once() {
    let mut p = player_with("", "");
    let t = TrackPath { path: "gone.mp3".to_string(), canonical: None };
    p.set_playlist(vec![t], true);
    assert_eq!(paths(&p), vec!["gone.mp3"]);
}

#[test]
fn end_to_end_favorite_then_skip() {
    let mut p = player_with("", "/music/a.mp3\n");
    p.set_playlist(vec![track("a"), track("b"), track("c")], true);
    assert_eq!(paths(&p), vec!["a.mp3", "a.mp3", "b.mp3", "c.mp3"]);
    // play a, a, then b
    assert_eq!(advance(&mut p, 0, &["a", "b", "c"]), Some("a.mp3".to_string()));
    assert_eq!(advance(&mut p, 0, &["a", "b", "c"]), Some("a.mp3".to_string()));
    assert_eq!(advance(&mut p, 0, &["a", "b", "c"]), Some("b.mp3".to_string()));
    assert_eq!(p.get_current_index(), 3);
    let marked = p.mark_skip(&canon("b")).unwrap().unwrap();
    assert_eq!(marked.line, "/music/b.mp3\n");
    assert_eq!(paths(&p), vec!["a.mp3", "a.mp3", "c.mp3"]);
    assert_eq!(p.get_current_index(), 2);
    assert_eq!(marked.next, Some("c.mp3".to_string()));
    assert!(p.skip_list().is_skipped(&canon("b")));
    assert!(!p.skip_list().is_skipped(&canon("a")));
}

#[test]
fn mark_skip_on_first_track_of_three() {
    let mut p = player_with("", "");
    p.set_playlist(vec![track("a"), track("b"), track("c")], false);
    assert_eq!(advance(&mut p, 0, &["a", "b", "c"]), Some("a.mp3".to_string()));
    let marked = p.mark_skip(&canon("a")).unwrap().unwrap();
    assert_eq!(paths(&p), vec!["b.mp3", "c.mp3"]);
    assert!(p.get_current_index() < 2);
    assert_eq!(p.get_current_index(), 0);
    assert_eq!(marked.next, Some("b.mp3".to_string()));
    assert!(p.skip_list().is_skipped(&canon("a")));
    assert!(!p.skip_list().is_skipped(&canon("b")));
    assert!(!p.skip_list().is_skipped(&canon("c")));
}

#[test]
fn mark_skip_without_current_track_does_nothing() {
    let mut p = player_with("", "");
    p.set_playlist(vec![track("a")], false);
    assert!(p.mark_skip(&canon("a")).unwrap().is_none());
    assert_eq!(paths(&p), vec!["a.mp3"]);
}

#[test]
fn mark_skip_of_unresolved_track_fails() {
    let mut p = player_with("", "");
    p.set_playlist(vec![track("a"), track("b")], false);
    advance(&mut p, 0, &["a"]);
    assert!(p.mark_skip(&None).is_err());
    assert_eq!(paths(&p), vec!["a.mp3", "b.mp3"]);
}

#[test]
fn search_lands_on_the_only_loadable_track() {
    for start in 0..4 {
        let mut p = player_with("", "");
        p.set_playlist(vec![track("a"), track("b"), track("c"), track("d")], false);
        // move the cursor to `start` with every track loadable
        for _ in 0..start {
            advance(&mut p, 0, &["a", "b", "c", "d"]);
        }
        assert_eq!(advance(&mut p, 0, &["c"]), Some("c.mp3".to_string()));
        assert_eq!(p.get_current_track(), Some(&"c.mp3".to_string()));
        assert_eq!(p.get_current_index(), 3);
        // and again from the cursor it left
        assert_eq!(advance(&mut p, 0, &["c"]), Some("c.mp3".to_string()));
    }
}

#[test]
fn search_gives_up_after_one_pass() {
    let mut p = player_with("", "");
    p.set_playlist(vec![track("a"), track("b"), track("c")], false);
    let mut tried = vec![];
    let mut candidate = p.play_next();
    while let Some(c) = candidate {
        tried.push(c);
        candidate = p.load_failed();
    }
    assert_eq!(tried, vec!["a.mp3", "b.mp3", "c.mp3"]);
    assert!(p.get_current_track().is_none());
    assert!(!p.is_playing());
}

#[test]
fn play_previous_steps_back_and_wraps() {
    let mut p = player_with("", "");
    p.set_playlist(vec![track("a"), track("b"), track("c")], false);
    assert_eq!(p.play_previous(), Some("c.mp3".to_string()));
    assert_eq!(p.load_failed(), Some("b.mp3".to_string()));
    p.load_succeeded(0, None, None);
    assert_eq!(p.get_current_track(), Some(&"b.mp3".to_string()));
    assert_eq!(p.get_current_index(), 1);
}

#[test]
fn empty_playlist_has_no_candidate() {
    let mut p = player_with("", "");
    assert_eq!(p.play_next(), None);
    assert_eq!(p.play_previous(), None);
    assert_eq!(p.load_failed(), None);
}

#[test]
fn position_excludes_the_pause() {
    let mut p = player_with("", "");
    p.set_playlist(vec![track("a")], false);
    assert_eq!(p.get_current_position(0), None);
    advance(&mut p, 1_000, &["a"]);
    p.pause(6_000);
    assert!(!p.is_playing());
    assert_eq!(p.get_current_position(7_000), Some(5_000));
    p.play(9_000);
    assert!(p.is_playing());
    assert_eq!(p.get_current_position(11_000), Some(7_000));
    assert_eq!(p.total_duration, Some(180_000));
}

#[test]
fn clock_position_after_pause_and_resume() {
    let mut c = PlaybackClock::new();
    assert_eq!(c.position(10), None);
    c.start(0);
    c.pause(5_000);
    c.resume(8_000);
    assert_eq!(c.position(10_000), Some(7_000));
    c.resume(9_000);
    assert_eq!(c.position(10_000), Some(7_000));
}

#[test]
fn clock_never_goes_negative() {
    let mut c = PlaybackClock::new();
    c.start(10_000);
    assert_eq!(c.position(5_000), Some(0));
}

#[test]
fn volume_is_clamped() {
    let mut p = player_with("", "");
    p.increase_volume();
    assert_eq!(p.volume(), None);
    p.set_playlist(vec![track("a")], false);
    advance(&mut p, 0, &["a"]);
    assert_eq!(p.volume(), Some(100));
    for _ in 0..15 {
        p.increase_volume();
    }
    assert_eq!(p.volume(), Some(200));
    p.decrease_volume();
    assert_eq!(p.volume(), Some(190));
    for _ in 0..25 {
        p.decrease_volume();
    }
    assert_eq!(p.volume(), Some(0));
}

#[test]
fn handle_playback_advances_when_sink_is_empty() {
    let mut p = player_with("", "");
    p.set_playlist(vec![track("a"), track("b")], false);
    assert_eq!(p.handle_playback(true), PlaybackAction::Continue);
    advance(&mut p, 0, &["a", "b"]);
    assert_eq!(p.handle_playback(false), PlaybackAction::Continue);
    assert_eq!(p.handle_playback(true), PlaybackAction::Load("b.mp3".to_string()));
    p.load_succeeded(5, None, None);
    assert_eq!(p.get_current_track(), Some(&"b.mp3".to_string()));
}

#[test]
fn mark_favorite_toggles() {
    let mut p = player_with("", "/music/z.mp3\n");
    p.set_playlist(vec![track("a")], false);
    assert!(p.mark_favorite(&canon("a")).unwrap().is_none());
    advance(&mut p, 0, &["a"]);
    let added = p.mark_favorite(&canon("a")).unwrap();
    assert_eq!(added, Some(FileUpdate::Append("/music/a.mp3\n".to_string())));
    assert!(p.is_favorite(&canon("a")));
    let removed = p.mark_favorite(&canon("a")).unwrap();
    assert_eq!(removed, Some(FileUpdate::Rewrite("/music/z.mp3\n".to_string())));
    assert!(!p.is_favorite(&canon("a")));
    assert!(p.mark_favorite(&None).is_err());
}

#[test]
fn delete_current_track_moves_cursor_back() {
    let mut p = player_with("", "");
    p.set_playlist(vec![track("a"), track("b"), track("c")], false);
    advance(&mut p, 0, &["a", "b", "c"]);
    advance(&mut p, 0, &["a", "b", "c"]);
    assert_eq!(p.get_current_index(), 2);
    p.delete_current_track();
    assert_eq!(paths(&p), vec!["a.mp3", "c.mp3"]);
    assert_eq!(p.get_current_index(), 1);
}

#[test]
fn delete_last_track_leaves_empty_playlist() {
    let mut p = player_with("", "");
    p.set_playlist(vec![track("a")], false);
    advance(&mut p, 0, &["a"]);
    p.delete_current_track();
    assert!(paths(&p).is_empty());
    assert_eq!(p.get_current_index(), 0);
    assert_eq!(p.play_next(), None);
}

#[test]
fn metadata_of_loaded_track() {
    let mut p = player_with("", "");
    p.set_playlist(vec![track("a")], false);
    let candidate = p.play_next();
    assert_eq!(candidate, Some("a.mp3".to_string()));
    let meta = TrackMetadata {
        artist: Some("Art".to_string()),
        album: None,
        title: Some("Song".to_string()),
        year: Some("1999".to_string()),
    };
    p.load_succeeded(0, Some(1_000), Some(meta));
    let m = p.get_current_metadata().unwrap();
    assert_eq!(m.artist.as_deref(), Some("Art"));
    assert_eq!(m.album, None);
}

#[test]
fn tag_edits_keep_text_years() {
    let e = Player::edit_tags(Some("A".to_string()), None, None, Some("2024".to_string()));
    assert_eq!(
        e,
        TagEdits {
            artist: Some("A".to_string()),
            album: None,
            title: None,
            year: Some(YearTag::Number(2024)),
        }
    );
    let e = Player::edit_tags(None, None, Some("T".to_string()), Some("circa 1990".to_string()));
    assert_eq!(e.year, Some(YearTag::Text("circa 1990".to_string())));
    assert_eq!(e.title, Some("T".to_string()));
    let e = Player::edit_tags(None, None, None, Some("-12".to_string()));
    assert_eq!(e.year, Some(YearTag::Number(-12)));
    let e = Player::edit_tags(None, None, None, Some("99999999999".to_string()));
    assert_eq!(e.year, Some(YearTag::Text("99999999999".to_string())));
    let e = Player::edit_tags(None, None, None, None);
    assert_eq!(e.year, None);
}

#[test]
fn skipping_a_doubled_favorite_removes_both_copies() {
    let mut p = player_with("", "/music/a.mp3\n");
    p.set_playlist(vec![track("a"), track("b")], true);
    assert_eq!(paths(&p), vec!["a.mp3", "a.mp3", "b.mp3"]);
    assert_eq!(advance(&mut p, 0, &["a", "b"]), Some("a.mp3".to_string()));
    assert_eq!(p.get_current_index(), 1);
    let marked = p.mark_skip(&canon("a")).unwrap().unwrap();
    assert_eq!(paths(&p), vec!["b.mp3"]);
    assert_eq!(p.get_current_index(), 0);
    assert_eq!(marked.next, Some("b.mp3".to_string()));
    assert!(p.skip_list().is_skipped(&canon("a")));
}

#[test]
fn deleting_a_repeated_track_removes_every_entry() {
    let mut p = player_with("", "");
    p.set_playlist(vec![track("a"), track("b"), track("a"), track("c")], false);
    advance(&mut p, 0, &["a", "b", "c"]);
    advance(&mut p, 0, &["a", "b", "c"]);
    assert_eq!(advance(&mut p, 0, &["a", "b", "c"]), Some("a.mp3".to_string()));
    assert_eq!(p.get_current_index(), 3);
    p.delete_current_track();
    assert_eq!(paths(&p), vec!["b.mp3", "c.mp3"]);
    assert_eq!(p.get_current_index(), 1);
    assert_eq!(p.play_next(), Some("c.mp3".to_string()));
}

#[test]
fn skip_entry_is_the_line_to_append() {
    let mut p = player_with("", "");
    p.set_playlist(vec![track("a")], false);
    assert_eq!(p.skip_entry(&canon("a")), Ok(None));
    advance(&mut p, 0, &["a"]);
    assert_eq!(p.skip_entry(&canon("a")), Ok(Some("/music/a.mp3\n".to_string())));
    assert!(p.skip_entry(&None).is_err());
    assert_eq!(paths(&p), vec!["a.mp3"]);
}
