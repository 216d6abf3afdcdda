use ksound::player::TrackMetadata;
use ksound::playlist::{is_mp3_path, parse_playlist, playing_order};
use ksound::text::{parse_track_lines, same_text};
use ksound::ui::{
    action_for_key, centered_rect, confirm_answer, Area, handle_input, now_playing_text, progress_text, EditState,
    EditStep, Key, UiMode, UserAction,
};

fn meta(artist: Option<&str>, album: Option<&str>, title: Option<&str>, year: Option<&str>) -> TrackMetadata {
    TrackMetadata {
        artist: artist.map(String::from),
        album: album.map(String::from),
        title: title.map(String::from),
        year: year.map(String::from),
    }
}

#[test]
fn keys_map_to_actions() {
    assert_eq!(action_for_key(Key::Char('q')), UserAction::Quit);
    assert_eq!(action_for_key(Key::Char(' ')), UserAction::PlayPause);
    assert_eq!(action_for_key(Key::Right), UserAction::Next);
    assert_eq!(action_for_key(Key::Left), UserAction::Previous);
    assert_eq!(action_for_key(Key::Char('f')), UserAction::MarkFavorite);
    assert_eq!(action_for_key(Key::Char('s')), UserAction::MarkSkip);
    assert_eq!(action_for_key(Key::Char('d')), UserAction::Delete);
    assert_eq!(action_for_key(Key::Char('e')), UserAction::EditTags);
    assert_eq!(action_for_key(Key::Char('+')), UserAction::VolumeUp);
    assert_eq!(action_for_key(Key::Char('-')), UserAction::VolumeDown);
    assert_eq!(action_for_key(Key::Char('x')), UserAction::NoAction);
    assert_eq!(action_for_key(Key::Up), UserAction::NoAction);
}

#[test]
fn confirmation_keys() {
    assert_eq!(confirm_answer(Key::Char('y')), Some(true));
    assert_eq!(confirm_answer(Key::Char('Y')), Some(true));
    assert_eq!(confirm_answer(Key::Char('n')), Some(false));
    assert_eq!(confirm_answer(Key::Esc), Some(false));
    assert_eq!(confirm_answer(Key::Enter), None);
}

#[test]
fn input_modes() {
    assert_eq!(handle_input(UiMode::Normal, None), (UserAction::NoAction, UiMode::Normal));
    assert_eq!(handle_input(UiMode::Normal, Some(Key::Char('q'))), (UserAction::Quit, UiMode::Normal));
    assert_eq!(
        handle_input(UiMode::EditingTags, Some(Key::Char('q'))),
        (UserAction::NoAction, UiMode::EditingTags)
    );
    assert_eq!(handle_input(UiMode::EditingTags, Some(Key::Esc)), (UserAction::NoAction, UiMode::Normal));
    assert_eq!(handle_input(UiMode::ConfirmDelete, Some(Key::Char('Y'))), (UserAction::Delete, UiMode::Normal));
    assert_eq!(handle_input(UiMode::ConfirmDelete, Some(Key::Char('N'))), (UserAction::NoAction, UiMode::Normal));
    assert_eq!(
        handle_input(UiMode::ConfirmDelete, Some(Key::Char('z'))),
        (UserAction::NoAction, UiMode::ConfirmDelete)
    );
}

#[test]
fn edit_form_reports_changed_fields() {
    let m = meta(Some("Old"), None, Some("Song"), None);
    let mut form = EditState::begin(Some(&m));
    assert_eq!(form.field_values(), &vec!["Old".to_string(), String::new(), "Song".to_string(), String::new()]);
    assert_eq!(form.apply_key(Key::Backspace), EditStep::Editing);
    assert_eq!(form.apply_key(Key::Char('e')), EditStep::Editing);
    form.apply_key(Key::Down);
    form.apply_key(Key::Down);
    form.apply_key(Key::Down);
    form.apply_key(Key::Down);
    assert_eq!(form.current_field(), 3);
    for c in "2001".chars() {
        form.apply_key(Key::Char(c));
    }
    form.apply_key(Key::Up);
    assert_eq!(form.current_field(), 2);
    assert_eq!(
        form.apply_key(Key::Enter),
        EditStep::Done(Some("Ole".to_string()), None, None, Some("2001".to_string()))
    );
}

#[test]
fn edit_form_cancel_and_cleared_fields() {
    let mut form = EditState::default();
    assert_eq!(form.current_field(), 0);
    form.apply_key(Key::Up);
    assert_eq!(form.current_field(), 0);
    form.apply_key(Key::Char('a'));
    assert_eq!(form.apply_key(Key::Esc), EditStep::Cancelled);
    let m = meta(Some("X"), None, None, None);
    let mut form = EditState::begin(Some(&m));
    form.apply_key(Key::Backspace);
    form.apply_key(Key::Backspace);
    assert_eq!(form.apply_key(Key::Enter), EditStep::Done(None, None, None, None));
}

#[test]
fn now_playing_lines() {
    let track = "/home/u/music/a.mp3".to_string();
    let rel = "music/a.mp3".to_string();
    assert_eq!(now_playing_text(None, &rel, None, false), "No track playing");
    assert_eq!(now_playing_text(Some(&track), &rel, None, false), "Now playing: /home/u/music/a.mp3");
    assert_eq!(now_playing_text(Some(&track), &rel, None, true), "Now playing: \u{2605} /home/u/music/a.mp3");
    let m = meta(None, None, None, None);
    assert_eq!(now_playing_text(Some(&track), &rel, Some(&m), true), "Now playing: \u{2605} music/a.mp3");
    let m = meta(Some("Unknown Artist"), None, None, Some(""));
    assert_eq!(now_playing_text(Some(&track), &rel, Some(&m), false), "Now playing: music/a.mp3");
    let m = meta(Some("Art"), None, Some("Song"), Some("1999"));
    assert_eq!(
        now_playing_text(Some(&track), &rel, Some(&m), false),
        "Now playing: Art - Unknown Album - Song (1999) [music/a.mp3]"
    );
    let m = meta(None, Some("Alb"), None, None);
    assert_eq!(
        now_playing_text(Some(&track), &rel, Some(&m), true),
        "Now playing: \u{2605} Unknown Artist - Alb - Unknown Title [music/a.mp3]"
    );
}

#[test]
fn progress_labels() {
    assert_eq!(progress_text(Some(65_500), Some(3_600_000)), "01:05 / 60:00");
    assert_eq!(progress_text(Some(0), Some(9_000)), "00:00 / 00:09");
    assert_eq!(progress_text(Some(10_000), Some(9_000)), "00:00 / 00:00");
    assert_eq!(progress_text(None, Some(9_000)), "00:00 / 00:00");
    assert_eq!(progress_text(Some(0), Some(0)), "00:00 / 00:00");
    assert_eq!(progress_text(Some(6_000_000), Some(6_000_000)), "100:00 / 100:00");
}

#[test]
fn playlist_file_entries_are_trimmed() {
    let entries = parse_playlist("  /m/a.mp3  \r\n\n\t\n/m/b c.mp3\n   ");
    assert_eq!(entries, vec!["/m/a.mp3".to_string(), "/m/b c.mp3".to_string()]);
    assert!(parse_playlist("").is_empty());
}

#[test]
fn track_file_lines_keep_inner_text() {
    let lines = parse_track_lines(" /m/a.mp3\r\n\r\n/m/b.mp3");
    assert_eq!(lines, vec![" /m/a.mp3".to_string(), "/m/b.mp3".to_string()]);
}

#[test]
fn mp3_extension_in_any_case() {
    assert!(is_mp3_path("/music/a.mp3"));
    assert!(is_mp3_path("/music/A.MP3"));
    assert!(is_mp3_path("song.Mp3"));
    assert!(is_mp3_path("/music.d/x.tar.mp3"));
    assert!(!is_mp3_path("/music/.mp3"));
    assert!(!is_mp3_path("/music/a.mp4"));
    assert!(!is_mp3_path("/music.mp3/a"));
    assert!(!is_mp3_path("/music/a.mp33"));
    assert!(!is_mp3_path("mp3"));
}

#[test]
fn same_text_compares_characters() {
    assert!(same_text("abc", "abc"));
    assert!(!same_text("abc", "abd"));
    assert!(!same_text("abc", "ab"));
}

#[test]
fn centered_rect_takes_the_middle() {
    let screen = Area { x: 0, y: 0, width: 100, height: 50 };
    assert_eq!(centered_rect(60, 20, screen), Area { x: 20, y: 20, width: 60, height: 10 });
    let full = centered_rect(100, 100, screen);
    assert_eq!(full, screen);
}

#[test]
fn playing_order_keeps_the_tracks() {
    let tracks: Vec<String> = (0..20).map(|i| format!("{}.mp3", i)).collect();
    assert_eq!(playing_order(tracks.clone(), false), tracks);
    let mut shuffled = playing_order(tracks.clone(), true);
    assert_eq!(shuffled.len(), 20);
    shuffled.sort();
    let mut sorted = tracks.clone();
    sorted.sort();
    assert_eq!(shuffled, sorted);
    assert!(playing_order(vec![], true).is_empty());
}
