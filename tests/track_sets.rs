use ksound::config::{
    config_dir, join_path, render_tracks, ConfigError, FavoritesList, SkipList,
    FAVORITES_FILE_NAME, SKIP_FILE_NAME,
};

fn some(s: &str) -> Option<String> {
    Some(s.to_string())
}

#[test]
fn skipped_track_is_member_after_add() {
    let mut skip = SkipList::new("/cfg/skipped_tracks.txt".to_string());
    assert!(!skip.is_loaded());
    skip.load_skipped_tracks("/music/old.mp3\n");
    let line = skip.add(&some("/music/a.mp3")).unwrap();
    assert_eq!(line, "/music/a.mp3\n");
    assert!(skip.is_skipped(&some("/music/a.mp3")));
    assert!(skip.is_skipped(&some("/music/old.mp3")));
    assert!(!skip.is_skipped(&some("/music/b.mp3")));
}

#[test]
fn skip_cache_survives_a_second_load() {
    let mut skip = SkipList::new("/cfg/skipped_tracks.txt".to_string());
    skip.load_skipped_tracks("/music/a.mp3\n");
    // the file is gone or empty now: the cache still answers
    skip.load_skipped_tracks("");
    assert!(skip.is_skipped(&some("/music/a.mp3")));
}

#[test]
fn unresolved_path_is_not_skipped_and_cannot_be_added() {
    let mut skip = SkipList::new("/cfg/skipped_tracks.txt".to_string());
    skip.load_skipped_tracks("/music/a.mp3\n");
    assert!(!skip.is_skipped(&None));
    assert_eq!(skip.add(&None), Err(ConfigError::TrackNotFound));
}

#[test]
fn skip_list_not_loaded_learns_from_file() {
    let mut skip = SkipList::new("/cfg/skipped_tracks.txt".to_string());
    let line = skip.add(&some("/music/a.mp3")).unwrap();
    assert!(!skip.is_skipped(&some("/music/a.mp3")));
    skip.load_skipped_tracks(&line);
    assert!(skip.is_skipped(&some("/music/a.mp3")));
    assert_eq!(skip.skip_file_path(), "/cfg/skipped_tracks.txt");
}

#[test]
fn skip_file_blank_lines_and_crlf() {
    let mut skip = SkipList::new("s".to_string());
    skip.load_skipped_tracks("\n  \r\n/music/a.mp3\r\n\t\n/music/b.mp3");
    assert!(skip.is_skipped(&some("/music/a.mp3")));
    assert!(skip.is_skipped(&some("/music/b.mp3")));
    assert!(!skip.is_skipped(&some("  ")));
}

#[test]
fn favorites_round_trip() {
    let mut fav = FavoritesList::new("/cfg/favorites_tracks.txt".to_string(), "");
    assert!(!fav.is_favorite(&some("/music/a.mp3")));
    let added = fav.add(&some("/music/a.mp3")).unwrap();
    assert_eq!(added, Some("/music/a.mp3\n".to_string()));
    assert!(fav.is_favorite(&some("/music/a.mp3")));
    let text = fav.remove(&some("/music/a.mp3"));
    assert_eq!(text, Some(String::new()));
    assert!(!fav.is_favorite(&some("/music/a.mp3")));
}

#[test]
fn favorites_add_is_idempotent() {
    let mut fav = FavoritesList::new("f".to_string(), "/music/a.mp3\n/music/b.mp3\n");
    assert_eq!(fav.add(&some("/music/a.mp3")), Ok(None));
    let text = fav.remove(&some("/music/b.mp3")).unwrap();
    assert_eq!(text, "/music/a.mp3\n");
}

#[test]
fn favorites_file_duplicates_are_listed_once() {
    let mut fav = FavoritesList::new("f".to_string(), "/m/a.mp3\n\n/m/a.mp3\n/m/b.mp3\n");
    let text = fav.remove(&some("/m/c.mp3")).unwrap();
    assert_eq!(text, "/m/a.mp3\n/m/b.mp3\n");
    assert_eq!(fav.favorites_file_path(), "f");
}

#[test]
fn favorites_unresolved_paths() {
    let mut fav = FavoritesList::new("f".to_string(), "/m/a.mp3\n");
    assert_eq!(fav.add(&None), Err(ConfigError::TrackNotFound));
    assert_eq!(fav.remove(&None), None);
    assert!(!fav.is_favorite(&None));
    assert!(fav.is_favorite(&some("/m/a.mp3")));
}

#[test]
fn render_tracks_one_per_line() {
    let text = render_tracks(&vec!["/a".to_string(), "/b c".to_string()]);
    assert_eq!(text, "/a\n/b c\n");
    assert_eq!(render_tracks(&vec![]), "");
}

#[test]
fn join_path_adds_separator_where_needed() {
    assert_eq!(join_path("/home/u", ".ksound"), "/home/u/.ksound");
    assert_eq!(join_path("/home/u/", ".ksound"), "/home/u/.ksound");
    assert_eq!(join_path("", "x"), "x");
    assert_eq!(join_path("/cfg", SKIP_FILE_NAME), "/cfg/skipped_tracks.txt");
    assert_eq!(join_path("/cfg", FAVORITES_FILE_NAME), "/cfg/favorites_tracks.txt");
}

#[test]
fn config_dir_ends_in_ksound() {
    match config_dir() {
        Ok(dir) => assert!(dir.ends_with(".ksound")),
        Err(e) => assert_eq!(e, ConfigError::HomeDirNotFound),
    }
}
