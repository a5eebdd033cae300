use termtunes::library::{
    LibraryFocus, LibrarySelection, LibraryState, LibraryTrack, TrackRow, VisibleRow,
};

fn track(path: &str, title: &str, album: &str, artist: &str, number: Option<u32>) -> LibraryTrack {
    LibraryTrack {
        path: path.to_string(),
        title: title.to_string(),
        artist: artist.to_string(),
        album: album.to_string(),
        track_number: number,
        album_artist: artist.to_string(),
        duration: Some(200),
    }
}

#[test]
fn add_tracks_files_under_artist_and_album_in_order() {
    let mut lib = LibraryState::new();
    lib.add_tracks(vec![
        track("/m/zz/1.mp3", "One", "Zenith", "Zeta", Some(1)),
        track("/m/aa/2.mp3", "Two", "Alpha", "Ada", Some(2)),
        track("/m/aa/1.mp3", "One", "Alpha", "Ada", Some(1)),
    ]);
    assert_eq!(lib.artists.len(), 2);
    assert_eq!(lib.artists[0].name, "Ada");
    assert_eq!(lib.artists[1].name, "Zeta");
    let ada = &lib.artists[0];
    assert_eq!(ada.albums.len(), 1);
    assert_eq!(ada.albums[0].name, "Alpha");
    // sorted by track number, not arrival order
    assert_eq!(ada.albums[0].tracks[0].title, "One");
    assert_eq!(ada.albums[0].tracks[1].title, "Two");
}

#[test]
fn duplicate_paths_are_filed_once() {
    let mut lib = LibraryState::new();
    lib.add_tracks(vec![
        track("/m/a/1.mp3", "One", "A", "X", Some(1)),
        track("/m/a/1.mp3", "One again", "A", "X", Some(1)),
    ]);
    assert_eq!(lib.artists[0].albums[0].tracks.len(), 1);
}

#[test]
fn visible_rows_show_albums_only_when_expanded() {
    let mut lib = LibraryState::new();
    lib.add_tracks(vec![
        track("/m/a/1.mp3", "One", "A", "X", Some(1)),
        track("/m/b/1.mp3", "Uno", "B", "X", Some(1)),
    ]);
    assert_eq!(lib.visible_rows.len(), 1);
    assert!(matches!(lib.visible_rows[0], VisibleRow::Artist { artist_index: 0 }));
    lib.toggle_expanded();
    assert_eq!(lib.visible_rows.len(), 3);
    assert!(matches!(
        lib.visible_rows[1],
        VisibleRow::Album { artist_index: 0, album_index: 0 }
    ));
}

#[test]
fn selection_moves_down_and_stops_at_the_bottom() {
    let mut lib = LibraryState::new();
    lib.add_tracks(vec![
        track("/m/a/1.mp3", "One", "A", "X", Some(1)),
        track("/m/b/1.mp3", "Uno", "B", "Y", Some(1)),
    ]);
    assert_eq!(lib.selection, Some(LibrarySelection::Artist { artist_index: 0 }));
    lib.move_down();
    assert_eq!(lib.selection, Some(LibrarySelection::Artist { artist_index: 1 }));
    lib.move_down();
    assert_eq!(lib.selection, Some(LibrarySelection::Artist { artist_index: 1 }));
    lib.move_up();
    assert_eq!(lib.selection, Some(LibrarySelection::Artist { artist_index: 0 }));
    lib.move_up();
    assert_eq!(lib.selection, Some(LibrarySelection::Artist { artist_index: 0 }));
}

#[test]
fn visible_tracks_flatten_the_selected_artist() {
    let mut lib = LibraryState::new();
    lib.add_tracks(vec![
        track("/m/a/1.mp3", "A1", "A", "X", Some(1)),
        track("/m/b/1.mp3", "B1", "B", "X", Some(1)),
        track("/m/a/2.mp3", "A2", "A", "X", Some(2)),
    ]);
    let vt = lib.visible_tracks();
    assert_eq!(vt.len(), 3);
    assert_eq!(vt[0].title, "A1");
    assert_eq!(vt[1].title, "A2");
    assert_eq!(vt[2].title, "B1");
}

#[test]
fn next_track_path_follows_the_visible_order() {
    let mut lib = LibraryState::new();
    lib.add_tracks(vec![
        track("/m/a/1.mp3", "A1", "A", "X", Some(1)),
        track("/m/a/2.mp3", "A2", "A", "X", Some(2)),
    ]);
    let next = lib.next_track_path(&"/m/a/1.mp3".to_string());
    assert_eq!(next.as_deref(), Some("/m/a/2.mp3"));
    let after_last = lib.next_track_path(&"/m/a/2.mp3".to_string());
    assert_eq!(after_last, None);
    let unknown = lib.next_track_path(&"/nope".to_string());
    assert_eq!(unknown, None);
}

#[test]
fn track_by_path_searches_the_scan_list() {
    let mut lib = LibraryState::new();
    lib.tracks = vec![
        track("/m/a/1.mp3", "A1", "A", "X", Some(1)),
        track("/m/a/2.mp3", "A2", "A", "X", Some(2)),
    ];
    assert_eq!(lib.track_by_path(&"/m/a/2.mp3".to_string()).unwrap().title, "A2");
    assert!(lib.track_by_path(&"/zzz".to_string()).is_none());
}

#[test]
fn select_track_by_path_moves_the_cursor() {
    let mut lib = LibraryState::new();
    lib.add_tracks(vec![
        track("/m/a/1.mp3", "A1", "A", "X", Some(1)),
        track("/m/a/2.mp3", "A2", "A", "X", Some(2)),
    ]);
    lib.select_track_by_path(&"/m/a/2.mp3".to_string());
    assert_eq!(lib.track_index, 1);
    lib.select_track_by_path(&"/absent".to_string());
    assert_eq!(lib.track_index, 1);
}

#[test]
fn right_pane_groups_tracks_under_album_headings() {
    let mut lib = LibraryState::new();
    lib.add_tracks(vec![
        track("/m/a/1.mp3", "A1", "A", "X", Some(1)),
        track("/m/a/2.mp3", "A2", "A", "X", Some(2)),
        track("/m/b/1.mp3", "B1", "B", "X", Some(1)),
    ]);
    let (rows, playable) = lib.right_pane_items();
    assert_eq!(rows.len(), 5);
    assert!(matches!(&rows[0], TrackRow::AlbumHeader { album } if album == "A"));
    assert!(matches!(&rows[1], TrackRow::Track { title, .. } if title == "A1"));
    assert!(matches!(&rows[2], TrackRow::Track { title, .. } if title == "A2"));
    assert!(matches!(&rows[3], TrackRow::AlbumHeader { album } if album == "B"));
    assert!(matches!(&rows[4], TrackRow::Track { title, .. } if title == "B1"));
    assert_eq!(playable, vec![1, 2, 4]);
}

#[test]
fn tab_focus_toggles_between_panes() {
    let mut lib = LibraryState::new();
    assert!(lib.focus == LibraryFocus::Left);
    lib.tab_focus();
    assert!(lib.focus == LibraryFocus::Right);
    lib.tab_focus();
    assert!(lib.focus == LibraryFocus::Left);
}

#[test]
fn track_cursor_stays_in_range() {
    let mut lib = LibraryState::new();
    lib.move_track_up();
    assert_eq!(lib.track_index, 0);
    lib.move_track_down(3);
    assert_eq!(lib.track_index, 1);
    lib.move_track_down(3);
    assert_eq!(lib.track_index, 2);
    lib.move_track_down(3);
    assert_eq!(lib.track_index, 2);
    lib.move_track_up();
    assert_eq!(lib.track_index, 1);
}

#[test]
fn re_adding_a_scan_leaves_the_tree_unchanged() {
    let mut lib = LibraryState::new();
    let batch = vec![
        track("/m/a/1.mp3", "One", "A", "X", Some(1)),
        track("/m/b/1.mp3", "Uno", "B", "Y", Some(1)),
    ];
    lib.add_tracks(batch.clone());
    let names: Vec<String> = lib.artists.iter().map(|a| a.name.clone()).collect();
    let tracks_per_artist: Vec<usize> = lib
        .artists
        .iter()
        .map(|a| a.albums.iter().map(|al| al.tracks.len()).sum())
        .collect();
    lib.add_tracks(batch);
    let names_after: Vec<String> = lib.artists.iter().map(|a| a.name.clone()).collect();
    let tracks_after: Vec<usize> = lib
        .artists
        .iter()
        .map(|a| a.albums.iter().map(|al| al.tracks.len()).sum())
        .collect();
    assert_eq!(names, names_after);
    assert_eq!(tracks_per_artist, tracks_after);
}
