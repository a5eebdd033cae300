use termtunes::browser::{arrange_entries, BrowserItem, BrowserState, OpenAction};
use termtunes::tags::{
    duration_from_time_base, fold_std_tags, parse_u32, tag_strategy, TagKey, TagStrategy,
};

#[test]
fn parse_u32_accepts_plain_and_signed_decimals() {
    assert_eq!(parse_u32("0"), Some(0));
    assert_eq!(parse_u32("12"), Some(12));
    assert_eq!(parse_u32("+7"), Some(7));
    assert_eq!(parse_u32("4294967295"), Some(u32::MAX));
}

#[test]
fn parse_u32_rejects_junk_and_overflow() {
    assert_eq!(parse_u32(""), None);
    assert_eq!(parse_u32("+"), None);
    assert_eq!(parse_u32("12a"), None);
    assert_eq!(parse_u32("-3"), None);
    assert_eq!(parse_u32(" 4"), None);
    assert_eq!(parse_u32("4294967296"), None);
    assert_eq!(parse_u32("99999999999999999999"), None);
}

#[test]
fn parse_u32_matches_the_standard_parser() {
    for s in ["0", "0042", "+123", "", "x", "4294967295", "4294967296"] {
        assert_eq!(parse_u32(s), s.parse::<u32>().ok());
    }
}

#[test]
fn duration_follows_the_time_base() {
    // 441000 frames at 1/44100 seconds per tick
    assert_eq!(duration_from_time_base(441000, 1, 44100), Some(10));
    assert_eq!(duration_from_time_base(90, 1, 3), Some(30));
    assert_eq!(duration_from_time_base(10, 1, 0), None);
    assert_eq!(duration_from_time_base(u64::MAX, 1, 1), Some(u64::MAX));
    assert_eq!(duration_from_time_base(u64::MAX, 2, 1), None);
}

#[test]
fn tag_folding_takes_the_last_value_and_defaults_the_rest() {
    let tags = vec![
        (TagKey::Title, "First".to_string()),
        (TagKey::Other, "ignored".to_string()),
        (TagKey::Title, "Second".to_string()),
        (TagKey::TrackNumber, "07".to_string()),
        (TagKey::Artist, "Someone".to_string()),
    ];
    let f = fold_std_tags(&tags);
    assert_eq!(f.title, "Second");
    assert_eq!(f.artist, "Someone");
    assert_eq!(f.album, "Unknown Album");
    assert_eq!(f.album_artist, "Unknown Album Artist");
    assert_eq!(f.track_number, Some(7));
}

#[test]
fn unparsable_track_number_stays_empty() {
    let tags = vec![(TagKey::TrackNumber, "A7".to_string())];
    let f = fold_std_tags(&tags);
    assert_eq!(f.track_number, None);
}

#[test]
fn strategy_follows_the_extension() {
    assert!(matches!(tag_strategy(&Some("mp3".to_string())), TagStrategy::Id3));
    assert!(matches!(tag_strategy(&Some("flac".to_string())), TagStrategy::Symphonia));
    assert!(matches!(tag_strategy(&Some("ogg".to_string())), TagStrategy::Skip));
    assert!(matches!(tag_strategy(&None), TagStrategy::Skip));
}

fn pair(path: &str, name: &str) -> (String, String) {
    (path.to_string(), name.to_string())
}

#[test]
fn browser_hides_dotfiles_and_sorts_by_path() {
    let rows = arrange_entries(vec![
        pair("/d/zeta", "zeta"),
        pair("/d/.git", ".git"),
        pair("/d/alpha", "alpha"),
        pair("/d/midway", "midway"),
    ]);
    assert_eq!(rows.len(), 4);
    assert!(matches!(rows[0], BrowserItem::UpDirectory));
    let paths: Vec<&str> = rows[1..]
        .iter()
        .map(|r| match r {
            BrowserItem::Entry(p) => p.as_str(),
            _ => panic!("entries only after the parent row"),
        })
        .collect();
    assert_eq!(paths, vec!["/d/alpha", "/d/midway", "/d/zeta"]);
}

#[test]
fn browser_cursor_and_open_requests() {
    let rows = arrange_entries(vec![pair("/d/a", "a"), pair("/d/b", "b")]);
    let mut b = BrowserState::new("/d".to_string(), rows);
    assert!(matches!(b.open_request(true), OpenAction::GoUp));
    assert_eq!(b.selected_path(), None);
    b.move_down();
    assert_eq!(b.selected_path().map(|s| s.as_str()), Some("/d/a"));
    match b.open_request(true) {
        OpenAction::Enter(p) => assert_eq!(p, "/d/a"),
        _ => panic!("a directory entry should be entered"),
    }
    assert!(matches!(b.open_request(false), OpenAction::Stay));
    b.move_down();
    b.move_down(); // stays on the last row
    assert_eq!(b.selected_path().map(|s| s.as_str()), Some("/d/b"));
    b.move_up();
    b.move_up();
    b.move_up();
    assert_eq!(b.selected_path(), None); // back on the parent row
    let sub = arrange_entries(vec![pair("/d/a/x", "x")]);
    b.enter_directory("/d/a".to_string(), sub);
    assert_eq!(b.current_dir, "/d/a");
    assert_eq!(b.list.selected, 0);
}
