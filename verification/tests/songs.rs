use musesp::songs::{level_entries, parse_level, parse_song_list};

#[test]
fn song_list_lines_become_songs() {
    let text = "  alpha|Song A|Someone  \n\nbad line\nbeta|Song B|Other|Extra\r\n|x|y\n";
    let songs = parse_song_list(text, "assets/m");
    assert_eq!(songs.len(), 3);
    assert_eq!(
        (songs[0].subdir.as_str(), songs[0].name.as_str(), songs[0].author.as_str(), songs[0].item_id.as_str()),
        ("alpha", "Song A", "Someone", "assets/m/alpha")
    );
    assert_eq!(songs[1].author, "Other|Extra");
    assert_eq!(songs[1].item_id, "assets/m/beta");
    assert_eq!((songs[2].subdir.as_str(), songs[2].name.as_str()), ("", "x"));
}

#[test]
fn lines_with_fewer_than_three_fields_are_skipped() {
    assert!(parse_song_list("a|b\nc\n   \n", "f").is_empty());
    assert!(parse_song_list("", "f").is_empty());
}

#[test]
fn last_line_without_newline_counts() {
    let songs = parse_song_list("a|b|c", "dir");
    assert_eq!(songs.len(), 1);
    assert_eq!(songs[0].item_id, "dir/a");
}

#[test]
fn levels_parse_like_integers() {
    assert_eq!(parse_level("12"), Some(12));
    assert_eq!(parse_level("+7"), Some(7));
    assert_eq!(parse_level("-3"), Some(-3));
    assert_eq!(parse_level("007"), Some(7));
    assert_eq!(parse_level("2147483647"), Some(2147483647));
    assert_eq!(parse_level("-2147483648"), Some(-2147483648));
    assert_eq!(parse_level("2147483648"), None);
    assert_eq!(parse_level(""), None);
    assert_eq!(parse_level("-"), None);
    assert_eq!(parse_level("+"), None);
    assert_eq!(parse_level("1a"), None);
    assert_eq!(parse_level(" 1"), None);
    assert_eq!(parse_level("hard"), None);
}

#[test]
fn level_entries_are_ordered_by_level_keeping_ties() {
    let keys: Vec<String> = vec!["12".into(), "hard".into(), "3".into(), "easy".into(), "-1".into(), "3".into()];
    let e = level_entries(&keys);
    let got: Vec<(&str, i32)> = e.iter().map(|(k, v)| (k.as_str(), *v)).collect();
    assert_eq!(got, vec![("-1", -1), ("hard", 0), ("easy", 0), ("3", 3), ("3", 3), ("12", 12)]);
}

#[test]
fn level_entries_of_nothing_is_nothing() {
    assert!(level_entries(&Vec::new()).is_empty());
}

#[test]
fn song_meta_orders_levels_and_reads_the_cover() {
    let text = "[music]\ncover = \"cover.png\"\n[music.levels]\n12 = \"hard.chart\"\n3 = \"easy.chart\"\nex = \"x.chart\"\n";
    let (levels, cover) = musesp::songs::song_meta(text).expect("meta");
    assert_eq!(
        levels,
        vec![("ex".to_string(), 0), ("3".to_string(), 3), ("12".to_string(), 12)]
    );
    assert_eq!(cover, "cover.png");
}

#[test]
fn song_meta_without_levels_or_cover() {
    let (levels, cover) = musesp::songs::song_meta("[music]\ntitle = \"t\"\n").expect("meta");
    assert!(levels.is_empty());
    assert_eq!(cover, "");
    assert!(musesp::songs::song_meta("not = [toml").is_none());
}

#[test]
fn song_meta_ignores_values_of_the_wrong_kind() {
    let (levels, cover) = musesp::songs::song_meta("[music]\nlevels = 3\ncover = 7\n").expect("meta");
    assert!(levels.is_empty());
    assert_eq!(cover, "");
    let (levels, _) = musesp::songs::song_meta("music = \"x\"\n").expect("meta");
    assert!(levels.is_empty());
}
