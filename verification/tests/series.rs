use torrentmanager::series::{find_episode, find_season, find_series, try_find_episode, try_find_season, try_find_series};

#[test]
fn test_series_name() {
    let s = "My awesome series";
    let series = find_series(s);

    assert_eq!(series.name, s);
    assert_eq!(series.year, None);
}

#[test]
fn test_series_name_year() {
    let s = "My awesome poney ( 2020 ) ";
    let series = find_series(s);

    assert_eq!(series.name, "My awesome poney");
    assert_eq!(series.year, Some(2020));
}

#[test]
fn test_season_name() {
    let s = "Season 1";
    let season = find_season(s);

    assert_eq!(season.season, 1);
}

#[test]
fn test_season_with_zero() {
    let s = "Season 01";
    let season = find_season(s);

    assert_eq!(season.season, 1);
}

#[test]
fn test_season_with_year() {
    let s = "Season 1 (2025)";
    let season = find_season(s);

    assert_eq!(season.season, 1);
}

#[test]
fn episode_marker_is_read() {
    let ep = find_episode("Show.S02E13.mkv");
    assert_eq!(ep.season, 2);
    assert_eq!(ep.episode, 13);
    assert_eq!(ep.path, "Show.S02E13.mkv");
}

#[test]
fn episode_without_marker_is_none() {
    assert!(try_find_episode("Show.mkv").is_none());
}

#[test]
fn season_without_number_is_none() {
    assert!(try_find_season("Specials").is_none());
}

#[test]
fn season_too_large_for_u8_is_none() {
    assert!(try_find_season("Season 300").is_none());
}

#[test]
fn series_keeps_path_and_trims_name() {
    let series = try_find_series("  Dark (2017)").unwrap();
    assert_eq!(series.path, "  Dark (2017)");
    assert_eq!(series.name, "Dark");
    assert_eq!(series.year, Some(2017));
}
