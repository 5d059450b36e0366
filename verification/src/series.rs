//! Recognising series, seasons and episodes from folder and file names.
//!
//! Matching is done by the `regex` crate; what is decided from the capture
//! groups it returns (which group is used, how it is trimmed and parsed) is
//! verified here.

use vstd::prelude::*;

use crate::text::{all_digits, decimal_value, owned, parse_decimal, parse_unsigned, trim, trimmed};

verus! {

/// The capture groups (group 0 is the whole match) of the leftmost-first match
/// of the regular expression `pattern` in `haystack`, as the `regex` crate
/// computes them; `None` when nothing matches.
pub uninterp spec fn regex_capture_groups(pattern: Seq<char>, haystack: Seq<char>) -> Option<Seq<Option<Seq<char>>>>;

/// Trusted: compiles `pattern` with `regex::Regex::new` and runs
/// `Regex::captures` on `haystack`, returning the text of every group.
/// The contract only names the result; nothing is said of regex semantics.
/// A pattern that fails to compile gives `None` (the patterns of this
/// module are all valid).
#[verifier::external_body]
fn capture_groups(pattern: &str, haystack: &str) -> (res: Option<Vec<Option<String>>>)
    ensures
        res.deep_view() == regex_capture_groups(pattern@, haystack@),
{
    let re = match regex::Regex::new(pattern) {
        Ok(re) => re,
        Err(_) => return None,
    };
    let caps = re.captures(haystack)?;
    let mut groups = Vec::new();
    for m in caps.iter() {
        groups.push(match m {
            Some(m) => Some(m.as_str().to_string()),
            None => None,
        });
    }
    Some(groups)
}

/// Pattern recognising `S01E02`-style episode markers.
pub open spec fn episode_pattern() -> Seq<char> {
    "S(?<season>\\d{1,2})E(?<episode>\\d{1,2})"@
}

/// Pattern recognising a series name with an optional `(year)`.
pub open spec fn series_pattern() -> Seq<char> {
    "\\s*(?<name>(?:\\s+|\\w+)+)(?:\\s*\\(\\s*(?<year>\\s*\\d{4})\\s*\\))?\\s*"@
}

/// Pattern recognising the first number of a season folder.
pub open spec fn season_pattern() -> Seq<char> {
    ".*?(?<season>\\d+).*"@
}

/// The text of group `i` in a capture result, if the match exists and the group took part.
pub open spec fn group_text(groups: Option<Seq<Option<Seq<char>>>>, i: int) -> Option<Seq<char>> {
    match groups {
        Some(g) => if 0 <= i < g.len() { g[i] } else { None },
        None => None,
    }
}

/// Season and episode numbers read from a capture result (groups 1 and 2, as `u8`).
pub open spec fn episode_in(groups: Option<Seq<Option<Seq<char>>>>) -> Option<(nat, nat)> {
    match (group_text(groups, 1), group_text(groups, 2)) {
        (Some(s), Some(e)) => match (parse_unsigned(s, 255), parse_unsigned(e, 255)) {
            (Some(sv), Some(ev)) => Some((sv, ev)),
            _ => None,
        },
        _ => None,
    }
}

/// Name (group 1, trimmed) and optional year (group 2, as `u16`) read from a capture result.
pub open spec fn series_in(groups: Option<Seq<Option<Seq<char>>>>) -> Option<(Seq<char>, Option<nat>)> {
    match group_text(groups, 1) {
        None => None,
        Some(name) => match group_text(groups, 2) {
            None => Some((trimmed(name), None)),
            Some(year) => match parse_unsigned(year, 65535) {
                Some(y) => Some((trimmed(name), Some(y))),
                None => None,
            },
        },
    }
}

/// Season number read from a capture result (group 1, as `u8`).
pub open spec fn season_in(groups: Option<Seq<Option<Seq<char>>>>) -> Option<nat> {
    match group_text(groups, 1) {
        Some(s) => parse_unsigned(s, 255),
        None => None,
    }
}

/// Season and episode of a file name, if it holds a readable `SxxEyy` marker.
pub open spec fn episode_of(path: Seq<char>) -> Option<(nat, nat)> {
    episode_in(regex_capture_groups(episode_pattern(), path))
}

/// Name and year of a series folder name, if readable.
pub open spec fn series_of(path: Seq<char>) -> Option<(Seq<char>, Option<nat>)> {
    series_in(regex_capture_groups(series_pattern(), path))
}

/// Season number of a season folder name, if readable.
pub open spec fn season_of(path: Seq<char>) -> Option<nat> {
    season_in(regex_capture_groups(season_pattern(), path))
}

/// How content is organized in a collection.
pub enum CollectionType {
    /// Only individual items in the collection (eg. movies)
    Unique,
    /// Items are organized by seasons/episodes
    Series,
    /// Free organization where children roam free
    Folders,
}

/// A collection organized by seasons
pub struct CollectionSeries {
    pub path: String,
    /// Name of the series
    pub name: String,
    /// Year of the series
    pub year: Option<u16>,
}

/// A season folder of a series.
pub struct SeriesSeason {
    pub path: String,
    pub season: u8,
}

/// An episode file of a series.
pub struct SeriesEpisode {
    pub path: String,
    pub season: u8,
    pub episode: u8,
}

/// Text of group `i`, when the match exists and the group took part.
fn group(groups: &Option<Vec<Option<String>>>, i: usize) -> (res: Option<String>)
    ensures
        res.deep_view() == group_text(groups.deep_view(), i as int),
{
    match groups {
        Some(g) => {
            if i < g.len() {
                match &g[i] {
                    Some(s) => Some(owned(s.as_str())),
                    None => None,
                }
            } else {
                None
            }
        },
        None => None,
    }
}

/// Builds the episode of `path` from the capture result `groups` of the episode pattern.
pub fn episode_from_groups(path: &str, groups: &Option<Vec<Option<String>>>) -> (res: Option<SeriesEpisode>)
    ensures
        match episode_in(groups.deep_view()) {
            Some((s, e)) => res matches Some(ep) && ep.path@ == path@ && ep.season == s && ep.episode == e,
            None => res is None,
        },
{
    let season_text = group(groups, 1);
    let episode_text = group(groups, 2);
    match (season_text, episode_text) {
        (Some(s), Some(e)) => {
            match (parse_decimal(s.as_str(), 255), parse_decimal(e.as_str(), 255)) {
                (Some(sv), Some(ev)) => Some(
                    SeriesEpisode { path: owned(path), season: sv as u8, episode: ev as u8 },
                ),
                _ => None,
            }
        },
        _ => None,
    }
}

/// Builds the series of `path` from the capture result `groups` of the series pattern.
pub fn series_from_groups(path: &str, groups: &Option<Vec<Option<String>>>) -> (res: Option<CollectionSeries>)
    ensures
        match series_in(groups.deep_view()) {
            Some((name, year)) => res matches Some(c) && c.path@ == path@ && c.name@ == name
                && match year {
                    Some(y) => c.year == Some(y as u16),
                    None => c.year is None,
                },
            None => res is None,
        },
{
    let name = group(groups, 1);
    let year = group(groups, 2);
    match name {
        None => None,
        Some(n) => {
            match year {
                None => Some(CollectionSeries { path: owned(path), name: trim(n.as_str()), year: None }),
                Some(y) => match parse_decimal(y.as_str(), 65535) {
                    Some(v) => Some(
                        CollectionSeries {
                            path: owned(path),
                            name: trim(n.as_str()),
                            year: Some(v as u16),
                        },
                    ),
                    None => None,
                },
            }
        },
    }
}

/// Builds the season of `path` from the capture result `groups` of the season pattern.
pub fn season_from_groups(path: &str, groups: &Option<Vec<Option<String>>>) -> (res: Option<SeriesSeason>)
    ensures
        match season_in(groups.deep_view()) {
            Some(s) => res matches Some(se) && se.path@ == path@ && se.season == s,
            None => res is None,
        },
{
    match group(groups, 1) {
        Some(s) => match parse_decimal(s.as_str(), 255) {
            Some(v) => Some(SeriesSeason { path: owned(path), season: v as u8 }),
            None => None,
        },
        None => None,
    }
}

/// Reads the `SxxEyy` marker of an episode file name.
///
/// The name must hold a marker whose numbers fit in a `u8`.
pub fn find_episode(path: &str) -> (res: SeriesEpisode)
    requires
        episode_of(path@) is Some,
    ensures
        res.path@ == path@,
        res.season == episode_of(path@).unwrap().0,
        res.episode == episode_of(path@).unwrap().1,
{
    let pattern = "S(?<season>\\d{1,2})E(?<episode>\\d{1,2})";
    let groups = capture_groups(pattern, path);
    let res = episode_from_groups(path, &groups);
    match res {
        Some(ep) => ep,
        None => {
            assert(false);
            SeriesEpisode { path: owned(path), season: 0, episode: 0 }
        },
    }
}

/// Reads the name and optional `(year)` of a series folder name.
pub fn find_series(path: &str) -> (res: CollectionSeries)
    requires
        series_of(path@) is Some,
    ensures
        res.path@ == path@,
        res.name@ == series_of(path@).unwrap().0,
        match series_of(path@).unwrap().1 {
            Some(y) => res.year == Some(y as u16),
            None => res.year is None,
        },
{
    let pattern = "\\s*(?<name>(?:\\s+|\\w+)+)(?:\\s*\\(\\s*(?<year>\\s*\\d{4})\\s*\\))?\\s*";
    let groups = capture_groups(pattern, path);
    let res = series_from_groups(path, &groups);
    match res {
        Some(c) => c,
        None => {
            assert(false);
            CollectionSeries { path: owned(path), name: owned(path), year: None }
        },
    }
}

/// Reads the first number of a season folder name.
pub fn find_season(path: &str) -> (res: SeriesSeason)
    requires
        season_of(path@) is Some,
    ensures
        res.path@ == path@,
        res.season == season_of(path@).unwrap(),
{
    let pattern = ".*?(?<season>\\d+).*";
    let groups = capture_groups(pattern, path);
    let res = season_from_groups(path, &groups);
    match res {
        Some(s) => s,
        None => {
            assert(false);
            SeriesSeason { path: owned(path), season: 0 }
        },
    }
}

/// Like [`find_episode`], but answers `None` where no readable marker is found.
pub fn try_find_episode(path: &str) -> (res: Option<SeriesEpisode>)
    ensures
        match episode_of(path@) {
            Some((s, e)) => res matches Some(ep) && ep.path@ == path@ && ep.season == s && ep.episode == e,
            None => res is None,
        },
{
    let groups = capture_groups("S(?<season>\\d{1,2})E(?<episode>\\d{1,2})", path);
    if episode_from_groups(path, &groups).is_some() {
        Some(find_episode(path))
    } else {
        None
    }
}

/// Like [`find_series`], but answers `None` where no name is found.
pub fn try_find_series(path: &str) -> (res: Option<CollectionSeries>)
    ensures
        match series_of(path@) {
            Some((name, year)) => res matches Some(c) && c.path@ == path@ && c.name@ == name
                && match year {
                    Some(y) => c.year == Some(y as u16),
                    None => c.year is None,
                },
            None => res is None,
        },
{
    let groups = capture_groups(
        "\\s*(?<name>(?:\\s+|\\w+)+)(?:\\s*\\(\\s*(?<year>\\s*\\d{4})\\s*\\))?\\s*",
        path,
    );
    if series_from_groups(path, &groups).is_some() {
        Some(find_series(path))
    } else {
        None
    }
}

/// Like [`find_season`], but answers `None` where no number is found.
pub fn try_find_season(path: &str) -> (res: Option<SeriesSeason>)
    ensures
        match season_of(path@) {
            Some(s) => res matches Some(se) && se.path@ == path@ && se.season == s,
            None => res is None,
        },
{
    let groups = capture_groups(".*?(?<season>\\d+).*", path);
    if season_from_groups(path, &groups).is_some() {
        Some(find_season(path))
    } else {
        None
    }
}


proof fn lemma_short_digits_value(s: Seq<char>, len: nat, bound: nat)
    requires
        all_digits(s),
        1 <= s.len() <= len,
        len <= 4,
        bound == if len == 1 { 9nat } else if len == 2 { 99nat } else if len == 3 { 999nat } else { 9999nat },
    ensures
        decimal_value(s) <= bound,
    decreases s.len(),
{
    reveal_with_fuel(decimal_value, 5);
    let d = (s.last() as int) - ('0' as int);
    assert(crate::text::is_digit(s[s.len() - 1]));
    assert(0 <= d <= 9);
    if s.len() > 1 {
        let t = s.drop_last();
        assert(all_digits(t)) by {
            assert forall|i: int| 0 <= i < t.len() implies crate::text::is_digit(#[trigger] t[i]) by {
                assert(t[i] == s[i]);
            }
        }
        let lb: nat = if len == 2 { 9nat } else if len == 3 { 99nat } else { 999nat };
        lemma_short_digits_value(t, (len - 1) as nat, lb);
        assert(decimal_value(s) == decimal_value(t) * 10 + d);
    }
}

/// Law: every `SxxEyy` marker the episode pattern captures is read: for
/// season and episode groups of one or two digits, the season and episode
/// are the values of those digits.
pub proof fn lemma_episode_marker_read(whole: Option<Seq<char>>, season: Seq<char>, episode: Seq<char>)
    requires
        all_digits(season),
        all_digits(episode),
        1 <= season.len() <= 2,
        1 <= episode.len() <= 2,
    ensures
        episode_in(Some(seq![whole, Some(season), Some(episode)])) == Some((decimal_value(season), decimal_value(episode))),
{
    lemma_short_digits_value(season, 2, 99);
    lemma_short_digits_value(episode, 2, 99);
    assert(season[0] != '+') by {
        assert(crate::text::is_digit(season[0]));
    }
    assert(episode[0] != '+') by {
        assert(crate::text::is_digit(episode[0]));
    }
}

/// Law: a season number of digits that fits a `u8` is read as its value.
pub proof fn lemma_season_number_read(whole: Option<Seq<char>>, number: Seq<char>)
    requires
        all_digits(number),
        number.len() > 0,
        decimal_value(number) <= 255,
    ensures
        season_in(Some(seq![whole, Some(number)])) == Some(decimal_value(number)),
{
    assert(number[0] != '+') by {
        assert(crate::text::is_digit(number[0]));
    }
}

/// Law: a series year of four digits is read as its value, with the name
/// trimmed.
pub proof fn lemma_series_year_read(whole: Option<Seq<char>>, name: Seq<char>, year: Seq<char>)
    requires
        all_digits(year),
        year.len() == 4,
    ensures
        series_in(Some(seq![whole, Some(name), Some(year)])) == Some((trimmed(name), Some(decimal_value(year)))),
{
    lemma_short_digits_value(year, 4, 9999);
    assert(year[0] != '+') by {
        assert(crate::text::is_digit(year[0]));
    }
}

} // verus!
