use audiocontrol::albumupdater::{cache_key, genre_step, lookup_artist, set_genres, should_report, GenreStep, LibraryVersion};

#[test]
fn writing_genres_stores_them_and_bumps_the_version() {
    let mut version = Some(LibraryVersion::new());
    let mut target: Vec<String> = Vec::new();
    set_genres(&mut target, vec!["rock".to_string()], &mut version);
    assert_eq!(target, vec!["rock".to_string()]);
    assert_eq!(version.unwrap().get(), 1, "a genre write must move the version");
}

#[test]
fn writing_nothing_leaves_both_alone() {
    let mut version = Some(LibraryVersion::new());
    let mut target = vec!["existing".to_string()];
    set_genres(&mut target, Vec::new(), &mut version);
    assert_eq!(target, vec!["existing".to_string()], "an empty write must not clear");
    assert_eq!(version.unwrap().get(), 0, "an empty write is not a change");
}

#[test]
fn writing_genres_with_no_version_still_stores_them() {
    let mut target: Vec<String> = Vec::new();
    let mut version: Option<LibraryVersion> = None;
    set_genres(&mut target, vec!["rock".to_string()], &mut version);
    assert_eq!(target, vec!["rock".to_string()]);
    assert!(version.is_none());
}

#[test]
fn the_version_wraps_at_the_top_of_its_range() {
    let mut v = LibraryVersion::new();
    v.bump();
    v.bump();
    assert_eq!(v.get(), 2);
}

#[test]
fn album_genre_keys_carry_the_album_id() {
    assert_eq!(cache_key("42"), "album::genres::42");
}

#[test]
fn the_sweep_skips_cached_empties_and_applies_cached_genres() {
    assert_eq!(genre_step(Some(Vec::new()), "A", "B"), GenreStep::SkipCachedEmpty);
    assert_eq!(
        genre_step(Some(vec!["jazz".to_string()]), "A", "B"),
        GenreStep::ApplyCached(vec!["jazz".to_string()])
    );
}

#[test]
fn the_sweep_asks_only_with_an_artist_and_a_name() {
    assert_eq!(genre_step(None, "", "B"), GenreStep::RecordEmpty);
    assert_eq!(genre_step(None, "A", ""), GenreStep::RecordEmpty);
    assert_eq!(genre_step(None, "A", "B"), GenreStep::Fetch);
}

#[test]
fn an_album_is_asked_by_its_first_artist() {
    assert_eq!(lookup_artist(&vec!["X".to_string(), "Y".to_string()]), "X");
    assert_eq!(lookup_artist(&Vec::new()), "");
}

#[test]
fn progress_is_reported_every_fifty_and_at_the_end() {
    assert!(should_report(50, 120));
    assert!(should_report(120, 120));
    assert!(!should_report(51, 120));
}

#[test]
fn genres_are_only_filled_in_where_there_are_none() {
    let mut version = None;
    let mut empty: Vec<String> = Vec::new();
    assert!(audiocontrol::albumupdater::fill_missing_genres(&mut empty, vec!["rock".to_string()], &mut version));
    assert_eq!(empty, vec!["rock".to_string()]);
    let mut kept = vec!["jazz".to_string()];
    assert!(!audiocontrol::albumupdater::fill_missing_genres(&mut kept, vec!["rock".to_string()], &mut version));
    assert_eq!(kept, vec!["jazz".to_string()]);
}
