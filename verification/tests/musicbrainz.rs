use audiocontrol::json::{JsonValue};
use audiocontrol::musicbrainz::{
    artist_separators, collect_split_lookups, combine_lookups, contains_any_separator, enabled_setting, mbid_cache_key,
    names_match_exactly, normalize_artist_name_for_comparison, not_found_cache_key, sanitize_artist_name_for_search,
    split_after_lookup, split_artist, split_artist_with_separators, split_into_several, split_text,
    MusicBrainzSearchResult,
};

fn strings(v: &[&str]) -> Vec<String> {
    v.iter().map(|s| s.to_string()).collect()
}

#[test]
fn splitting_follows_str_split() {
    assert_eq!(split_text("a,b,,c", ","), strings(&["a", "b", "", "c"]));
    assert_eq!(split_text("abc", ","), strings(&["abc"]));
    assert_eq!(split_text("a feat b feat c", " feat "), strings(&["a", "b", "c"]));
    assert_eq!(split_text("ab", ""), strings(&["", "a", "b", ""]));
    assert_eq!(split_text("", ","), strings(&[""]));
}

#[test]
fn a_combined_name_splits_on_every_separator() {
    assert_eq!(
        split_artist("Artist A, Artist B & Artist C feat. Artist D"),
        strings(&["Artist A", "Artist B", "Artist C", "Artist D"])
    );
    assert_eq!(split_artist("Simon & Garfunkel"), strings(&["Simon", "Garfunkel"]));
    assert_eq!(split_artist("Miles Davis with John Coltrane"), strings(&["Miles Davis", "John Coltrane"]));
    assert_eq!(split_artist("Beyoncé"), strings(&["Beyoncé"]));
}

#[test]
fn feat_parts_and_blank_parts_are_dropped() {
    assert_eq!(split_artist("A, feat. B"), strings(&["A"]));
    assert_eq!(split_artist(" , A ,"), strings(&["A"]));
    assert_eq!(split_artist("   "), Vec::<String>::new());
}

#[test]
fn custom_separators_are_applied_in_order() {
    assert_eq!(split_artist_with_separators("A / B; C", &strings(&["/", ";"])), strings(&["A", "B", "C"]));
    assert_eq!(split_artist_with_separators("A, B", &Vec::new()), strings(&["A, B"]));
    assert_eq!(artist_separators(), strings(&[",", "&", " feat ", " feat.", " featuring ", " with "]));
}

#[test]
fn an_ampersand_is_spelled_out_for_the_search() {
    assert_eq!(sanitize_artist_name_for_search("Simon & Garfunkel"), "Simon and Garfunkel");
    assert_eq!(sanitize_artist_name_for_search("AC/DC"), "AC/DC");
}

#[test]
fn names_are_normalised_for_comparison() {
    assert_eq!(normalize_artist_name_for_comparison("The Beatles"), "beatles");
    assert_eq!(normalize_artist_name_for_comparison("Beyoncé"), "beyonce");
    assert_eq!(normalize_artist_name_for_comparison("AC/DC"), "acdc");
    assert_eq!(normalize_artist_name_for_comparison("  Simon   &  Garfunkel "), "simongarfunkel");
    assert_eq!(normalize_artist_name_for_comparison("The The"), "the the");
    assert_eq!(normalize_artist_name_for_comparison(""), "");
}

#[test]
fn exact_matches_compare_normalised_names_and_aliases() {
    assert!(names_match_exactly("The Beatles", "Beatles", None));
    assert!(names_match_exactly("Beyonce", "Beyoncé", None));
    assert!(!names_match_exactly("Foo", "Bar", None));
    let aliases = strings(&["Baz", "FOO"]);
    assert!(names_match_exactly("Foo", "Bar", Some(&aliases)));
    assert!(!names_match_exactly("Qux", "Bar", Some(&aliases)));
}

#[test]
fn lookups_are_cached_under_the_artist_name() {
    assert_eq!(mbid_cache_key("Björk"), "artist::Björk::mbid");
    assert_eq!(not_found_cache_key("Björk"), "artist::Björk::not_found");
}

#[test]
fn the_configuration_switches_lookups() {
    let with = |enable: JsonValue| JsonValue::Object(vec![("musicbrainz".to_string(), JsonValue::Object(vec![("enable".to_string(), enable)]))]);
    assert_eq!(enabled_setting(&with(JsonValue::Bool(true))), Some(true));
    assert_eq!(enabled_setting(&with(JsonValue::Bool(false))), Some(false));
    assert_eq!(enabled_setting(&with(JsonValue::String("yes".to_string()))), None);
    assert_eq!(enabled_setting(&JsonValue::Object(Vec::new())), Some(false));
}

#[test]
fn split_lookups_collect_the_ids_found() {
    let results = vec![
        MusicBrainzSearchResult::Found(strings(&["a"]), false),
        MusicBrainzSearchResult::NotFound,
        MusicBrainzSearchResult::Found(strings(&["b", "c"]), true),
    ];
    assert_eq!(collect_split_lookups(&results), Some(strings(&["a", "b", "c"])));
    assert_eq!(collect_split_lookups(&vec![MusicBrainzSearchResult::NotFound]), None);
    assert_eq!(collect_split_lookups(&Vec::new()), None);
}

#[test]
fn a_name_not_found_whole_may_be_found_in_parts() {
    let parts = vec![MusicBrainzSearchResult::Found(strings(&["a"]), true), MusicBrainzSearchResult::Error("x".to_string())];
    assert_eq!(
        combine_lookups(MusicBrainzSearchResult::NotFound, Some(parts)),
        MusicBrainzSearchResult::FoundPartial(strings(&["a"]), false)
    );
    assert_eq!(
        combine_lookups(MusicBrainzSearchResult::NotFound, Some(vec![MusicBrainzSearchResult::NotFound])),
        MusicBrainzSearchResult::NotFound
    );
    assert_eq!(combine_lookups(MusicBrainzSearchResult::NotFound, None), MusicBrainzSearchResult::NotFound);
    let whole = MusicBrainzSearchResult::Found(strings(&["w"]), false);
    assert_eq!(combine_lookups(whole.clone(), Some(Vec::new())), whole);
}

#[test]
fn a_name_is_split_only_when_the_lookup_found_several_artists() {
    let seps = artist_separators();
    assert!(contains_any_separator("A & B", &seps));
    assert!(!contains_any_separator("AB", &seps));
    assert_eq!(split_into_several("A & B", &seps), Some(strings(&["A", "B"])));
    assert_eq!(split_into_several("A", &seps), None);
    let several = MusicBrainzSearchResult::Found(strings(&["1", "2"]), false);
    let one = MusicBrainzSearchResult::Found(strings(&["1"]), false);
    assert_eq!(split_after_lookup("A & B", &seps, &several), Some(strings(&["A", "B"])));
    assert_eq!(split_after_lookup("A & B", &seps, &one), None);
    assert_eq!(split_after_lookup("A & B", &seps, &MusicBrainzSearchResult::NotFound), None);
}
