use audiocontrol::genre_cleanup::{clean_genre_global, clean_genres_global, GenreCleanup, GenreConfig};

#[test]
fn test_genre_cleanup_basic() {
    let config = GenreConfig {
        comment: Some("Test config".to_string()),
        ignore: vec!["seen live".to_string(), "80s".to_string()],
        mappings: vec![
            ("hip hop".to_string(), "hip-hop".to_string()),
            ("heavy metal".to_string(), "heavy metal".to_string()),
            ("thrash metal".to_string(), "thrash metal".to_string()),
        ],
    };

    let cleanup = GenreCleanup::from_config(config).unwrap();

    assert_eq!(cleanup.clean_genre("seen live"), None);
    assert_eq!(cleanup.clean_genre("80s"), None);

    assert_eq!(cleanup.clean_genre("hip hop"), Some("hip-hop".to_string()));
    assert_eq!(cleanup.clean_genre("Hip Hop"), Some("hip-hop".to_string()));

    assert_eq!(cleanup.clean_genre("jazz"), Some("jazz".to_string()));
}

#[test]
fn test_genre_cleanup_list() {
    let config = GenreConfig {
        comment: None,
        ignore: vec!["seen live".to_string()],
        mappings: vec![
            ("hip hop".to_string(), "hip-hop".to_string()),
            ("rap".to_string(), "hip-hop".to_string()),
        ],
    };

    let cleanup = GenreCleanup::from_config(config).unwrap();

    let input = vec![
        "hip hop".to_string(),
        "rap".to_string(),
        "jazz".to_string(),
        "seen live".to_string(),
        "hip hop".to_string(),
    ];

    let result = cleanup.clean_genres(input);

    assert_eq!(result.len(), 2);
    assert!(result.contains(&"hip-hop".to_string()));
    assert!(result.contains(&"jazz".to_string()));
}

fn cleanup() -> GenreCleanup {
    GenreCleanup::from_config(GenreConfig {
        comment: None,
        ignore: vec!["seen live".to_string()],
        mappings: vec![("hip hop".to_string(), "hip-hop".to_string())],
    })
    .unwrap()
}

#[test]
fn cleaning_a_genre_trims_it_first() {
    assert_eq!(cleanup().clean_genre("  jazz  "), Some("jazz".to_string()));
    assert_eq!(cleanup().clean_genre("  Seen Live "), None);
}

#[test]
fn cleaning_a_slice_is_cleaning_the_list() {
    let input = vec!["hip hop".to_string(), "jazz".to_string(), "hip hop".to_string()];
    assert_eq!(cleanup().clean_genres_slice(&input), cleanup().clean_genres(input.clone()));
}

#[test]
fn without_an_active_cleanup_genres_are_only_deduplicated_and_sorted() {
    let input = vec!["rock".to_string(), "jazz".to_string(), "rock".to_string()];
    assert_eq!(clean_genres_global(None, input), vec!["jazz".to_string(), "rock".to_string()]);
    assert_eq!(clean_genre_global(None, "  jazz "), Some("jazz".to_string()));
}

#[test]
fn with_an_active_cleanup_the_global_helpers_use_it() {
    let c = cleanup();
    assert_eq!(clean_genre_global(Some(&c), "seen live"), None);
    assert_eq!(clean_genres_global(Some(&c), vec!["hip hop".to_string()]), vec!["hip-hop".to_string()]);
}
