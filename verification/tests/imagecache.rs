use audiocontrol::imagecache::{
    count_provider_files, extension_to_mime_type, fresh_cached_stats, guess_mime_type, is_provider_file, join_path,
    mime_type_to_extension, provider_files_exist, stats_from_metadata, ImageCache, ImageCacheStats, ImageExpiryMetadata,
    ImageMetadata,
};

fn record(name: &str, size: u64) -> ImageMetadata {
    ImageMetadata { name: name.to_string(), size, mime_type: "image/jpeg".to_string(), cached_at: 0, expires_at: None }
}

#[test]
fn statistics_separate_variants_from_originals() {
    let stats = stats_from_metadata(&vec![record("a/cover.jpg", 100), record("a/cover@400.jpg", 40), record("b.png", 10)], 7);
    assert_eq!(stats.total_images, 3);
    assert_eq!(stats.total_size, 150);
    assert_eq!(stats.variant_images, 1);
    assert_eq!(stats.variant_size, 40);
    assert_eq!(stats.last_updated, 7);
}

#[test]
fn cached_statistics_are_fresh_for_five_minutes() {
    let s = ImageCacheStats::empty_at(1000);
    assert!(fresh_cached_stats(Some(s.clone()), 1299).is_some());
    assert!(fresh_cached_stats(Some(s), 1300).is_none());
    assert!(fresh_cached_stats(None, 0).is_none());
}

#[test]
fn mime_types_and_extensions_map_both_ways() {
    assert_eq!(mime_type_to_extension("image/jpeg"), "jpg");
    assert_eq!(mime_type_to_extension("image/svg+xml"), "svg");
    assert_eq!(mime_type_to_extension("text/html"), "bin");
    assert_eq!(extension_to_mime_type("JPEG"), "image/jpeg");
    assert_eq!(extension_to_mime_type("webp"), "image/webp");
    assert_eq!(extension_to_mime_type("txt"), "application/octet-stream");
    assert_eq!(guess_mime_type("a/b/cover.png"), "image/png");
    assert_eq!(guess_mime_type("a/b/cover"), "application/octet-stream");
}

#[test]
fn paths_join_under_the_base() {
    assert_eq!(join_path("/cache", "a/b.jpg"), "/cache/a/b.jpg");
    assert_eq!(join_path("/cache/", "a.jpg"), "/cache/a.jpg");
    assert_eq!(join_path("/cache", "/abs.jpg"), "/abs.jpg");
    let cache = ImageCache::with_directory("/tmp/images");
    assert_eq!(cache.get_full_path("x.jpg"), "/tmp/images/x.jpg");
    assert_eq!(cache.expiry_metadata_path(), "/tmp/images/.expiry_metadata.json");
    assert_eq!(cache.base_path(), "/tmp/images");
    assert_eq!(cache.path_with_extension("artists/x/cover", "image/png"), "artists/x/cover.png");
}

#[test]
fn test_disabled_cache_behavior() {
    let mut cache = ImageCache::new();
    assert!(cache.is_enabled());
    assert_eq!(cache.base_path(), "/var/lib/audiocontrol/cache/images");
    assert!(cache.is_image_expired(Some(10), 10));
    cache.enable(false);
    assert!(!cache.is_enabled());
    assert!(!cache.is_image_expired(Some(10), 10), "a disabled cache expires nothing");
}

#[test]
fn image_records_carry_what_was_stored() {
    let cache = ImageCache::with_directory("/tmp/images");
    let m = cache.metadata_for("a/b.jpg", 5, "image/jpeg".to_string(), 3, Some(9));
    assert_eq!(m.name, "a/b.jpg");
    assert_eq!(m.size, 5);
    assert_eq!(m.expires_at, Some(9));
    assert!(!cache.is_image_expired(None, u64::MAX));
}

#[test]
fn provider_files_are_recognised_by_their_prefix() {
    assert!(is_provider_file("thumb.fanarttv.0.jpg", "thumb", "fanarttv"));
    assert!(!is_provider_file("thumb.spotify.0.jpg", "thumb", "fanarttv"));
    let names = vec!["thumb.fanarttv.0.jpg".to_string(), "thumb.fanarttv.1.png".to_string(), "banner.fanarttv.0.jpg".to_string()];
    assert_eq!(count_provider_files(&names, "thumb", "fanarttv"), 2);
    assert!(provider_files_exist(&names, "banner", "fanarttv"));
    assert!(!provider_files_exist(&names, "logo", "fanarttv"));
}

#[test]
fn expiry_times_are_recorded_replaced_and_forgotten() {
    let mut expiry = ImageExpiryMetadata::new();
    assert_eq!(expiry.get("a.jpg"), None);
    expiry.set("a.jpg", 100);
    expiry.set("b.jpg", 300);
    expiry.set("a.jpg", 200);
    assert_eq!(expiry.get("a.jpg"), Some(200));
    assert_eq!(expiry.get("b.jpg"), Some(300));
    let mut paths = expiry.paths();
    paths.sort();
    assert_eq!(paths, vec!["a.jpg".to_string(), "b.jpg".to_string()]);
    expiry.remove("a.jpg");
    assert_eq!(expiry.get("a.jpg"), None);
    assert_eq!(expiry.paths(), vec!["b.jpg".to_string()]);
}

#[test]
fn an_image_is_expired_from_its_expiry_time_on() {
    let mut expiry = ImageExpiryMetadata::new();
    expiry.set("old.jpg", 50);
    expiry.set("now.jpg", 100);
    expiry.set("later.jpg", 101);
    let mut expired = expiry.expired(100);
    expired.sort();
    assert_eq!(expired, vec!["now.jpg".to_string(), "old.jpg".to_string()]);
    assert!(expiry.expired(49).is_empty());
    let cache = ImageCache::with_directory("/tmp/images");
    assert!(cache.is_image_expired(expiry.get("now.jpg"), 100));
    assert!(!cache.is_image_expired(expiry.get("later.jpg"), 100));
    assert!(!cache.is_image_expired(expiry.get("unknown.jpg"), 100));
}

#[test]
fn a_custom_expiry_path_is_kept_as_given() {
    let cache = ImageCache::with_custom_expiry_path("/tmp/images", "/tmp/expiry.json");
    assert_eq!(cache.base_path(), "/tmp/images");
    assert_eq!(cache.expiry_metadata_path(), "/tmp/expiry.json");
    assert!(cache.is_enabled());
}
