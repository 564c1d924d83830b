use audiocontrol::artist_store::{
    artist_image_api_url, best_provider_image, filename_from_string, image_extension, local_image_id, selection_url, upload_id,
    validate_download, ArtistImage, ArtistImageResult, ArtistImageSource, ArtistStore, ArtistStoreConfig,
    ImageDestination, ImageFacts, ImageStep, MAX_IMAGE_DOWNLOAD_BYTES, MAX_UPLOADS_PER_ARTIST,
};
use audiocontrol::codec::encode_url_safe;
use audiocontrol::coverart::{CoverartResult, ImageInfo, ImageMetadata, ProviderInfo};

fn provider() -> ProviderInfo {
    ProviderInfo { name: "p".to_string(), display_name: "P".to_string() }
}

fn png_bytes(w: u32, h: u32) -> Vec<u8> {
    let img = image::DynamicImage::ImageRgba8(image::RgbaImage::from_pixel(w, h, image::Rgba([10, 120, 200, 255])));
    let mut buf = std::io::Cursor::new(Vec::new());
    img.write_to(&mut buf, image::ImageFormat::Png).unwrap();
    buf.into_inner()
}

fn config(auto_download: bool) -> ArtistStoreConfig {
    ArtistStoreConfig {
        cache_dir: "/tmp/store/cache".to_string(),
        user_dir: "/tmp/store/user".to_string(),
        enable_custom_images: true,
        auto_download,
    }
}

fn store(auto_download: bool) -> ArtistStore {
    ArtistStore::with_config(config(auto_download))
}

fn no_facts() -> ImageFacts {
    ImageFacts {
        memo_present: false,
        selection: None,
        images: Vec::new(),
        user_custom: false,
        user_cover: false,
        cache_custom: false,
        cache_cover: false,
    }
}

fn download(store: &ArtistStore, artist: &str, id: &str) -> ArtistImage {
    ArtistImage {
        id: id.to_string(),
        path: store.get_artist_user_image_path(artist, id),
        source: ArtistImageSource::Download,
    }
}

fn upload(store: &ArtistStore, artist: &str, bytes: &[u8]) -> ArtistImage {
    let id = upload_id(bytes);
    ArtistImage {
        id: id.clone(),
        path: format!("{}/{}.png", store.artist_uploads_dir(artist), id),
        source: ArtistImageSource::Upload,
    }
}

#[test]
fn a_local_image_url_names_its_id() {
    let b64 = encode_url_safe("The Beatles");
    let url = format!("/api/coverart/artist/{}/image/custom", b64);
    assert_eq!(local_image_id(&url, "The Beatles"), Some("custom".to_string()));
}

#[test]
fn a_url_for_another_artist_or_host_is_not_local() {
    let other = encode_url_safe("Someone Else");
    assert_eq!(local_image_id(&format!("/api/coverart/artist/{}/image/custom", other), "The Beatles"), None);

    let b64 = encode_url_safe("The Beatles");
    assert_eq!(
        local_image_id(&format!("https://evil.test/api/coverart/artist/{}/image/custom", b64), "The Beatles"),
        None
    );
    assert_eq!(local_image_id("https://example.test/cover.jpg", "The Beatles"), None);
}

#[test]
fn test_get_artist_image_paths() {
    let store = store(true);

    let cache_path = store.get_artist_image_path("Metallica", "cover");
    assert!(cache_path.contains("/metallica/cover.jpg"));
    assert!(cache_path.starts_with(&store.config().cache_dir));

    let user_path = store.get_artist_user_image_path("Metallica", "custom");
    assert!(user_path.contains("/artists/metallica/custom.jpg"));
    assert!(user_path.starts_with(&store.config().user_dir));
}

#[test]
fn test_download_prevention() {
    let mut store = store(false);
    match store.next_image_step("NonExistent Artist", &no_facts()) {
        ImageStep::NotFound => {}
        _ => panic!("Should return NotFound when auto-download is disabled"),
    }
}

#[test]
fn an_upload_id_is_the_content_hash_and_is_stable() {
    let bytes = b"the same bytes";
    assert_eq!(upload_id(bytes), upload_id(bytes));
    assert_eq!(upload_id(bytes).len(), 32);
    assert!(upload_id(bytes).chars().all(|c| c.is_ascii_hexdigit()));
    assert_ne!(upload_id(bytes), upload_id(b"other bytes"));
}

#[test]
fn an_upload_id_is_the_md5_of_the_bytes() {
    assert_eq!(upload_id(b""), "d41d8cd98f00b204e9800998ecf8427e");
    assert_eq!(upload_id(b"abc"), "900150983cd24fb0d6963f7d28e17f72");
}

#[test]
fn an_extension_is_sniffed_from_the_bytes() {
    assert_eq!(image_extension(&png_bytes(8, 8)), Some("png"));
    assert_eq!(image_extension(b"<html>not an image</html>"), None);
}

#[test]
fn an_unknown_id_has_no_path() {
    let store = store(false);
    assert_eq!(store.artist_image_path(&Vec::new(), "nope"), None);
}

#[test]
fn uploading_the_same_bytes_twice_yields_one_member() {
    let store = store(false);
    let bytes = png_bytes(16, 16);
    let (first, path) = store.upload_target("Artist", &bytes, &Vec::new()).unwrap();
    let members = vec![ArtistImage { id: first.clone(), path, source: ArtistImageSource::Upload }];
    let (second, _) = store.upload_target("Artist", &bytes, &members).unwrap();
    assert_eq!(first, second);
    assert_eq!(first, upload_id(&bytes));
}

#[test]
fn an_upload_goes_under_its_own_hash_in_the_uploads_directory() {
    let store = store(false);
    let bytes = png_bytes(16, 16);
    let (id, path) = store.upload_target("Artist", &bytes, &Vec::new()).unwrap();
    assert_eq!(path, format!("{}/{}.png", store.artist_uploads_dir("Artist"), id));
    assert_eq!(store.artist_uploads_dir("Artist"), "/tmp/store/user/artists/artist/uploads");
}

#[test]
fn an_upload_past_the_cap_is_refused_and_says_so() {
    let store = store(false);
    let mut members = Vec::new();
    for i in 0..MAX_UPLOADS_PER_ARTIST {
        members.push(upload(&store, "Artist", &png_bytes(16, 16 + i as u32)));
    }
    let err = store.upload_target("Artist", &png_bytes(64, 64), &members).expect_err("the cap is enforced");
    assert!(err.contains(&MAX_UPLOADS_PER_ARTIST.to_string()), "the refusal names the cap: {}", err);
}

#[test]
fn a_re_upload_is_allowed_when_the_set_is_full() {
    let store = store(false);
    let mut members = Vec::new();
    for i in 0..MAX_UPLOADS_PER_ARTIST {
        members.push(upload(&store, "Artist", &png_bytes(16, 16 + i as u32)));
    }
    let (again, _) = store.upload_target("Artist", &png_bytes(16, 16), &members).expect("a re-upload is allowed");
    assert_eq!(again, members[0].id);
}

#[test]
fn downloads_do_not_count_against_the_upload_cap() {
    let store = store(false);
    let mut members = vec![download(&store, "Artist", "custom"), download(&store, "Artist", "cover")];
    for i in 0..MAX_UPLOADS_PER_ARTIST - 1 {
        members.push(upload(&store, "Artist", &png_bytes(16, 16 + i as u32)));
    }
    assert!(store.upload_target("Artist", &png_bytes(64, 64), &members).is_ok());
}

#[test]
fn artist_store_bytes_that_are_not_an_image_are_refused() {
    let store = store(false);
    assert!(store.upload_target("Artist", b"<html>", &Vec::new()).is_err());
}

#[test]
fn deleting_an_unknown_member_is_an_error() {
    let store = store(false);
    assert_eq!(
        store.delete_target("Artist", "nope", &None, &Vec::new()),
        Err("No image 'nope' for artist 'Artist'".to_string())
    );
}

#[test]
fn a_selected_upload_wins_over_an_existing_custom_image() {
    let mut store = store(false);
    let artist = "Selection Winner Artist";
    let custom = download(&store, artist, "custom");
    let up = upload(&store, artist, &png_bytes(16, 16));
    let images = vec![custom, up.clone()];

    let url = store.select_artist_image(artist, &up.id, &images).expect("the upload is selectable");
    assert_eq!(url, selection_url(artist, &up.id));

    let mut facts = no_facts();
    facts.selection = Some(url.clone());
    facts.images = images.clone();
    facts.user_custom = true;
    match store.get_cached_image(artist, &facts) {
        ArtistImageResult::Found { cache_path } => {
            assert_eq!(Some(cache_path), store.artist_image_path(&images, &up.id));
        }
        _ => panic!("an image should be found"),
    }
    assert_eq!(store.selected_image_id(artist, &Some(url), &images).as_deref(), Some(up.id.as_str()));
}

#[test]
fn deleting_the_selected_image_falls_back_to_the_chain() {
    let mut store = store(false);
    let artist = "Selection Fallback Artist";
    let custom = download(&store, artist, "custom");
    let up = upload(&store, artist, &png_bytes(16, 16));
    let images = vec![custom.clone(), up.clone()];
    let url = store.select_artist_image(artist, &up.id, &images).unwrap();

    let (path, was_selected) = store.delete_target(artist, &up.id, &Some(url), &images).unwrap();
    assert_eq!(path, up.path);
    assert!(was_selected, "deleting the selected member clears the selection");

    let remaining = vec![custom.clone()];
    assert_eq!(store.selected_image_id(artist, &None, &remaining), None);
    let mut facts = no_facts();
    facts.images = remaining;
    facts.user_custom = true;
    match store.get_cached_image(artist, &facts) {
        ArtistImageResult::Found { cache_path } => assert_eq!(cache_path, custom.path),
        _ => panic!("the chain still finds the custom image"),
    }
}

#[test]
fn selecting_an_unknown_id_is_refused_and_changes_nothing() {
    let mut store = store(false);
    let artist = "Selection Unknown Artist";
    assert!(store.select_artist_image(artist, "nope", &Vec::new()).is_err());
    assert_eq!(store.selected_image_id(artist, &None, &Vec::new()), None);
}

#[test]
fn a_remote_selection_reports_custom_as_the_selected_member() {
    let store = store(false);
    let artist = "Remote Selection Artist";
    let images = vec![download(&store, artist, "custom")];
    let stored = Some("https://provider.test/portrait.jpg".to_string());

    assert_eq!(store.selected_image_id(artist, &stored, &images).as_deref(), Some("custom"));
    let (images, selected) = store.artist_images_with_selection(artist, &stored, images);
    assert_eq!(selected.as_deref(), Some("custom"));
    assert_eq!(images.len(), 1);
}

#[test]
fn a_remote_selection_with_no_custom_file_selects_nothing() {
    let store = store(false);
    let artist = "Remote Selection Pending Artist";
    let stored = Some("https://provider.test/portrait.jpg".to_string());
    assert_eq!(store.selected_image_id(artist, &stored, &Vec::new()), None);
}

#[test]
fn a_local_selection_whose_file_is_gone_is_not_fetched_over_http() {
    let mut store = store(true);
    let artist = "Vanished Selection Artist";
    let url = format!("/api/coverart/artist/{}/image/{}", encode_url_safe(artist), "a".repeat(32));
    let mut facts = no_facts();
    facts.selection = Some(url);

    assert_eq!(store.next_image_step(artist, &facts), ImageStep::AskProviders, "our own address must never reach the download path");
}

#[test]
fn next_image_step_is_ready_when_a_member_is_on_disk() {
    let mut store = store(false);
    let artist = "On Disk Artist";
    let path = store.get_artist_user_image_path(artist, "custom");
    let mut facts = no_facts();
    facts.images = vec![download(&store, artist, "custom")];
    facts.user_custom = true;

    assert_eq!(store.next_image_step(artist, &facts), ImageStep::Ready(path));
}

#[test]
fn next_image_step_is_not_found_when_auto_download_is_off() {
    let mut store = store(false);
    assert_eq!(store.next_image_step("No Auto Download Artist", &no_facts()), ImageStep::NotFound);
}

#[test]
fn next_image_step_is_fetch_for_a_remote_selection() {
    let mut store = store(true);
    let artist = "Remote Fetch Artist";
    let url = "https://provider.test/portrait.jpg".to_string();
    let mut facts = no_facts();
    facts.selection = Some(url.clone());

    assert_eq!(
        store.next_image_step(artist, &facts),
        ImageStep::Fetch { url, image_type: "custom".to_string(), destination: ImageDestination::Cache }
    );
}

#[test]
fn next_image_step_asks_the_providers_when_nothing_is_known() {
    let mut store = store(true);
    assert_eq!(store.next_image_step("Fresh Artist", &no_facts()), ImageStep::AskProviders);
}

#[test]
fn commit_downloaded_image_defers_to_a_selection_made_before_it_lands() {
    let mut store = store(false);
    let artist = "Selection Wins Over Commit Artist";
    let selected_path = store.get_artist_user_image_path(artist, "custom");

    // A stale memo entry naming a cache file that is still on disk.
    let stale_path = store.get_artist_image_path(artist, "cover");
    let mut stale = no_facts();
    stale.cache_cover = true;
    match store.get_cached_image(artist, &stale) {
        ArtistImageResult::Found { cache_path } => assert_eq!(cache_path, stale_path),
        _ => panic!("the cache cover is found"),
    }
    assert_eq!(store.memoised_path(artist), Some(stale_path));

    let mut now = no_facts();
    now.memo_present = true;
    now.user_custom = true;
    now.cache_cover = true;
    let result = store.commit_downloaded_image(artist, "cover", ImageDestination::Cache, Ok(()), &now);
    match result {
        ArtistImageResult::Found { cache_path } => assert_eq!(cache_path, selected_path),
        other => panic!("the write should succeed: {:?}", other),
    }
    assert_eq!(store.memoised_path(artist), Some(selected_path), "the memo must agree with the selection");
}

#[test]
fn commit_downloaded_image_writes_to_the_user_directory_and_populates_the_memo() {
    let mut store = store(false);
    let artist = "User Commit Artist";
    let mut facts = no_facts();
    facts.user_custom = true;
    let result = store.commit_downloaded_image(artist, "custom", ImageDestination::UserDirectory, Ok(()), &facts);
    let expected = store.get_artist_user_image_path(artist, "custom");
    match result {
        ArtistImageResult::Found { cache_path } => assert_eq!(cache_path, expected),
        other => panic!("the write should succeed: {:?}", other),
    }
    assert_eq!(store.memoised_path(artist), Some(expected));
}

#[test]
fn a_failed_commit_is_an_error_and_leaves_the_memo_alone() {
    let mut store = store(false);
    let artist = "Failed Commit Artist";
    let result = store.commit_downloaded_image(artist, "cover", ImageDestination::Cache, Err("disk full".to_string()), &no_facts());
    match result {
        ArtistImageResult::Error(m) => assert_eq!(m, "Failed to store image: disk full"),
        other => panic!("a failed write is an error: {:?}", other),
    }
    assert_eq!(store.memoised_path(artist), None);
}

#[test]
fn a_memoised_path_that_is_gone_is_forgotten() {
    let mut store = store(false);
    let artist = "Cache Test Artist";
    let mut facts = no_facts();
    facts.cache_cover = true;
    assert!(matches!(store.get_cached_image(artist, &facts), ArtistImageResult::Found { .. }));
    assert!(store.memoised_path(artist).is_some());

    assert!(matches!(store.get_cached_image(artist, &no_facts()), ArtistImageResult::NotFound));
    assert_eq!(store.memoised_path(artist), None);
}

#[test]
fn the_user_directory_takes_precedence_over_the_cache() {
    let mut store = store(false);
    let artist = "Test Artist";
    let mut facts = no_facts();
    facts.cache_cover = true;
    facts.user_cover = true;
    match store.get_cached_image(artist, &facts) {
        ArtistImageResult::Found { cache_path } => assert!(cache_path.starts_with("/tmp/store/user")),
        _ => panic!("Should have found image in user directory"),
    }
}

#[test]
fn begin_download_refuses_a_second_claim_until_finish_download_releases_it() {
    let mut store = store(false);
    let artist = "In Flight Artist";

    assert!(store.begin_download(artist), "the first claim succeeds");
    assert!(!store.begin_download(artist), "a second claim must be refused while one is in flight");
    assert!(store.is_downloading(artist));

    store.finish_download(artist);

    assert!(!store.is_downloading(artist));
    assert!(store.begin_download(artist), "finish_download must release the claim");
}

#[test]
fn directory_names_are_lower_cased_and_safe() {
    assert_eq!(filename_from_string("The Beatles"), "the_beatles");
    assert_eq!(filename_from_string("AC/DC"), "ac_dc");
    assert_eq!(filename_from_string("a-b_c9"), "a-b_c9");
}

#[test]
fn a_download_is_checked_for_size_and_emptiness() {
    assert!(validate_download(b"").is_err());
    assert!(validate_download(b"x").is_ok());
    let big = vec![0u8; MAX_IMAGE_DOWNLOAD_BYTES as usize + 1];
    assert!(validate_download(&big).is_err());
    let exact = vec![0u8; MAX_IMAGE_DOWNLOAD_BYTES as usize];
    assert!(validate_download(&exact).is_ok());
}

#[test]
fn the_best_provider_image_is_the_first_of_the_highest_grade() {
    let image = |url: &str, grade: Option<i32>| ImageInfo {
        url: url.to_string(),
        width: None,
        height: None,
        size_bytes: None,
        format: None,
        grade,
    };
    let results = vec![
        CoverartResult { images: vec![image("a", Some(1)), image("b", Some(3))], provider: provider() },
        CoverartResult { images: vec![image("c", Some(3)), image("d", None)], provider: provider() },
    ];
    assert_eq!(best_provider_image(&results), Some("b".to_string()));
    let poor = vec![CoverartResult { images: vec![image("e", Some(-20))], provider: provider() }];
    assert_eq!(best_provider_image(&poor), None);
    assert_eq!(best_provider_image(&Vec::new()), None);
}

#[test]
fn the_artist_image_api_url_names_the_artist_url_safely() {
    assert_eq!(artist_image_api_url("AC/DC"), format!("/api/coverart/artist/{}/image", encode_url_safe("AC/DC")));
    assert!(!artist_image_api_url("AC/DC").contains("AC/DC"));
}

#[test]
fn the_uploads_directory_is_under_the_artists_own_directory() {
    let s = store(true);
    let dir = s.artist_uploads_dir_for_test("Björk");
    assert!(dir.starts_with("/tmp/store/user/"), "{}", dir);
    assert_eq!(dir, s.artist_uploads_dir("Björk"));
}

#[test]
fn an_image_with_measured_metadata_carries_it() {
    let m = ImageMetadata { width: 600, height: 400, size_bytes: 1234, format: "jpeg".to_string() };
    let i = ImageInfo::with_metadata("https://x/y.jpg".to_string(), m);
    assert_eq!(i.width, Some(600));
    assert_eq!(i.height, Some(400));
    assert_eq!(i.size_bytes, Some(1234));
    assert_eq!(i.format.as_deref(), Some("jpeg"));
    assert_eq!(i.grade, None);
}

#[test]
fn url_safe_names_follow_the_unpadded_url_safe_alphabet() {
    assert_eq!(encode_url_safe(""), "");
    assert_eq!(encode_url_safe("f"), "Zg");
    assert_eq!(encode_url_safe("fo"), "Zm8");
    assert_eq!(encode_url_safe("foo"), "Zm9v");
    assert_eq!(encode_url_safe("~~~"), "fn5-");
    assert_eq!(encode_url_safe("???"), "Pz8_");
}
