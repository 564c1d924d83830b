use std::sync::atomic::{AtomicBool, Ordering};
use std::sync::Arc;

use audiocontrol::coverart::{cached_urls, lookup_call, provider_call, ProviderCall};
use audiocontrol::coverart::{
    fan_out_deadline, in_registration_order, provider_answer, supports, CoverartManager, CoverartMethod, CoverartProvider,
    CoverartQuery, CoverartResult, ImageInfo, ProviderInfo, QueryOptions, DEFAULT_FAST_DEADLINE_SECS,
};

struct Stub {
    name: String,
    slow: bool,
    cached: Option<Vec<String>>,
    called: Arc<AtomicBool>,
}

impl CoverartProvider for Stub {
    fn name(&self) -> &str {
        &self.name
    }
    fn display_name(&self) -> &str {
        &self.name
    }
    fn supported_methods(&self) -> Vec<CoverartMethod> {
        vec![CoverartMethod::Artist]
    }
    fn is_slow(&self) -> bool {
        self.slow
    }
    fn timeout(&self) -> u64 {
        if self.slow {
            45
        } else {
            5
        }
    }
    fn cached_coverart(&self, _query: &CoverartQuery) -> Option<Vec<String>> {
        self.cached.clone()
    }
    fn get_artist_coverart_impl(&self, _artist: &str) -> Vec<String> {
        self.called.store(true, Ordering::SeqCst);
        vec![format!("https://coverart.invalid/{}.jpg", self.name)]
    }
}

struct Plain;

impl CoverartProvider for Plain {
    fn name(&self) -> &str {
        "plain"
    }
    fn display_name(&self) -> &str {
        "Plain"
    }
    fn supported_methods(&self) -> Vec<CoverartMethod> {
        vec![CoverartMethod::Artist]
    }
}

fn stub(name: &str, slow: bool, cached: Option<Vec<String>>) -> (Stub, Arc<AtomicBool>) {
    let called = Arc::new(AtomicBool::new(false));
    (Stub { name: name.to_string(), slow, cached, called: called.clone() }, called)
}

fn artist() -> CoverartQuery {
    CoverartQuery::Artist("Alva Noto".to_string())
}

#[test]
fn providers_are_fast_and_uncached_by_default() {
    let plain = Plain;
    assert!(!plain.is_slow());
    assert_eq!(plain.cached_coverart(&artist()), None);
    assert_eq!(plain.timeout(), DEFAULT_FAST_DEADLINE_SECS);
}

#[test]
fn the_fast_path_does_not_call_a_slow_provider() {
    let (p, called) = stub("slow-caching", true, None);
    let urls = provider_answer(&p, &artist(), false);
    assert!(urls.is_empty());
    assert!(!called.load(Ordering::SeqCst), "no network call was made");
}

#[test]
fn the_fast_path_still_serves_a_slow_providers_cached_answer() {
    let cached = vec!["https://coverart.invalid/cached.jpg".to_string()];
    let (p, called) = stub("slow-caching", true, Some(cached.clone()));
    let urls = provider_answer(&p, &artist(), false);
    assert_eq!(urls, cached);
    assert!(!called.load(Ordering::SeqCst), "served from cache, not the network");
}

#[test]
fn opting_in_calls_a_slow_provider() {
    let (p, called) = stub("slow-caching", true, None);
    let urls = provider_answer(&p, &artist(), true);
    assert_eq!(urls.len(), 1);
    assert!(called.load(Ordering::SeqCst));
}

#[test]
fn providers_that_do_not_support_the_method_are_not_called() {
    let (p, called) = stub("artist-only", false, None);
    let song = CoverartQuery::Song { title: "Uni Acronym".to_string(), artist: "Alva Noto".to_string() };
    assert!(provider_answer(&p, &song, false).is_empty());
    assert!(!called.load(Ordering::SeqCst), "the provider was not asked");
}

#[test]
fn a_fast_provider_is_asked_on_the_fast_path() {
    let (p, called) = stub("fast", false, None);
    assert_eq!(provider_answer(&p, &artist(), false), vec!["https://coverart.invalid/fast.jpg".to_string()]);
    assert!(called.load(Ordering::SeqCst));
}

#[test]
fn the_deadline_is_the_fast_one_unless_slow_providers_are_included() {
    assert_eq!(fan_out_deadline(&vec![45, 5], false, 5), 5);
    assert_eq!(fan_out_deadline(&vec![45, 5], true, 5), 45);
    assert_eq!(fan_out_deadline(&vec![2, 3], true, 5), 5);
    assert_eq!(fan_out_deadline(&Vec::new(), true, 5), 5);
}

#[test]
fn query_options_default_to_the_fast_path() {
    let opts = QueryOptions::default();
    assert!(!opts.include_slow);
    assert_eq!(opts.fast_deadline_secs, 5);
}

fn result(name: &str) -> CoverartResult {
    CoverartResult {
        provider: ProviderInfo { name: name.to_string(), display_name: name.to_string() },
        images: vec![ImageInfo::new(format!("https://coverart.invalid/{}.jpg", name))],
    }
}

#[test]
fn results_keep_registration_order() {
    let collected = vec![(2, result("c")), (0, result("a")), (1, result("b"))];
    let ordered = in_registration_order(collected);
    let names: Vec<_> = ordered.iter().map(|r| r.provider.name.as_str()).collect();
    assert_eq!(names, vec!["a", "b", "c"]);
}

#[test]
fn a_missing_answer_leaves_a_gap_not_a_reordering() {
    let collected = vec![(3, result("d")), (0, result("a"))];
    let ordered = in_registration_order(collected);
    let names: Vec<_> = ordered.iter().map(|r| r.provider.name.as_str()).collect();
    assert_eq!(names, vec!["a", "d"]);
}

#[test]
fn the_manager_keeps_registration_order() {
    let mut manager = CoverartManager::new();
    assert_eq!(manager.provider_count(), 0);
    let (a, _) = stub("a", false, None);
    let (b, _) = stub("b", false, None);
    manager.register_provider(Arc::new(Box::new(a) as Box<dyn CoverartProvider>));
    manager.register_provider(Arc::new(Box::new(b) as Box<dyn CoverartProvider>));
    assert_eq!(manager.provider_count(), 2);
    let names: Vec<_> = manager.get_providers().iter().map(|p| p.name().to_string()).collect();
    assert_eq!(names, vec!["a".to_string(), "b".to_string()]);
}

#[test]
fn method_support_is_membership() {
    assert!(supports(&vec![CoverartMethod::Artist, CoverartMethod::Album], CoverartMethod::Album));
    assert!(!supports(&vec![CoverartMethod::Artist], CoverartMethod::Url));
    assert_eq!(artist().method(), CoverartMethod::Artist);
    assert_eq!(CoverartQuery::Url("u".to_string()).method(), CoverartMethod::Url);
}

#[test]
fn images_are_graded_and_ordered_best_first() {
    let small = ImageInfo {
        url: "small".to_string(),
        width: Some(100),
        height: Some(100),
        size_bytes: Some(5_000),
        format: None,
        grade: None,
    };
    let large = ImageInfo {
        url: "large".to_string(),
        width: Some(1200),
        height: Some(1200),
        size_bytes: Some(500_000),
        format: None,
        grade: None,
    };
    let r = CoverartResult::with_images(
        ProviderInfo { name: "spotify".to_string(), display_name: "Spotify".to_string() },
        vec![small, large],
    );
    assert_eq!(r.images[0].url, "large");
    assert!(r.images[0].grade.unwrap() >= r.images[1].grade.unwrap());
}

fn png_of(w: u32, h: u32) -> Vec<u8> {
    let img = image::DynamicImage::ImageRgb8(image::RgbImage::from_pixel(w, h, image::Rgb([1, 2, 3])));
    let mut buf = std::io::Cursor::new(Vec::new());
    img.write_to(&mut buf, image::ImageFormat::Png).unwrap();
    buf.into_inner()
}

#[test]
fn measuring_an_image_reads_its_dimensions_format_and_size() {
    let bytes = png_of(7, 3);
    let m = audiocontrol::coverart::measure_image(&bytes).unwrap();
    assert_eq!((m.width, m.height), (7, 3));
    assert_eq!(m.format, "png");
    assert_eq!(m.size_bytes, bytes.len() as u64);
}

#[test]
fn measuring_bytes_that_are_no_image_is_an_error() {
    assert!(audiocontrol::coverart::measure_image(b"not an image at all").is_err());
}

#[test]
fn a_slow_provider_is_asked_its_cache_unless_slow_ones_are_included() {
    let q = CoverartQuery::Song { title: "T".to_string(), artist: "A".to_string() };
    assert!(matches!(provider_call(&q, true, false), ProviderCall::Cached));
    match provider_call(&q, true, true) {
        ProviderCall::Song { title, artist } => assert_eq!((title.as_str(), artist.as_str()), ("T", "A")),
        _ => panic!("expected the song lookup"),
    }
    match provider_call(&q, false, false) {
        ProviderCall::Song { title, artist } => assert_eq!((title.as_str(), artist.as_str()), ("T", "A")),
        _ => panic!("expected the song lookup"),
    }
}

#[test]
fn each_query_kind_names_its_own_lookup() {
    let album = CoverartQuery::Album { title: "X".to_string(), artist: "Y".to_string(), year: Some(1999) };
    match lookup_call(&album) {
        ProviderCall::Album { title, artist, year } => {
            assert_eq!((title.as_str(), artist.as_str(), year), ("X", "Y", Some(1999)));
        },
        _ => panic!("expected the album lookup"),
    }
    assert!(matches!(lookup_call(&CoverartQuery::Url("u".to_string())), ProviderCall::Url(u) if u == "u"));
    assert!(matches!(lookup_call(&CoverartQuery::Artist("a".to_string())), ProviderCall::Artist(a) if a == "a"));
}

#[test]
fn a_cache_miss_gives_no_urls() {
    assert!(cached_urls(None).is_empty());
    assert_eq!(cached_urls(Some(vec!["x".to_string()])), vec!["x".to_string()]);
}

struct UrlOnly;

impl CoverartProvider for UrlOnly {
    fn name(&self) -> &str {
        "url-only"
    }
    fn display_name(&self) -> &str {
        "URL only"
    }
    fn supported_methods(&self) -> Vec<CoverartMethod> {
        vec![CoverartMethod::Url]
    }
}

#[test]
fn only_providers_supporting_the_method_are_selected_in_order() {
    let providers: Vec<audiocontrol::coverart::ProviderHandle> = vec![
        Arc::new(Box::new(Plain) as Box<dyn CoverartProvider>),
        Arc::new(Box::new(UrlOnly) as Box<dyn CoverartProvider>),
        Arc::new(Box::new(Plain) as Box<dyn CoverartProvider>),
    ];
    assert_eq!(audiocontrol::coverart::supporting_indices(&providers, CoverartMethod::Artist), vec![0, 2]);
    assert_eq!(audiocontrol::coverart::supporting_indices(&providers, CoverartMethod::Url), vec![1]);
    assert!(audiocontrol::coverart::supporting_indices(&providers, CoverartMethod::Song).is_empty());
}
