use std::io::Cursor;

use audiocontrol::imageresize::{variant_step, VariantStep};
use audiocontrol::imageresize::{
    configure, default_prewarm_sizes, default_sizes, is_variant_file_name, ladder_fingerprint, prewarm_sizes, resize,
    sanitise_prewarm, sanitise_sizes, sizes, sizes_from_json, snap_to_rung, validate, variant_size_of, variant_stem,
    ImageLadder, ResizeError, Resized, MAX_DECODE_EDGE,
};
use audiocontrol::json::{JsonNumber, JsonValue};
use image::{DynamicImage, RgbImage, RgbaImage};

fn to_json(v: &serde_json::Value) -> JsonValue {
    match v {
        serde_json::Value::Null => JsonValue::Null,
        serde_json::Value::Bool(b) => JsonValue::Bool(*b),
        serde_json::Value::Number(n) => JsonValue::Number(match (n.as_u64(), n.as_i64()) {
            (Some(u), _) => JsonNumber::PosInt(u),
            (None, Some(i)) => JsonNumber::NegInt(i),
            _ => JsonNumber::Float(n.to_string()),
        }),
        serde_json::Value::String(s) => JsonValue::String(s.clone()),
        serde_json::Value::Array(a) => JsonValue::Array(a.iter().map(to_json).collect()),
        serde_json::Value::Object(o) => JsonValue::Object(o.iter().map(|(k, v)| (k.clone(), to_json(v))).collect()),
    }
}

fn parse(text: &str) -> JsonValue {
    to_json(&serde_json::from_str(text).unwrap())
}

fn opaque_png(w: u32, h: u32) -> Vec<u8> {
    let img = DynamicImage::ImageRgb8(RgbImage::from_pixel(w, h, image::Rgb([10, 120, 200])));
    let mut buf = Cursor::new(Vec::new());
    img.write_to(&mut buf, image::ImageFormat::Png).unwrap();
    buf.into_inner()
}

fn alpha_png(w: u32, h: u32) -> Vec<u8> {
    let img = DynamicImage::ImageRgba8(RgbaImage::from_pixel(w, h, image::Rgba([10, 120, 200, 128])));
    let mut buf = Cursor::new(Vec::new());
    img.write_to(&mut buf, image::ImageFormat::Png).unwrap();
    buf.into_inner()
}

fn dimensions(data: &[u8]) -> (u32, u32) {
    let img = image::load_from_memory(data).unwrap();
    (img.width(), img.height())
}

fn ladder() -> ImageLadder {
    ImageLadder::unconfigured()
}

#[test]
fn downscales_longest_edge_to_target() {
    let src = opaque_png(1280, 1280);
    match resize(&src, 400).unwrap() {
        Resized::Image(data, mime) => {
            assert_eq!(dimensions(&data), (400, 400));
            assert_eq!(mime, "image/jpeg");
        }
        Resized::Original => panic!("expected a resized image"),
    }
}

#[test]
fn preserves_aspect_ratio() {
    let src = opaque_png(1000, 500);
    match resize(&src, 400).unwrap() {
        Resized::Image(data, _) => assert_eq!(dimensions(&data), (400, 200)),
        Resized::Original => panic!("expected a resized image"),
    }
}

#[test]
fn never_upscales() {
    let src = opaque_png(300, 300);
    assert!(matches!(resize(&src, 800).unwrap(), Resized::Original));
}

#[test]
fn equal_to_target_is_left_alone() {
    let src = opaque_png(400, 400);
    assert!(matches!(resize(&src, 400).unwrap(), Resized::Original));
}

#[test]
fn validate_accepts_a_decodable_image() {
    assert!(validate(&opaque_png(400, 400)).is_ok());
    assert!(validate(&alpha_png(400, 400)).is_ok());
}

#[test]
fn validate_rejects_non_image_bytes() {
    assert!(validate(b"this is definitely not an image").is_err());
}

#[test]
fn validate_rejects_empty_bytes() {
    assert!(validate(b"").is_err());
}

#[test]
fn alpha_sources_stay_png() {
    let src = alpha_png(1280, 1280);
    match resize(&src, 200).unwrap() {
        Resized::Image(data, mime) => {
            assert_eq!(mime, "image/png");
            let img = image::load_from_memory(&data).unwrap();
            assert!(img.color().has_alpha(), "alpha channel must survive");
        }
        Resized::Original => panic!("expected a resized image"),
    }
}

#[test]
fn corrupt_input_is_an_error_not_a_panic() {
    let err = resize(b"this is not an image", 400).unwrap_err();
    assert!(matches!(err, ResizeError::Decode(_)));
}

#[test]
fn an_image_beyond_the_decode_limit_is_refused_not_decoded() {
    let src = opaque_png(MAX_DECODE_EDGE + 1, 4);
    let err = resize(&src, 400).unwrap_err();
    assert!(matches!(err, ResizeError::Decode(_)), "an oversized source must be a Decode error, got {:?}", err);
}

#[test]
fn an_image_at_the_decode_limit_still_resizes() {
    let src = opaque_png(MAX_DECODE_EDGE, 4);
    assert!(matches!(resize(&src, 400).unwrap(), Resized::Image(_, _)));
}

#[test]
fn snaps_requested_size_up_to_the_next_rung() {
    let l = ladder();
    assert_eq!(snap_to_rung(&l, 360), Some(400));
    assert_eq!(snap_to_rung(&l, 1), Some(100));
    assert_eq!(snap_to_rung(&l, 100), Some(100));
    assert_eq!(snap_to_rung(&l, 800), Some(800));
    assert_eq!(snap_to_rung(&l, 101), Some(140));
    assert_eq!(snap_to_rung(&l, 140), Some(140));
    assert_eq!(snap_to_rung(&l, 200), Some(200));
    assert_eq!(snap_to_rung(&l, 201), Some(280));
    assert_eq!(snap_to_rung(&l, 280), Some(280));
}

#[test]
fn sizes_above_the_ladder_have_no_rung() {
    let l = ladder();
    assert_eq!(snap_to_rung(&l, 801), None);
    assert_eq!(snap_to_rung(&l, 4000), None);
}

#[test]
fn variant_stems_round_trip() {
    assert_eq!(variant_stem("cover", 400), "cover@400");
    assert_eq!(variant_size_of("cover@400"), Some(400));
    assert_eq!(variant_size_of("cover"), None);
}

#[test]
fn variant_detection_works_on_file_names() {
    assert!(is_variant_file_name("cover@400.jpg"));
    assert!(!is_variant_file_name("cover.jpg"));
    assert!(!is_variant_file_name("live@wembley.jpg"));
    assert!(!is_variant_file_name("cover@.jpg"));
}

#[test]
fn fingerprint_describes_the_ladder() {
    assert_eq!(ladder_fingerprint(&ladder()), "100-140-200-280-400-800");
}

#[test]
fn sanitising_drops_zero_negative_and_duplicates_and_sorts() {
    assert_eq!(sanitise_sizes(vec![400, 100, 0, 200, 100]), vec![100, 200, 400]);
}

#[test]
fn an_entirely_invalid_ladder_falls_back_to_the_default() {
    assert_eq!(sanitise_sizes(vec![0, 0]), default_sizes());
    assert_eq!(sanitise_sizes(Vec::new()), default_sizes());
}

#[test]
fn prewarm_entries_outside_the_ladder_are_dropped() {
    let ladder = vec![100, 200, 400];
    assert_eq!(sanitise_prewarm(vec![200, 999, 100], &ladder), vec![100, 200]);
}

#[test]
fn an_empty_prewarm_list_is_honoured_not_defaulted() {
    let ladder = vec![100, 200, 400];
    assert!(sanitise_prewarm(Vec::new(), &ladder).is_empty());
}

#[test]
fn without_configuration_the_accessors_return_the_defaults() {
    let l = ladder();
    assert_eq!(sizes(&l), &default_sizes());
    assert_eq!(prewarm_sizes(&l), &default_prewarm_sizes());
}

#[test]
fn snapping_uses_the_active_ladder() {
    let l = ladder();
    assert_eq!(snap_to_rung(&l, 120), Some(140));
    assert_eq!(snap_to_rung(&l, 801), None);
    let custom = configure(Some(vec![50, 500]), None);
    assert_eq!(snap_to_rung(&custom, 120), Some(500));
    assert_eq!(ladder_fingerprint(&custom), "50-500");
    assert!(prewarm_sizes(&custom).is_empty(), "no default pre-warm rung is on this ladder");
}

#[test]
fn configuration_keeps_prewarm_rungs_to_the_ladder() {
    let l = configure(None, Some(vec![800, 140, 999]));
    assert_eq!(sizes(&l), &default_sizes());
    assert_eq!(prewarm_sizes(&l), &vec![140, 800]);
}

#[test]
fn absent_images_section_is_none() {
    assert_eq!(sizes_from_json("sizes", None), None);
}

#[test]
fn absent_key_is_none() {
    let images = parse(r#"{"other": 1}"#);
    assert_eq!(sizes_from_json("sizes", Some(&images)), None);
}

#[test]
fn negative_entries_are_rejected_not_dropped_silently() {
    let images = parse(r#"{"sizes": [100, -50, 400]}"#);
    assert_eq!(sizes_from_json("sizes", Some(&images)), Some(vec![100, 400]));
}

#[test]
fn non_integer_entries_are_rejected() {
    let images = parse(r#"{"sizes": [100, 200.5]}"#);
    assert_eq!(sizes_from_json("sizes", Some(&images)), Some(vec![100]));
}

#[test]
fn a_non_array_value_is_none_not_the_default_indistinguishably() {
    let images = parse(r#"{"sizes": 400}"#);
    assert_eq!(sizes_from_json("sizes", Some(&images)), None);
}

#[test]
fn a_non_object_images_section_is_none() {
    let images = parse(r#""yes""#);
    assert_eq!(sizes_from_json("sizes", Some(&images)), None);
}

#[test]
fn an_out_of_range_value_is_rejected_rather_than_wrapped() {
    let images = parse(r#"{"sizes": [4294967396]}"#);
    assert_eq!(sizes_from_json("sizes", Some(&images)), Some(Vec::new()));
}

#[test]
fn valid_entries_all_pass_through() {
    let images = parse(r#"{"sizes": [100, 200, 400]}"#);
    assert_eq!(sizes_from_json("sizes", Some(&images)), Some(vec![100, 200, 400]));
}

#[test]
fn empty_array_is_some_empty_not_none() {
    let images = parse(r#"{"sizes": []}"#);
    assert_eq!(sizes_from_json("sizes", Some(&images)), Some(Vec::new()));
}

#[test]
fn reads_the_prewarm_key_independently() {
    let images = parse(r#"{"sizes": [100], "prewarm_sizes": [100, -1]}"#);
    assert_eq!(sizes_from_json("prewarm_sizes", Some(&images)), Some(vec![100]));
}

#[test]
fn only_the_first_configuration_takes_effect() {
    let mut setting = audiocontrol::imageresize::LadderSetting::new();
    assert!(setting.apply(Some(vec![300, 100, 100]), None));
    assert_eq!(audiocontrol::imageresize::sizes(setting.ladder()), &vec![100, 300]);
    assert!(!setting.apply(Some(vec![50]), Some(vec![50])));
    assert_eq!(audiocontrol::imageresize::sizes(setting.ladder()), &vec![100, 300]);
}

#[test]
fn a_variant_is_stored_and_served_or_the_original_served_or_the_failure_named() {
    assert!(matches!(variant_step("a/b.png", Ok(Resized::Original)), VariantStep::ServeOriginal));
    match variant_step("a/b.png", Ok(Resized::Image(vec![1, 2], "image/png".to_string()))) {
        VariantStep::StoreAndServe(d, m) => assert_eq!((d, m.as_str()), (vec![1, 2], "image/png")),
        _ => panic!("expected the resized image"),
    }
    match variant_step("a/b.png", Err(ResizeError::Decode("bad".to_string()))) {
        VariantStep::Fail(t) => assert_eq!(t, "Failed to resize a/b.png: failed to decode image: bad"),
        _ => panic!("expected a failure"),
    }
}

#[test]
fn a_resized_jpeg_decodes_to_the_scaled_size_and_colour() {
    let src = opaque_png(100, 50);
    match resize(&src, 20).unwrap() {
        Resized::Image(data, mime) => {
            assert_eq!(mime, "image/jpeg");
            let img = image::load_from_memory(&data).unwrap();
            assert_eq!((img.width(), img.height()), (20, 10));
            assert!(!img.color().has_alpha());
        }
        Resized::Original => panic!("expected a resized image"),
    }
}
