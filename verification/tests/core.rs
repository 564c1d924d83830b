use audiocontrol::claims::ClaimSet;
use audiocontrol::codec::{decode_inline, encode_url_safe, md5_hex, to_lower_hex};
use audiocontrol::coverart::CoverartQuery;
use audiocontrol::external_coverart::localize::sniff;
use audiocontrol::external_coverart::template::expand;
use audiocontrol::imagecache::{guess_mime_type, is_variant_of};
use audiocontrol::macaddress::mac_octets_of;
use audiocontrol::json::{get_service_config, JsonNumber, JsonValue};
use audiocontrol::musicbrainz::MusicBrainzSearchResult;
use audiocontrol::text_map::TextMap;

#[test]
fn url_encoding_keeps_only_unreserved_bytes() {
    let artist = |a: &str| expand("{artist}", &CoverartQuery::Artist(a.to_string()));
    assert_eq!(artist("Alva Noto"), "Alva%20Noto");
    assert_eq!(artist("a-b_c.d~e"), "a-b_c.d~e");
    assert_eq!(artist("é/&"), "%C3%A9%2F%26");
}

#[test]
fn hex_decodes_pairs_of_digits() {
    assert_eq!(mac_octets_of("00ff10ABcd99"), Ok([0, 255, 16, 0xab, 0xcd, 0x99]));
    assert!(mac_octets_of("00ff10ABcd9").is_err());
    assert!(mac_octets_of("00ff10ABcdzz").is_err());
    assert_eq!(to_lower_hex(&[0, 255, 16]), "00ff10");
}

#[test]
fn md5_matches_the_reference_values() {
    assert_eq!(md5_hex(b"abc"), "900150983cd24fb0d6963f7d28e17f72");
    assert_eq!(md5_hex(b""), "d41d8cd98f00b204e9800998ecf8427e");
    assert_eq!(md5_hex(b"").len(), 32);
}

#[test]
fn artist_names_are_encoded_url_safe_without_padding() {
    assert_eq!(encode_url_safe("The Beatles"), "VGhlIEJlYXRsZXM");
    assert_eq!(encode_url_safe("a?"), "YT8");
    assert_eq!(encode_url_safe(""), "");
}

#[test]
fn inline_data_decodes_with_or_without_padding() {
    assert_eq!(decode_inline("aGVsbG8="), Some(b"hello".to_vec()));
    assert_eq!(decode_inline("aGVsbG8"), Some(b"hello".to_vec()));
    assert_eq!(decode_inline("not base64 !!!"), None);
}

#[test]
fn image_kinds_come_from_signatures() {
    assert_eq!(sniff(&[0x89, b'P', b'N', b'G', 0x0D, 0x0A, 0x1A, 0x0A]), Some(("png", "image/png")));
    assert_eq!(sniff(&[0xFF, 0xD8, 0xFF, 0xE0]), Some(("jpg", "image/jpeg")));
    assert_eq!(sniff(b"GIF89a"), Some(("gif", "image/gif")));
    assert_eq!(sniff(b"<html>"), None);
}

#[test]
fn a_claim_is_exclusive_until_released() {
    let mut claims = ClaimSet::new();
    assert!(!claims.contains("a"));
    assert!(claims.claim("a"));
    assert!(claims.contains("a"));
    assert!(!claims.claim("a"));
    assert!(claims.claim("b"));
    claims.release("a");
    assert!(!claims.contains("a"));
    assert!(claims.contains("b"));
    assert!(claims.claim("a"));
}

#[test]
fn a_text_map_keeps_one_value_per_key() {
    let mut m = TextMap::new();
    assert_eq!(m.get("k"), None);
    m.insert("k".to_string(), "v1".to_string());
    m.insert("k".to_string(), "v2".to_string());
    m.insert("j".to_string(), "w".to_string());
    assert_eq!(m.get("k").map(String::as_str), Some("v2"));
    m.remove("k");
    assert_eq!(m.get("k"), None);
    assert_eq!(m.get("j").map(String::as_str), Some("w"));
}

#[test]
fn json_readers_follow_the_tree() {
    let v = JsonValue::Object(vec![
        (
            "services".to_string(),
            JsonValue::Object(vec![(
                "volume".to_string(),
                JsonValue::Object(vec![
                    ("enable".to_string(), JsonValue::Bool(true)),
                    ("n".to_string(), JsonValue::Number(JsonNumber::PosInt(3))),
                    ("s".to_string(), JsonValue::String("x".to_string())),
                    ("a".to_string(), JsonValue::Array(vec![JsonValue::Null])),
                ]),
            )]),
        ),
    ]);
    let volume = get_service_config(&v, "volume").unwrap();
    assert!(volume.is_object());
    assert_eq!(volume.get("enable").unwrap().as_bool(), Some(true));
    assert_eq!(volume.get("n").unwrap().as_u64(), Some(3));
    assert_eq!(volume.get("s").unwrap().as_str().map(String::as_str), Some("x"));
    assert_eq!(volume.get("a").unwrap().as_array().unwrap().len(), 1);
    assert!(volume.get("missing").is_none());
    assert!(get_service_config(&v, "other").is_none());
    assert!(matches!(JsonNumber::NegInt(-2).duplicate(), JsonNumber::NegInt(-2)));
}

#[test]
fn file_names_split_into_stem_and_extension() {
    assert_eq!(guess_mime_type("a/b/cover.jpg"), "image/jpeg");
    assert_eq!(guess_mime_type("a/b/cover"), "application/octet-stream");
    assert!(is_variant_of("cover.art@400.jpg", "cover.art"));
    assert!(!is_variant_of("cover@400.jpg", "art"));
}

#[test]
fn search_results_compare_by_content() {
    assert_eq!(MusicBrainzSearchResult::NotFound, MusicBrainzSearchResult::NotFound);
    assert_ne!(
        MusicBrainzSearchResult::Found(vec!["x".to_string()], false),
        MusicBrainzSearchResult::Found(vec!["x".to_string()], true)
    );
}
