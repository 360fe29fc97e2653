use snowflake_ids::shortener::{
    new_mapping, reply_for_existing, reply_for_stored, share_link, short_code, ShortenResponse,
};
use snowflake_ids::traffic::{generate_random_url, url_for};

#[test]
fn short_code_is_base62() {
    assert_eq!(short_code(1337), "LZ");
    assert_eq!(short_code(0), "0");
    assert_eq!(short_code(61), "z");
    assert_eq!(short_code(62), "10");
    assert_eq!(short_code(4333571), "IBMJ");
}

#[test]
fn short_code_of_negative_id_reads_its_bits() {
    assert_eq!(short_code(-1), "7n42DGM5Tflk9n8mt7Fhc7");
}

#[test]
fn share_link_prefixes_code() {
    assert_eq!(share_link("LZ"), "https://redru.io/LZ");
    let response = ShortenResponse::new(share_link(&short_code(1337)));
    assert_eq!(response.short_url, "https://redru.io/LZ");
}

#[test]
fn random_url_has_expected_shape() {
    for _ in 0..20 {
        let url = generate_random_url();
        let rest = url.strip_prefix("https://www.").unwrap();
        let (domain, path) = rest.split_once(".com/").unwrap();
        assert!((5..15).contains(&domain.len()));
        assert!((5..20).contains(&path.len()));
        assert!(domain.chars().all(|c| c.is_ascii_alphanumeric()));
        assert!(path.chars().all(|c| c.is_ascii_alphanumeric()));
    }
}

#[test]
fn new_mapping_uses_base62_code() {
    let mapping = new_mapping(1337, "https://example.com/a".to_string());
    assert_eq!(mapping.id, 1337);
    assert_eq!(mapping.long_url, "https://example.com/a");
    assert_eq!(mapping.short_url, "LZ");
}

#[test]
fn replies_for_existing_and_stored_mappings() {
    let mapping = new_mapping(62, "https://example.com/b".to_string());
    assert_eq!(reply_for_existing(&mapping).short_url, "10");
    assert_eq!(reply_for_stored(&mapping).short_url, "https://redru.io/10");
}

#[test]
fn url_for_builds_long_url() {
    assert_eq!(url_for("abcde", "xyz12"), "https://www.abcde.com/xyz12");
}
