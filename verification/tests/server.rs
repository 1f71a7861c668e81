use live_markdown_native::server::{
    bind_address, build_asset_etag, fallback_ports, if_none_match_matches, preview_url,
};

#[test]
fn if_none_match_recognizes_exact_tag() {
    let header = Some("W/\"12-34\"");

    assert!(if_none_match_matches(header, "W/\"12-34\""));
    assert!(!if_none_match_matches(header, "W/\"ab-cd\""));
}

#[test]
fn if_none_match_supports_multiple_and_wildcard_tags() {
    let header = Some("\"one\", W/\"22-33\", \"three\"");
    assert!(if_none_match_matches(header, "W/\"22-33\""));

    let wildcard = Some("*");
    assert!(if_none_match_matches(wildcard, "W/\"whatever\""));
}

#[test]
fn if_none_match_without_header_or_match() {
    assert!(!if_none_match_matches(None, "x"));
    assert!(!if_none_match_matches(Some(""), "x"));
    assert!(if_none_match_matches(Some(""), ""));
    assert!(if_none_match_matches(Some("a,,b"), ""));
    assert!(if_none_match_matches(Some("  *  "), "x"));
    assert!(!if_none_match_matches(Some("*, y"), "x"));
    assert!(if_none_match_matches(Some("y ,  x  "), "x"));
    assert!(if_none_match_matches(Some("x"), "x"));
    assert!(!if_none_match_matches(Some("xy"), "x"));
    assert!(!if_none_match_matches(Some("a,b"), "a,b"));
}

#[test]
fn etags_hold_length_and_time_in_hex() {
    assert_eq!(build_asset_etag(18, 52), "W/\"12-34\"");
    assert_eq!(build_asset_etag(0, 0), "W/\"0-0\"");
    assert_eq!(build_asset_etag(255, 1_700_000_000), "W/\"ff-6553f100\"");
}

#[test]
fn twelve_ports_are_tried() {
    assert_eq!(fallback_ports(6419), (6419, 6430));
    assert_eq!(fallback_ports(0), (0, 11));
    assert_eq!(fallback_ports(65524), (65524, 65535));
    assert_eq!(fallback_ports(65530), (65530, 65535));
    assert_eq!(fallback_ports(65535), (65535, 65535));
}

#[test]
fn addresses_and_urls() {
    assert_eq!(bind_address("127.0.0.1", 6419), "127.0.0.1:6419");
    assert_eq!(preview_url("127.0.0.1", 6419), "http://127.0.0.1:6419/");
    assert_eq!(preview_url("::1", 80), "http://::1:80/");
}
