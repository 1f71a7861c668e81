use live_markdown_native::text::{
    chars_of, eq_ignoring_case, push_decimal, push_escaped_attr, push_escaped_html, push_lower_hex,
    same_text, sanitize_image_url, sanitize_url, starts_with_ignoring_case,
};

#[test]
fn escapes_the_five_special_characters() {
    let mut out = String::from("x");
    push_escaped_html(&mut out, "a&b<c>d\"e'f");
    assert_eq!(out, "xa&amp;b&lt;c&gt;d&quot;e&#39;f");
}

#[test]
fn escaping_keeps_other_text_and_appends() {
    let mut out = String::new();
    push_escaped_html(&mut out, "plain é ü");
    push_escaped_attr(&mut out, "<");
    assert_eq!(out, "plain é ü&lt;");
}

#[test]
fn decimal_of_numbers() {
    let mut out = String::new();
    push_decimal(&mut out, 0);
    out.push(',');
    push_decimal(&mut out, 9);
    out.push(',');
    push_decimal(&mut out, 10);
    out.push(',');
    push_decimal(&mut out, 6419);
    out.push(',');
    push_decimal(&mut out, u64::MAX);
    assert_eq!(out, "0,9,10,6419,18446744073709551615");
}

#[test]
fn lower_hex_of_numbers() {
    let mut out = String::new();
    push_lower_hex(&mut out, 0);
    out.push(',');
    push_lower_hex(&mut out, 255);
    out.push(',');
    push_lower_hex(&mut out, 0x12ab);
    out.push(',');
    push_lower_hex(&mut out, u64::MAX);
    assert_eq!(out, "0,ff,12ab,ffffffffffffffff");
}

#[test]
fn sanitizes_links() {
    assert_eq!(sanitize_url("  https://example.com/a  "), "https://example.com/a");
    assert_eq!(sanitize_url(""), "#");
    assert_eq!(sanitize_url("   "), "#");
    assert_eq!(sanitize_url("javascript:alert(1)"), "#");
    assert_eq!(sanitize_url(" JaVaScRiPt:alert(1)"), "#");
    assert_eq!(sanitize_url("vbscript:x"), "#");
    assert_eq!(sanitize_url("data:image/png;base64,AAAA"), "#");
    assert_eq!(sanitize_url("#frag"), "#frag");
    assert_eq!(sanitize_url("java"), "java");
}

#[test]
fn sanitizes_image_sources() {
    assert_eq!(sanitize_image_url("images/diagram.png"), "images/diagram.png");
    assert_eq!(sanitize_image_url("data:image/png;base64,AAAA"), "data:image/png;base64,AAAA");
    assert_eq!(sanitize_image_url("DATA:IMAGE/png;base64,AAAA"), "DATA:IMAGE/png;base64,AAAA");
    assert_eq!(sanitize_image_url("data:text/html,x"), "#");
    assert_eq!(sanitize_image_url("javascript:alert(1)"), "#");
    assert_eq!(sanitize_image_url("VBScript:x"), "#");
    assert_eq!(sanitize_image_url(" "), "#");
}

#[test]
fn compares_ignoring_ascii_case() {
    assert!(starts_with_ignoring_case("FILE://x", "file://"));
    assert!(!starts_with_ignoring_case("fil", "file://"));
    assert!(starts_with_ignoring_case("abc", ""));
    assert!(eq_ignoring_case("PnG", "png"));
    assert!(!eq_ignoring_case("png2", "png"));
    assert!(!eq_ignoring_case("ÄB", "äb"));
    assert!(same_text("a,b", "a,b"));
    assert!(!same_text("a", "A"));
}

#[test]
fn chars_of_a_text() {
    assert_eq!(chars_of("aé→"), vec!['a', 'é', '→']);
    assert_eq!(chars_of(""), Vec::<char>::new());
}
