use manga_sources::networking::challenge::{looks_like_cf_challenge, DirectResult};
use manga_sources::networking::image::extract_first_img_src;

#[test]
fn test_cf_challenge_detection_403_without_cf_markers() {
    // A bare 403 without any Cloudflare markers is NOT a challenge —
    // it's a normal forbidden response (auth, geo-block, etc.).
    assert!(!looks_like_cf_challenge(403, ""));
    assert!(!looks_like_cf_challenge(403, "some random body"));
    assert!(!looks_like_cf_challenge(403, "<html>Forbidden</html>"));
}

#[test]
fn test_cf_challenge_detection_403_with_cloudflare() {
    // A 403 that mentions "cloudflare" IS treated as a challenge.
    assert!(looks_like_cf_challenge(
        403,
        "<html>Cloudflare: Access denied</html>"
    ));
}

#[test]
fn test_cf_challenge_detection_503_without_cf_markers() {
    // Same for 503 — no Cloudflare markers means not a CF challenge.
    assert!(!looks_like_cf_challenge(503, ""));
    assert!(!looks_like_cf_challenge(503, "<html>maintenance</html>"));
}

#[test]
fn test_cf_challenge_detection_503_with_cloudflare() {
    assert!(looks_like_cf_challenge(
        503,
        "<html>Service Temporarily Unavailable - Cloudflare</html>"
    ));
}

#[test]
fn test_cf_challenge_detection_200_with_challenge_markers() {
    let body = r#"<html><head><title>Just a moment...</title></head>
            <body><div id="cf-browser-verification">Please wait...</div>
            Powered by Cloudflare</body></html>"#;
    assert!(looks_like_cf_challenge(200, body));
}

#[test]
fn test_cf_challenge_detection_200_cf_chl_opt() {
    let body = r#"<html><script>window._cf_chl_opt={/* ... */};</script>
            <noscript>Cloudflare</noscript></html>"#;
    assert!(looks_like_cf_challenge(200, body));
}

#[test]
fn test_cf_challenge_detection_200_challenge_platform() {
    let body = r#"<html><script src="/cdn-cgi/challenge-platform/scripts/jsd/main.js"></script>
            cloudflare</html>"#;
    assert!(looks_like_cf_challenge(200, body));
}

#[test]
fn test_cf_challenge_detection_normal_page_not_flagged() {
    let body = "<html><body><h1>Hello World</h1></body></html>";
    assert!(!looks_like_cf_challenge(200, body));
}

#[test]
fn test_cf_challenge_detection_page_mentioning_cloudflare_without_markers() {
    // Mentions "cloudflare" but none of the challenge-specific markers,
    // so it should NOT be treated as a challenge.
    let body = "<html><body>We use Cloudflare for CDN.</body></html>";
    assert!(!looks_like_cf_challenge(200, body));
}

#[test]
fn test_cf_challenge_detection_case_insensitive() {
    let body = r#"<html><body>JUST A MOMENT... CLOUDFLARE</body></html>"#;
    assert!(looks_like_cf_challenge(200, body));
}

// --- extract_first_img_src ---------------------------------------------

#[test]
fn test_extract_img_src_basic() {
    let html = r#"<html><body><img src="https://example.com/image.png"></body></html>"#;
    assert_eq!(
        extract_first_img_src(html),
        Some("https://example.com/image.png".to_string())
    );
}

#[test]
fn test_extract_img_src_relative() {
    let html = r#"<img src="/images/foo.jpg" alt="foo">"#;
    assert_eq!(
        extract_first_img_src(html),
        Some("/images/foo.jpg".to_string())
    );
}

#[test]
fn test_extract_img_src_no_img() {
    let html = "<html><body>No images here</body></html>";
    assert_eq!(extract_first_img_src(html), None);
}

#[test]
fn test_extract_img_src_picks_first() {
    let html = r#"<img src="first.png"><img src="second.png">"#;
    assert_eq!(extract_first_img_src(html), Some("first.png".to_string()));
}

#[test]
fn test_direct_result_enum_variants() {
    // Ensure the enum is constructable (compile-time check mostly)
    let success = DirectResult::Success("hello".to_string());
    let challenged = DirectResult::Challenged(403);

    match success {
        DirectResult::Success(s) => assert_eq!(s, "hello"),
        _ => panic!("Expected Success"),
    }

    match challenged {
        DirectResult::Challenged(code) => assert_eq!(code, 403),
        _ => panic!("Expected Challenged"),
    }
}
