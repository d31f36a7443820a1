use manga_sources::error::Error;
use manga_sources::networking::image::{
    build_image_get, extract_first_img_src, ImageEvent, ImageFetch, ImageStage, IMAGE_ACCEPT,
    LIMIT_BYTES,
};

#[test]
fn test_build_image_get_sets_accept_header() {
    let headers = build_image_get("https://cdn.example.com/image.png");
    assert_eq!(
        headers[0],
        (
            "Accept".to_string(),
            "image/avif,image/webp,image/apng,image/*,*/*;q=0.8".to_string()
        )
    );
}

#[test]
fn referer_is_the_root_of_the_site() {
    let referer = |url: &str| build_image_get(url)[1].clone();
    let field = |root: &str| ("Referer".to_string(), root.to_string());
    assert_eq!(
        referer("http://User@CDN.example.com:8080/a/b?c#d"),
        field("http://cdn.example.com:8080/")
    );
    assert_eq!(referer("http://localhost:8080/a.png"), field("http://localhost:8080/"));
    // The port that the scheme has anyway is not named.
    assert_eq!(referer("https://cdn.example.com:443/a.png"), field("https://cdn.example.com/"));
    assert_eq!(referer("https://cdn.example.com/a.png"), field("https://cdn.example.com/"));
    assert_eq!(referer("http://[::1]:99/a.png"), field("http://[::1]:99/"));
    assert_eq!(build_image_get("http://localhost:8080/a.png").len(), 2);
    // No address, or one without a host, gives no referer.
    assert_eq!(build_image_get("image.png").len(), 1);
    assert_eq!(build_image_get("data:image/png;base64,AAAA").len(), 1);
    assert_eq!(IMAGE_ACCEPT, "image/avif,image/webp,image/apng,image/*,*/*;q=0.8");
    assert_eq!(LIMIT_BYTES, 52_428_800);
}

#[test]
fn image_source_needs_its_closing_quote() {
    assert_eq!(extract_first_img_src("<img src=\"open"), None);
    assert_eq!(extract_first_img_src("<img src=\"\">"), Some("".to_string()));
    assert_eq!(
        extract_first_img_src("ä<img src=\"ü.png\">"),
        Some("ü.png".to_string())
    );
}

#[test]
fn only_image_tags_have_image_sources() {
    let src = |html: &str| extract_first_img_src(html);
    let some = |text: &str| Some(text.to_string());
    assert_eq!(
        src(r#"<script src="a.js"></script><img src="b.png">"#),
        some("b.png")
    );
    assert_eq!(src(r#"<script src="a.js"></script>"#), None);
    assert_eq!(src(r#"<img alt="x"><iframe src="a.html">"#), None);
    assert_eq!(src(r#"<img alt="x" src="a.png">"#), some("a.png"));
    assert_eq!(src(r#"<img><img alt="y" src="b.png">"#), some("b.png"));
    assert_eq!(src(r#"src="a.png""#), None);
    assert_eq!(src(r#"<imgsrc="a.png">"#), some("a.png"));
    assert_eq!(src(r#"<img src="open"#), None);
    // A bracket in a value does not end the tag, and the name of the tag may be in capitals.
    assert_eq!(src(r#"<img alt="a>b" src="x">"#), some("x"));
    assert_eq!(src(r#"<img alt='a>b' src="x">"#), some("x"));
    assert_eq!(src(r#"<IMG src="x">"#), some("x"));
    assert_eq!(src(r#"<Img/src="x">"#), some("x"));
    assert_eq!(src(r#"<img alt="it's" src="x">"#), some("x"));
    assert_eq!(src(r#"<img alt=it's src="x">"#), some("x"));
    assert_eq!(src(r#"<img alt='a"b' src="x">"#), some("x"));
    assert_eq!(src(r#"<img alt = "a>b"src="x">"#), some("x"));
    assert_eq!(src(r#"<img alt=a="b src="x">"#), some("x"));
    assert_eq!(src(r#"<img a<b src="x">"#), some("x"));
    assert_eq!(src("<img\n  src=\"x\">"), some("x"));
    // A source inside a value is none.
    assert_eq!(src(r#"<img alt='src="a"' src="b">"#), some("b"));
    // Nor is the end of another name.
    assert_eq!(src(r#"<img data-src="a" src="b">"#), some("b"));
    assert_eq!(src(r#"<img data-src="a">"#), None);
    assert_eq!(src(r#"<img alt="a" > src="b">"#), None);
    assert_eq!(src("<img"), None);
    assert_eq!(src(""), None);
}

#[test]
fn first_source_counts_where_all_are_image_sources() {
    let html = r#"<IMG alt='>' src="1"><p><img src="2"><img class=x src="3">"#;
    let start = html.find("src=\"").unwrap() + 5;
    let end = start + html[start..].find('"').unwrap();
    assert_eq!(extract_first_img_src(html).as_deref(), Some(&html[start..end]));
}

#[test]
fn limits_of_the_stages() {
    let fetch = ImageFetch::start("https://example.com/i");
    assert!(fetch.stage.is_limited());
    assert_eq!(fetch.stage.read_limit(), None);
    assert!(ImageStage::Retry.is_limited());
    assert!(!ImageStage::ReSolve.is_limited());
    assert!(!ImageStage::ReadPage.is_limited());
    assert!(!ImageStage::ReadImage.is_limited());
    assert_eq!(ImageStage::ReadImage.read_limit(), Some(52_428_800));
    assert_eq!(ImageStage::ReadPage.read_limit(), None);
}

#[test]
fn wrapper_page_with_a_script_only_is_refused() {
    let fetch = ImageFetch::start("https://example.com/p");
    let fetch = fetch.advance(response(200, "text/html"), false);
    let fetch = fetch.advance(ImageEvent::Page("<script src=\"a.js\">".to_string()), false);
    assert!(matches!(fetch.stage, ImageStage::Refused(Error::NoImage(_))));
}

fn response(status: u16, kind: &str) -> ImageEvent {
    ImageEvent::Response(status, Some(kind.to_string()))
}

#[test]
fn image_answers_are_told_apart() {
    let fetch = || ImageFetch::start("https://example.com/i");
    let stage = |event| fetch().advance(event, false).stage;
    assert!(matches!(stage(response(200, "image/png")), ImageStage::ReadImage));
    assert!(matches!(stage(ImageEvent::Response(200, None)), ImageStage::ReadImage));
    assert!(matches!(
        stage(response(200, "Text/HTML; charset=utf-8")),
        ImageStage::ReadPage
    ));
    match stage(response(404, "image/png")) {
        ImageStage::Refused(error) => assert_eq!(
            error.message(),
            "Image fetch failed: HTTP 404 for https://example.com/i"
        ),
        other => panic!("{:?}", other),
    }
    assert!(matches!(stage(response(399, "image/png")), ImageStage::ReadImage));
}

#[test]
fn wrapper_pages_are_followed() {
    let fetch = ImageFetch::start("https://example.com/dir/page.html");
    let fetch = fetch.advance(response(200, "text/html"), false);
    let fetch = fetch.advance(ImageEvent::Page("<img src=\"../i.png\">".to_string()), false);
    assert_eq!(fetch.url, "https://example.com/i.png");
    assert_eq!(fetch.depth, 1);
    assert!(matches!(fetch.stage, ImageStage::Request));
}

#[test]
fn wrapper_page_without_image_is_refused() {
    let fetch = ImageFetch::start("https://example.com/p");
    let fetch = fetch.advance(response(200, "text/html"), false);
    let fetch = fetch.advance(ImageEvent::Page("<p>nothing</p>".to_string()), false);
    match fetch.stage {
        ImageStage::Refused(error) => assert_eq!(
            error.message(),
            "Expected image bytes but got HTML and no <img src=...> found for https://example.com/p"
        ),
        other => panic!("{:?}", other),
    }
}

#[test]
fn reference_that_cannot_be_resolved_is_taken_as_it_is() {
    let fetch = ImageFetch::start("no address");
    let fetch = fetch.advance(response(200, "text/html"), false);
    let fetch = fetch.advance(ImageEvent::Page("<img src=\"i.png\">".to_string()), false);
    assert_eq!(fetch.url, "i.png");
}

#[test]
fn third_wrapper_page_is_one_too_many() {
    let mut fetch = ImageFetch::start("https://example.com/0");
    for hop in 1..=3u8 {
        fetch = fetch.advance(response(200, "text/html"), false);
        fetch = fetch.advance(ImageEvent::Page(format!("<img src=\"/{}\">", hop)), false);
        assert_eq!(fetch.depth, hop);
    }
    match &fetch.stage {
        ImageStage::Refused(Error::TooManyHops(url)) => assert_eq!(url, "https://example.com/3"),
        other => panic!("{:?}", other),
    }
    match fetch.stage {
        ImageStage::Refused(error) => assert_eq!(
            error.message(),
            "Too many wrapper hops while fetching image: https://example.com/3"
        ),
        other => panic!("{:?}", other),
    }
}

#[test]
fn failed_image_request_is_retried_once_with_a_solver() {
    let start = || ImageFetch::start("https://example.com/i");
    let fetch = start().advance(ImageEvent::Failure, true);
    assert!(matches!(fetch.stage, ImageStage::ReSolve));
    let fetch = fetch.advance(ImageEvent::ReSolved(true), true);
    assert!(matches!(fetch.stage, ImageStage::Retry));
    let fetch = fetch.advance(ImageEvent::Failure, true);
    assert!(matches!(fetch.stage, ImageStage::GiveUp));

    let fetch = start()
        .advance(ImageEvent::Failure, true)
        .advance(ImageEvent::ReSolved(false), true);
    assert!(matches!(fetch.stage, ImageStage::GiveUp));
    let fetch = start().advance(ImageEvent::Failure, false);
    assert!(matches!(fetch.stage, ImageStage::GiveUp));
    // What comes after the end changes nothing.
    let fetch = fetch.advance(response(200, "image/png"), true);
    assert!(matches!(fetch.stage, ImageStage::GiveUp));
}

#[test]
fn image_fetch_never_asks_more_than_six_times() {
    // Every request fails once, and every answer is a wrapper page.
    let mut fetch = ImageFetch::start("https://example.com/0");
    let mut requests = 0;
    loop {
        let event = match fetch.stage {
            ImageStage::Request => {
                requests += 1;
                ImageEvent::Failure
            }
            ImageStage::ReSolve => ImageEvent::ReSolved(true),
            ImageStage::Retry => {
                requests += 1;
                response(200, "text/html")
            }
            ImageStage::ReadPage => ImageEvent::Page("<img src=\"next\">".to_string()),
            _ => break,
        };
        fetch = fetch.advance(event, true);
    }
    assert_eq!(requests, 6);
    assert!(matches!(fetch.stage, ImageStage::Refused(_)));
}
