use manga_sources::models::ChapterNumber;
use manga_sources::wpmangareader::{
    card_entries, chapter_entry, chapters_request, detail_entry, get_chapters, get_data_src,
    get_manga_detail, get_pages, latest_request, number_text, page_entries, page_request,
    parse_day, parse_manga_list, popular_request, search_request, try_get_chapters,
    try_get_manga_detail, try_get_pages, try_parse_manga_list, Card, ChapterRow, DetailPage,
    Image,
};

const URL: &str = "https://site.example";

fn text(s: &str) -> Option<String> {
    Some(s.to_string())
}

fn image(lazy: Option<&str>, data: Option<&str>, src: Option<&str>) -> Image {
    Image {
        data_lazy_src: lazy.map(|s| s.to_string()),
        data_src: data.map(|s| s.to_string()),
        src: src.map(|s| s.to_string()),
    }
}

#[test]
fn hidden_image_addresses_come_first() {
    assert_eq!(get_data_src(image(Some("a"), Some("b"), Some("c"))), text("a"));
    assert_eq!(get_data_src(image(None, Some("b"), Some("c"))), text("b"));
    assert_eq!(get_data_src(image(None, None, Some("c"))), text("c"));
    assert_eq!(get_data_src(image(None, None, None)), None);
    assert_eq!(get_data_src(image(Some(""), None, Some("c"))), text(""));
}

const LIST: &str = r#"
<div class="listupd">
  <div class="bs"><div class="bsx"><a href="https://site.example/manga/one/" title=" One "><img src="spinner.gif" data-src="https://cdn/one.jpg"></a></div></div>
  <div class="bs"><div class="bsx"><img src="no-link.jpg"></div></div>
  <div class="bs"><div class="bsx"><a href="https://site.example/manga/untitled/"><img src="x.jpg"></a></div></div>
  <div class="bs"><div class="bsx"><a href="https://site.example/manga/blank/" title="  "><img src="x.jpg"></a></div></div>
  <div class="bs"><div class="bsx"><a title="No address"><img src="x.jpg"></a></div></div>
  <div class="bs"><div class="bsx"><a href="" title="Empty address"><img src="x.jpg"></a></div></div>
  <div class="bs"><div class="bsx"><a href="https://site.example/manga/bare/" title="No image"></a></div></div>
  <div class="bs"><div class="bsx"><a href="https://site.example/manga/white/" title="Blank image"><img src=" "></a></div></div>
</div>
<div class="utao"><div class="uta"><div class="imgu"><a href="/manga/two/" title="Two"><img data-lazy-src="two.jpg"></a></div></div></div>
"#;

#[test]
fn malformed_cards_are_skipped() {
    let list = parse_manga_list(URL, 7, LIST).unwrap();
    assert_eq!(list.len(), 2);
    assert_eq!(list[0].source_id, 7);
    assert_eq!(list[0].title, "One");
    assert_eq!(list[0].path, "/manga/one/");
    assert_eq!(list[0].cover_url, "https://cdn/one.jpg");
    assert!(list[0].author.is_empty() && list[0].genre.is_empty());
    assert_eq!(list[0].status, None);
    assert_eq!(list[0].description, None);
    assert_eq!(list[1].title, "Two");
    assert_eq!(list[1].path, "/manga/two/");
    assert_eq!(list[1].cover_url, "two.jpg");
    assert!(parse_manga_list(URL, 7, "").unwrap().is_empty());
}

#[test]
fn cards_stand_alone() {
    let good = |name: &str| Card {
        title: text(name),
        href: text("https://site.example/a"),
        image: Some(image(None, None, Some(" c "))),
    };
    let bad = Card { title: None, href: text("x"), image: None };
    let list = card_entries(URL, 1, vec![bad.clone(), good("a"), bad, good(" b ")]);
    let titles: Vec<&str> = list.iter().map(|m| m.title.as_str()).collect();
    assert_eq!(titles, vec!["a", "b"]);
    // The cover is taken as it stands.
    assert_eq!(list[0].cover_url, " c ");
    assert_eq!(list[0].path, "/a");
}

const DETAIL: &str = r#"
<h1 class="entry-title"><b>Read</b> The Title </h1>
<div class="thumb"><img alt="no source"><img src="https://cdn/cover.jpg"></div>
<div class="mgen"><a>Action</a><a> Drama</a></div>
<div class="entry-content" itemprop="description"><p> First. </p><p>Second. </p></div>
"#;

#[test]
fn series_is_read() {
    let info = get_manga_detail(URL, "https://site.example/manga/one/", 3, DETAIL)
        .unwrap()
        .unwrap();
    assert_eq!(info.source_id, 3);
    assert_eq!(info.title, "The Title");
    assert_eq!(info.genre, vec!["Action", " Drama"]);
    assert_eq!(info.description.as_deref(), Some("First. Second."));
    assert_eq!(info.path, "/manga/one/");
    assert_eq!(info.cover_url, "https://cdn/cover.jpg");
    assert_eq!(info.status, None);
    assert!(info.author.is_empty());
}

#[test]
fn series_without_title_is_none() {
    assert!(get_manga_detail(URL, "/p", 3, "<p>nothing</p>").unwrap().is_none());
    // The heading has to end with a text.
    let heading = r#"<h1 class="entry-title">Title<br></h1>"#;
    assert!(get_manga_detail(URL, "/p", 3, heading).unwrap().is_none());
    let page = DetailPage {
        title: None,
        genres: vec![],
        description: "d".to_string(),
        images: vec![],
    };
    assert!(detail_entry(URL, "/p", 3, page).is_none());
}

const CHAPTERS: &str = r#"
<div id="chapterlist"><ul>
  <li><div class="eph-num"><a href="https://site.example/one-chapter-12-5/"><span class="chapternum">Chapter 12.5 - The End</span><span class="chapterdate">March 5, 2023</span></a></div></li>
</ul></div>
<div class="bxcl"><ul>
  <li><span class="lch"><a href="https://site.example/one-chapter-1/">Chapter 1</a></span><span class="chapterdate">once</span><a href="?more"></a><a></a></li>
</ul></div>
"#;

#[test]
fn chapters_are_read() {
    let chapters = get_chapters(URL, 3, CHAPTERS).unwrap();
    assert_eq!(chapters.len(), 2);
    let last = &chapters[0];
    assert_eq!(last.source_id, 3);
    assert_eq!(last.title, "Chapter 12.5 - The End");
    assert_eq!(last.uploaded, 1677974400);
    match &last.number {
        ChapterNumber::Written(number) => assert_eq!(number, "12.5"),
        other => panic!("{:?}", other),
    }
    // The link is the chapter's own element, and links are looked for inside it.
    assert_eq!(last.path, "");
    let first = &chapters[1];
    assert_eq!(first.title, "Chapter 1");
    assert_eq!(first.path, "/one-chapter-1/?more");
    assert_eq!(first.uploaded, 0);
    assert_eq!(first.scanlator, None);
}

#[test]
fn chapter_rows_become_chapters_with_their_time() {
    let row = ChapterRow {
        name: "  Extra Chapter 3 x ".to_string(),
        time: "March 5, 2023".to_string(),
        hrefs: vec![text("https://site.example/a"), None, text("https://site.example/b")],
    };
    let info = chapter_entry(URL, 1, &row, 99);
    assert_eq!(info.title, "Extra Chapter 3 x");
    assert_eq!(info.path, "/a/b");
    assert_eq!(info.uploaded, 99);
    match info.number {
        ChapterNumber::Written(number) => assert_eq!(number, "Extra"),
        other => panic!("{:?}", other),
    }
}

#[test]
fn numbers_and_days() {
    assert_eq!(number_text("Chapter 10"), "10");
    assert_eq!(number_text("Chapter Chapter 10"), "10");
    assert_eq!(number_text("10 Chapter 11"), "10");
    assert_eq!(number_text(""), "");
    assert_eq!(number_text("chapter 10"), "chapter");
    assert_eq!(parse_day(" March 5, 2023 "), 1677974400);
    assert_eq!(parse_day("January 1, 1970"), 0);
    assert_eq!(parse_day("January 2, 1970"), 86400);
    assert_eq!(parse_day("2023-03-05"), 0);
    assert_eq!(parse_day(""), 0);
}

#[test]
fn page_images_are_read() {
    let body = r#"<div id="readerarea"><img src=" https://cdn/1.jpg "><img alt="none"><p><img data-src="2.jpg"></p></div><img src="outside.jpg">"#;
    assert_eq!(get_pages(body).unwrap(), vec!["https://cdn/1.jpg", "2.jpg"]);
    assert_eq!(
        page_entries(vec![image(None, None, None), image(None, Some(" a\n"), None)]),
        vec!["a"]
    );
}

#[test]
fn requests() {
    let referer = ("Referer".to_string(), URL.to_string());
    let request = latest_request(URL, 2);
    assert_eq!(request.url, "https://site.example/manga/?page=2&order=latest");
    assert_eq!(request.headers, vec![referer.clone()]);
    let request = popular_request(URL, -1);
    assert_eq!(request.url, "https://site.example/manga/?page=-1&order=popular");
    assert_eq!(request.headers, vec![referer.clone()]);
    let request = search_request(URL, 1, "a b");
    assert_eq!(request.url, "https://site.example/page/1/?s=a b");
    assert_eq!(request.headers, vec![referer.clone()]);
    let request = page_request(URL, "/manga/one/");
    assert_eq!(request.url, "https://site.example/manga/one/");
    assert_eq!(request.headers, vec![referer.clone()]);
    let request = chapters_request(URL, "/manga/one/");
    assert_eq!(request.url, "https://site.example/manga/one/");
    assert_eq!(
        request.headers,
        vec![
            referer,
            ("X-Requested-With".to_string(), "XMLHttpRequest".to_string())
        ]
    );
}

#[test]
fn pages_of_ordinary_size_are_read_too() {
    assert_eq!(try_parse_manga_list(URL, 7, LIST).unwrap().len(), 2);
    assert_eq!(
        try_get_manga_detail(URL, "/p", 3, DETAIL).unwrap().unwrap().title,
        "The Title"
    );
    assert_eq!(try_get_chapters(URL, 3, CHAPTERS).unwrap().len(), 2);
    assert!(try_get_pages("").unwrap().is_empty());
}
