use manga_sources::models::ChapterNumber;
use manga_sources::weebcentral::{
    chapter_entries, chapter_entry, chapters_url, detail_entry, detail_url, find_sidebar_section,
    get_chapters, get_manga_detail, get_manga_list, get_pages, get_source_info, id_of, latest_url,
    list_entry, list_url, page_entries, pages_url, parse_upload_timestamp, popular_url, search_url,
    try_get_chapters, try_get_manga_detail, try_get_manga_list, try_get_pages, try_list_url,
    ChapterRow, DetailPage, ListCard, Section,
};

const LIST: &str = r#"
<html><body>
<article class="bg-base-300 flex">
  <section><a href="https://weebcentral.com/series/01J76XY8K8BPR60XQNGPTEJ767/Planetes">
    <picture><img src="https://temp.compsci88.com/cover/normal/planetes.webp"></picture></a>
    <div class="text-ellipsis truncate"> Planetes </div></section>
  <section>
    <div><strong>Year:</strong> <span>1999</span></div>
    <div><strong>Status:</strong> <span> Complete </span></div>
    <div><strong>Type:</strong> <span>Manga</span></div>
    <div><strong>Author(s):</strong><span><a class="link link-info link-hover"> YUKIMURA Makoto </a></span></div>
    <div class="opacity-70"><span>one</span><span>two</span><span>three</span><span> Drama, </span><span>Sci-fi</span></div>
  </section>
</article>
<article class="bg-base-300"></article>
</body></html>
"#;

#[test]
fn list_page_is_read() {
    let list = get_manga_list(LIST).unwrap();
    assert_eq!(list.len(), 2);
    let planetes = &list[0];
    assert_eq!(planetes.source_id, 28);
    assert_eq!(planetes.title, "Planetes");
    assert_eq!(planetes.author, vec!["YUKIMURA Makoto"]);
    assert_eq!(planetes.genre, vec!["Drama,", "Sci-fi"]);
    assert_eq!(planetes.status.as_deref(), Some("Complete"));
    assert_eq!(planetes.description, None);
    assert_eq!(planetes.path, "/series/01J76XY8K8BPR60XQNGPTEJ767");
    assert_eq!(
        planetes.cover_url,
        "https://temp.compsci88.com/cover/normal/planetes.webp"
    );
    let empty = &list[1];
    assert_eq!(empty.title, "Unknown Title");
    assert!(empty.author.is_empty() && empty.genre.is_empty());
    assert_eq!(empty.status.as_deref(), Some(""));
    assert_eq!(empty.path, "/series/");
    assert_eq!(empty.cover_url, "");
    assert!(get_manga_list("").unwrap().is_empty());
}

#[test]
fn list_card_becomes_a_series() {
    let texts = |list: &[&str]| list.iter().map(|t| t.to_string()).collect::<Vec<String>>();
    let info = list_entry(ListCard {
        title: Some("  A &amp; B\n".to_string()),
        authors: texts(&[" x ", "y"]),
        labels: texts(&["1", "2", "3"]),
        link: Some("https://weebcentral.com/series/ID/name".to_string()),
        facts: texts(&["first"]),
        cover: None,
    });
    // Markup is not decoded.
    assert_eq!(info.title, "A &amp; B");
    assert_eq!(info.author, vec!["x", "y"]);
    assert!(info.genre.is_empty());
    assert_eq!(info.status.as_deref(), Some(""));
    assert_eq!(info.path, "/series/ID");
}

#[test]
fn fifth_part_of_a_link_is_the_id() {
    let id = |link: &str| id_of(Some(link.to_string()));
    assert_eq!(id("https://weebcentral.com/series/ID/name"), "ID");
    assert_eq!(id("https://weebcentral.com/series/ID"), "ID");
    assert_eq!(id("https://weebcentral.com/series"), "");
    assert_eq!(id("/a/b/c/d/e"), "d");
    assert_eq!(id("////"), "");
    assert_eq!(id_of(None), "");
}

const DETAIL: &str = r#"
<html><body>
<picture><img src="https://temp.compsci88.com/cover/fallback/planetes.jpg"></picture>
<h1 class="hidden md:block text-2xl font-bold"> Planetes </h1>
<h1 class="md:hidden text-2xl font-bold">other</h1>
<ul class="flex flex-col gap-4">
  <li><strong>Author(s): </strong><span><a class="link link-info link-hover">YUKIMURA Makoto</a></span></li>
  <li><strong>Tags(s): </strong><span><a class="link link-info link-hover">Drama</a></span><span><a class="link link-info link-hover"> Sci-fi </a></span></li>
  <li><strong>Status: </strong><a class="link link-info link-hover"> Complete </a></li>
</ul>
<ul class="flex flex-col gap-4">
  <li><strong>Description</strong><p class="whitespace-pre-wrap break-words"> In space. </p></li>
</ul>
</body></html>
"#;

#[test]
fn detail_page_is_read() {
    let path = "/series/01J76XY8K8BPR60XQNGPTEJ767";
    let info = get_manga_detail(path.to_string(), DETAIL).unwrap();
    assert_eq!(info.source_id, 28);
    assert_eq!(info.title, "Planetes");
    assert_eq!(info.author, vec!["YUKIMURA Makoto"]);
    assert_eq!(info.genre, vec!["Drama", "Sci-fi"]);
    assert_eq!(info.status.as_deref(), Some("Complete"));
    assert_eq!(info.description.as_deref(), Some("In space."));
    assert_eq!(info.path, path);
    assert_eq!(
        info.cover_url,
        "https://temp.compsci88.com/cover/fallback/planetes.jpg"
    );
    let empty = get_manga_detail(path.to_string(), "").unwrap();
    assert_eq!(empty.title, "Unknown Title");
    assert!(empty.author.is_empty() && empty.genre.is_empty());
    assert_eq!(empty.status.as_deref(), Some(""));
    assert_eq!(empty.description.as_deref(), Some(""));
}

fn section(label: Option<&str>, link: &str) -> Section {
    Section {
        label: label.map(|l| l.to_string()),
        links: vec![link.to_string()],
        status: Some(format!(" {} ", link)),
    }
}

#[test]
fn first_section_with_the_label_counts() {
    let sections = vec![
        section(None, "none"),
        section(Some("Status (old):"), "older"),
        section(Some("\n Status::\t"), "first"),
        section(Some("Status"), "second"),
    ];
    assert_eq!(find_sidebar_section(&sections, "Status").unwrap().links, vec!["first"]);
    assert!(find_sidebar_section(&sections, "Author(s)").is_none());
    assert!(find_sidebar_section(&sections, "").is_none());
    let info = detail_entry(
        "/p".to_string(),
        DetailPage { title: None, sections, description: None, cover: None },
    );
    assert_eq!(info.status.as_deref(), Some("first"));
    assert!(info.author.is_empty());
}

const CHAPTERS: &str = r#"
<html><body>
<div class="flex items-center"><a href="https://weebcentral.com/chapters/CID2"><span class="grow flex items-center gap-2"><span class=""> Chapter 2 </span></span><time class="text-datetime opacity-50">2024-01-02T03:04:05.678Z</time></a></div>
<div class="flex items-center"><a href="https://weebcentral.com/chapters/CID1"><span class="grow flex items-center gap-2"><span class="">Chapter 1</span></span><time class="text-datetime opacity-50">yesterday</time></a></div>
<div><div class="flex items-center">not a chapter</div></div>
</body></html>
"#;

#[test]
fn chapters_are_read_and_numbered_down() {
    let chapters = get_chapters(CHAPTERS).unwrap();
    assert_eq!(chapters.len(), 2);
    assert_eq!(chapters[0].title, "Chapter 2");
    assert_eq!(chapters[0].path, "/chapters/CID2");
    assert!(matches!(chapters[0].number, ChapterNumber::Ordinal(2)));
    assert_eq!(chapters[0].uploaded, 1704164645);
    assert_eq!(chapters[0].scanlator, None);
    assert_eq!(chapters[0].source_id, 28);
    assert_eq!(chapters[1].path, "/chapters/CID1");
    assert!(matches!(chapters[1].number, ChapterNumber::Ordinal(1)));
    assert_eq!(chapters[1].uploaded, 0);
    assert!(get_chapters("<p>").unwrap().is_empty());
}

#[test]
fn chapter_rows_become_chapters() {
    let row = |time: Option<&str>| ChapterRow {
        title: None,
        link: None,
        time: time.map(|t| t.to_string()),
    };
    let info = chapter_entry(row(None), 7, 42);
    assert_eq!(info.title, "Unknown Title");
    assert_eq!(info.path, "/chapters/");
    assert_eq!(info.uploaded, 42);
    let list = chapter_entries(vec![row(Some(" 1970-01-01T00:01:00Z ")), row(None), row(None)]);
    assert_eq!(list[0].uploaded, 60);
    let numbers: Vec<usize> = list
        .iter()
        .map(|c| match c.number {
            ChapterNumber::Ordinal(n) => n,
            _ => 0,
        })
        .collect();
    assert_eq!(numbers, vec![3, 2, 1]);
    assert!(list.iter().all(|c| c.path.starts_with("/chapters/")));
}

#[test]
fn upload_times_need_a_zone() {
    assert_eq!(parse_upload_timestamp("2024-01-02T03:04:05Z"), 1704164645);
    assert_eq!(parse_upload_timestamp("2024-01-02T03:04:05+01:00"), 1704161045);
    assert_eq!(parse_upload_timestamp("2024-01-02T03:04:05"), 0);
    assert_eq!(parse_upload_timestamp(""), 0);
}

#[test]
fn pages_are_read() {
    let body = r#"<section class="w-full pb-4 cursor-pointer"><img class="mx-auto" src="https://a/1.png"><img class="mx-auto"><img src="https://a/no.png"></section>"#;
    assert_eq!(get_pages(body).unwrap(), vec!["https://a/1.png", ""]);
    assert_eq!(
        page_entries(vec![None, Some("x".to_string())]),
        vec!["", "x"]
    );
}

#[test]
fn addresses() {
    let popular = "https://weebcentral.com/search/data?limit=32&author=&text=&sort=Popularity&order=Descending&official=Any&anime=Any&adult=Any&display_mode=Full%20Display&offset=";
    assert_eq!(popular_url(1), Some(format!("{}0", popular)));
    assert_eq!(popular_url(2), Some(format!("{}32", popular)));
    assert_eq!(popular_url(-5), Some(format!("{}0", popular)));
    assert_eq!(
        latest_url(3).unwrap(),
        "https://weebcentral.com/search/data?limit=32&sort=Latest+Updates&order=Descending&official=Any&anime=Any&adult=Any&display_mode=Full+Display&offset=64"
    );
    assert_eq!(
        search_url(1, Some("plan et&s".to_string())).unwrap(),
        "https://weebcentral.com/search/data?author=&text=plan%20et%26s&sort=Latest%20Updates&order=Descending&official=Any&anime=Any&adult=Any&display_mode=Full%20Display&offset=0"
    );
    assert_eq!(
        search_url(1, None).unwrap(),
        "https://weebcentral.com/search/data?author=&text=&sort=Latest%20Updates&order=Descending&official=Any&anime=Any&adult=Any&display_mode=Full%20Display&offset=0"
    );
    assert_eq!(list_url(11, "/x?"), "https://weebcentral.com/x?320");
    // The last page whose offset is a number of 64 bits.
    assert_eq!(
        list_url(288230376151711744, "/"),
        "https://weebcentral.com/9223372036854775776"
    );
    assert_eq!(
        try_list_url(288230376151711744, "/").unwrap(),
        "https://weebcentral.com/9223372036854775776"
    );
    assert_eq!(try_list_url(288230376151711745, "/"), None);
    assert_eq!(popular_url(i64::MAX), None);
    assert_eq!(latest_url(i64::MAX), None);
    assert_eq!(search_url(i64::MAX, None), None);
    assert!(search_url(i64::MIN, None).is_some());
    assert_eq!(detail_url("/series/ID"), "https://weebcentral.com/series/ID");
    assert_eq!(
        chapters_url("/series/ID"),
        "https://weebcentral.com/series/ID/full-chapter-list"
    );
    assert_eq!(
        pages_url("/chapters/ID"),
        "https://weebcentral.com/chapters/ID/images?is_prev=False&current_page=1&reading_style=single_page"
    );
}

#[test]
fn pages_differ_in_their_addresses() {
    assert_ne!(latest_url(1), latest_url(2));
    assert_eq!(latest_url(0), latest_url(1));
}

#[test]
fn sources_tell_of_themselves() {
    let info = get_source_info();
    assert_eq!(
        (info.id, info.name, info.url, info.icon, info.language, info.nsfw),
        (
            28,
            "WeebCentral",
            "https://weebcentral.com",
            "https://weebcentral.com/static/images/144.png",
            "en",
            false
        )
    );
    let info = manga_sources::mangalife::get_source_info();
    assert_eq!(
        (info.id, info.name, info.url, info.icon, info.language, info.nsfw),
        (
            4,
            "MangaLife",
            "https://weebcentral.com",
            "https://manga4life.com/media/favicon.png",
            "en",
            false
        )
    );
}

#[test]
fn queries_differ_in_their_addresses() {
    let url = |query: &str| search_url(1, Some(query.to_string()));
    assert_ne!(url("a b"), url("a+b"));
    assert_ne!(url("a b"), url("a%20b"));
    assert_ne!(url("é"), url("e"));
}

#[test]
fn missing_times_are_the_epoch() {
    assert_eq!(manga_sources::dates::time_or_epoch(None), 0);
    assert_eq!(manga_sources::dates::time_or_epoch(Some(-5)), -5);
}

#[test]
fn pages_of_ordinary_size_are_read() {
    assert_eq!(try_get_manga_list(LIST).unwrap().len(), 2);
    assert_eq!(
        try_get_manga_detail("/p".to_string(), DETAIL).unwrap().title,
        "Planetes"
    );
    assert_eq!(try_get_chapters(CHAPTERS).unwrap().len(), 2);
    assert!(try_get_pages("").unwrap().is_empty());
}

#[test]
fn listed_series_are_of_this_source() {
    for info in get_manga_list(LIST).unwrap() {
        assert_eq!(info.source_id, 28);
        assert!(info.path.starts_with("/series/"));
    }
}
