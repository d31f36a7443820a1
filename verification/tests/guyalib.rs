use manga_sources::error::Error;
use manga_sources::guyalib::{
    chapter_place, ensure_non_empty, first_group_key, get, get_chapters, get_manga_detail,
    get_manga_list, get_pages, list_url, page_url, series_url, Chapter, Detail, Series,
};
use manga_sources::models::ChapterNumber;

const URL: &str = "https://guya.example";

fn detail(slug: &str) -> Detail {
    Detail {
        author: "author".to_string(),
        artist: "artist".to_string(),
        description: "description".to_string(),
        slug: slug.to_string(),
        cover: "/media/cover.png".to_string(),
    }
}

fn rows(titles: &[&str]) -> Vec<(String, Detail)> {
    titles.iter().map(|t| (t.to_string(), detail(t))).collect()
}

fn titles(rows: Vec<(String, Detail)>) -> Vec<String> {
    let list = get_manga_list(URL, 1, "{...}", rows).unwrap();
    list.into_iter().map(|m| m.title).collect()
}

fn groups(keys: &[(&str, &[&str])]) -> Vec<(String, Vec<String>)> {
    keys.iter()
        .map(|(k, pages)| (k.to_string(), pages.iter().map(|p| p.to_string()).collect()))
        .collect()
}

fn chapter(folder: &str, keys: &[(&str, &[&str])], dates: &[(&str, i64)]) -> Chapter {
    Chapter {
        title: format!("title of {}", folder),
        folder: folder.to_string(),
        groups: groups(keys),
        release_date: dates.iter().map(|(k, d)| (k.to_string(), *d)).collect(),
    }
}

fn series() -> Series {
    Series {
        slug: "slug".to_string(),
        title: "Title".to_string(),
        author: "author".to_string(),
        artist: "artist".to_string(),
        description: "description".to_string(),
        cover: "/media/cover.png".to_string(),
        groups: vec![
            ("10".to_string(), "Ten".to_string()),
            ("9".to_string(), "Nine".to_string()),
        ],
        chapters: vec![
            (
                "1".to_string(),
                chapter(
                    "0001",
                    &[("9", &["a.png"]), ("10", &["b.png", "c.png"])],
                    &[("9", 90), ("10", 100)],
                ),
            ),
            ("2".to_string(), chapter("0002", &[], &[])),
            ("3-5".to_string(), chapter("0003", &[("7", &[])], &[("9", 90)])),
        ],
    }
}

#[test]
fn list_is_sorted_by_title() {
    assert_eq!(
        titles(rows(&["b", "a", "B", "", "ab", "é"])),
        vec!["", "B", "a", "ab", "b", "é"]
    );
}

#[test]
fn list_does_not_depend_on_the_order_of_its_rows() {
    let sorted = titles(rows(&["x", "y", "z"]));
    assert_eq!(titles(rows(&["z", "x", "y"])), sorted);
    assert_eq!(titles(rows(&["y", "z", "x"])), sorted);
}

#[test]
fn list_entries_hold_what_the_reader_sent() {
    let list = get_manga_list(URL, 5, "{}", rows(&["one"])).unwrap();
    assert_eq!(list.len(), 1);
    assert_eq!(list[0].source_id, 5);
    assert_eq!(list[0].author, vec!["author", "artist"]);
    assert!(list[0].genre.is_empty());
    assert_eq!(list[0].status.as_deref(), Some("Ongoing"));
    assert_eq!(list[0].description.as_deref(), Some("description"));
    assert_eq!(list[0].path, "/api/series/one");
    assert_eq!(list[0].cover_url, "https://guya.example/media/cover.png");
}

#[test]
fn empty_lists_are_an_error_unless_nothing_was_sent() {
    let error = get_manga_list(URL, 5, "{}", vec![]).unwrap_err();
    assert_eq!(
        error.message(),
        "parsed 0 items from https://guya.example/api/get_all_series — markup change?"
    );
    assert!(get_manga_list(URL, 5, " \n\t", vec![]).unwrap().is_empty());
    assert_eq!(
        ensure_non_empty("x", "u", vec!["item".to_string()]).unwrap(),
        vec!["item".to_string()]
    );
    let mut none = series();
    none.chapters.clear();
    let error = get_chapters(URL, "/api/series/slug", 5, "{}", &none).unwrap_err();
    assert!(matches!(error, Error::NoItems(_)));
    assert_eq!(
        error.message(),
        "parsed 0 items from https://guya.example/api/series/slug — markup change?"
    );
}

#[test]
fn least_group_comes_first() {
    let some_groups = groups(&[("9", &[]), ("10", &[]), ("2", &[])]);
    assert_eq!(first_group_key(&some_groups), Some("10"));
    assert_eq!(first_group_key(&groups(&[("b", &[]), ("ab", &[]), ("a", &[])])), Some("a"));
    assert_eq!(first_group_key(&groups(&[])), None);
}

#[test]
fn tables_give_back_their_rows() {
    let table = vec![("a".to_string(), 1), ("b".to_string(), 2)];
    assert_eq!(get(&table, "a"), Some(&1));
    assert_eq!(get(&table, "b"), Some(&2));
    assert_eq!(get(&table, "c"), None);
}

#[test]
fn series_tells_of_itself() {
    let info = get_manga_detail(URL, "/api/series/slug", 5, &series());
    assert_eq!(info.title, "Title");
    assert_eq!(info.author, vec!["author", "artist"]);
    assert_eq!(info.status.as_deref(), Some("Ongoing"));
    assert_eq!(info.description.as_deref(), Some("description"));
    assert_eq!(info.path, "/api/series/slug");
    assert_eq!(info.cover_url, "https://guya.example/media/cover.png");
    assert_eq!(info.source_id, 5);
}

#[test]
fn chapters_name_their_least_group() {
    let chapters = get_chapters(URL, "/api/series/slug//", 5, "{...}", &series()).unwrap();
    assert_eq!(chapters.len(), 3);
    assert_eq!(chapters[0].title, "title of 0001");
    assert_eq!(chapters[0].path, "/api/series/slug/1");
    assert_eq!(chapters[0].scanlator.as_deref(), Some("Ten"));
    assert_eq!(chapters[0].uploaded, 100);
    match &chapters[0].number {
        ChapterNumber::Written(number) => assert_eq!(number, "1"),
        other => panic!("{:?}", other),
    }
    assert_eq!(chapters[1].scanlator, None);
    assert_eq!(chapters[1].uploaded, 0);
    // The group of the last has no name and no date.
    assert_eq!(chapters[2].path, "/api/series/slug/3-5");
    assert_eq!(chapters[2].scanlator, None);
    assert_eq!(chapters[2].uploaded, 0);
}

#[test]
fn pages_of_the_least_group() {
    assert_eq!(
        get_pages(URL, "/api/series/slug/1/", &series()).unwrap(),
        vec![
            "https://guya.example/media/manga/slug/chapters/0001/10/b.png",
            "https://guya.example/media/manga/slug/chapters/0001/10/c.png"
        ]
    );
    assert_eq!(page_url("u", "s", "f", "g", "p"), "u/media/manga/s/chapters/f/g/p");
}

#[test]
fn missing_pages_are_told_apart() {
    let message = |path: &str| get_pages(URL, path, &series()).unwrap_err().message();
    assert_eq!(message("chapter//"), "invalid Guya chapter path: chapter");
    assert_eq!(
        message("/api/series/slug/9"),
        "chapter 9 not found in series /api/series/slug"
    );
    assert_eq!(message("/api/series/slug/2"), "chapter 2 has no scanlation groups");
    assert_eq!(
        message("/api/series/slug/3-5"),
        "chapter 3-5 has no pages for scanlation group 7"
    );
}

#[test]
fn listed_chapters_lead_back() {
    let series = series();
    let chapters = get_chapters(URL, "/api/series/slug/", 5, "{...}", &series).unwrap();
    for (info, (number, _)) in chapters.iter().zip(series.chapters.iter()) {
        let (path, found) = chapter_place(&info.path).unwrap();
        assert_eq!(path, "/api/series/slug");
        assert_eq!(&found, number);
    }
    assert!(chapter_place("").is_err());
    assert_eq!(
        chapter_place("/1").unwrap(),
        ("".to_string(), "1".to_string())
    );
}

#[test]
fn reader_addresses() {
    assert_eq!(list_url(URL), "https://guya.example/api/get_all_series");
    assert_eq!(
        series_url(URL, "/api/series/slug"),
        "https://guya.example/api/series/slug"
    );
}
