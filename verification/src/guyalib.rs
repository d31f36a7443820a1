//! Readers that run the Guya software: their list of series, a series, its chapters and pages.
//!
//! The tables that a reader sends have no order and no key twice. Here such a table is a list of
//! pairs, in whatever order its rows came.
use crate::error::{listing, Error, ErrorView};
use crate::models::{
    ChapterInfo, ChapterInfoView, ChapterNumber, ChapterNumberView, MangaInfo, MangaInfoView,
};
use crate::text::{
    concat, is_blank, is_white_space, last_at, law_split_last, law_trimmed_keeps,
    lemma_not_after_antisymmetric, lemma_not_after_total, lemma_not_after_transitive,
    lemma_push_step, not_after, rsplit_once, same_text, split_last, text_not_after, trim_end_char,
    trim_end_matches, trimmed, view_opt, views,
};
use vstd::prelude::*;

verus! {

// ---------------------------------------------------------------------------
// Tables
// ---------------------------------------------------------------------------

/// The keys of a table.
pub open spec fn keys<T>(table: Seq<(String, T)>) -> Seq<Seq<char>> {
    table.map_values(|row: (String, T)| row.0@)
}

/// Whether no key occurs twice.
pub open spec fn distinct<T>(table: Seq<(String, T)>) -> bool {
    keys(table).no_duplicates()
}

/// What a table holds under a key.
pub open spec fn lookup<T>(table: Seq<(String, T)>, key: Seq<char>) -> Option<T>
    decreases table.len(),
{
    if table.len() == 0 {
        None
    } else if table[0].0@ == key {
        Some(table[0].1)
    } else {
        lookup(table.drop_first(), key)
    }
}

/// What a table holds under a key.
pub fn get<'a, T>(table: &'a Vec<(String, T)>, key: &str) -> (value: Option<&'a T>)
    ensures
        match value {
            Some(v) => lookup(table@, key@) == Some(*v),
            None => lookup(table@, key@) is None,
        },
{
    let mut i: usize = 0;
    assert(table@.skip(0) =~= table@);
    while i < table.len()
        invariant
            i <= table@.len(),
            lookup(table@, key@) == lookup(table@.skip(i as int), key@),
        decreases table@.len() - i,
    {
        if same_text(table[i].0.as_str(), key) {
            return Some(&table[i].1);
        }
        assert(table@.skip(i as int).drop_first() =~= table@.skip(i + 1));
        i += 1;
    }
    None
}

/// A table gives back what stands in any of its rows.
pub proof fn law_row_is_found<T>(table: Seq<(String, T)>, i: int)
    requires
        distinct(table),
        0 <= i < table.len(),
    ensures
        lookup(table, table[i].0@) == Some(table[i].1),
    decreases table.len(),
{
    if i > 0 {
        assert(keys(table)[0] == table[0].0@ && keys(table)[i] == table[i].0@);
        let rest = table.drop_first();
        assert forall|a: int, b: int|
            0 <= a < rest.len() && 0 <= b < rest.len() && a != b implies keys(rest)[a] != keys(
            rest,
        )[b] by {
            assert(keys(rest)[a] == keys(table)[a + 1]);
            assert(keys(rest)[b] == keys(table)[b + 1]);
        }
        law_row_is_found(rest, i - 1);
        assert(rest[i - 1] == table[i]);
    }
}

/// The least of some texts.
pub open spec fn least(list: Seq<Seq<char>>) -> Option<Seq<char>>
    decreases list.len(),
{
    if list.len() == 0 {
        None
    } else {
        match least(list.drop_last()) {
            Some(key) if not_after(key, list.last()) => Some(key),
            _ => Some(list.last()),
        }
    }
}

/// The key of the group whose pages are shown: the least.
pub fn first_group_key(groups: &Vec<(String, Vec<String>)>) -> (key: Option<&str>)
    ensures
        match key {
            Some(k) => least(keys(groups@)) == Some(k@),
            None => least(keys(groups@)) is None,
        },
{
    if groups.len() == 0 {
        return None;
    }
    let mut best: usize = 0;
    let mut i: usize = 1;
    proof {
        let start = keys(groups@).take(1);
        assert(start.drop_last() =~= Seq::empty());
        assert(least(start.drop_last()) is None);
        assert(start.last() == groups@[0].0@);
    }
    while i < groups.len()
        invariant
            best < i <= groups@.len(),
            least(keys(groups@).take(i as int)) == Some(groups@[best as int].0@),
        decreases groups@.len() - i,
    {
        let ghost next = keys(groups@).take(i + 1);
        assert(next.drop_last() =~= keys(groups@).take(i as int));
        assert(next.last() == groups@[i as int].0@);
        if !text_not_after(groups[best].0.as_str(), groups[i].0.as_str()) {
            best = i;
        }
        i += 1;
    }
    assert(keys(groups@).take(i as int) =~= keys(groups@));
    Some(groups[best].0.as_str())
}

/// The least of some texts is one of them, and none of them stands before it.
pub proof fn law_least(list: Seq<Seq<char>>)
    ensures
        match least(list) {
            Some(key) => {
                &&& list.contains(key)
                &&& forall|i: int| 0 <= i < list.len() ==> not_after(key, #[trigger] list[i])
            },
            None => list.len() == 0,
        },
    decreases list.len(),
{
    if list.len() > 0 {
        let front = list.drop_last();
        law_least(front);
        let key = least(list)->0;
        assert(list[list.len() - 1] == list.last());
        assert forall|i: int| 0 <= i < list.len() implies not_after(key, #[trigger] list[i]) by {
            if i < front.len() {
                assert(list[i] == front[i]);
                let before = least(front)->0;
                if key != before {
                    lemma_not_after_total(before, key);
                    lemma_not_after_transitive(key, before, front[i]);
                }
            } else {
                lemma_not_after_total(list.last(), list.last());
            }
        }
        if key != list.last() {
            let at = choose|at: int| 0 <= at < front.len() && front[at] == key;
            assert(list[at] == key);
        }
    }
}

/// Which group is shown does not depend on the order of the rows: tables with the same keys have
/// the same least key.
pub proof fn law_least_ignores_order(a: Seq<Seq<char>>, b: Seq<Seq<char>>)
    requires
        forall|key: Seq<char>| a.contains(key) <==> b.contains(key),
    ensures
        least(a) == least(b),
{
    law_least(a);
    law_least(b);
    match (least(a), least(b)) {
        (Some(x), Some(y)) => {
            assert(b.contains(x) && a.contains(y));
            let i = choose|i: int| 0 <= i < b.len() && b[i] == x;
            let j = choose|j: int| 0 <= j < a.len() && a[j] == y;
            assert(not_after(y, b[i]) && not_after(x, a[j]));
            lemma_not_after_antisymmetric(x, y);
        },
        (Some(x), None) => {
            assert(b.contains(x));
        },
        (None, Some(y)) => {
            assert(a.contains(y));
        },
        (None, None) => {},
    }
}

// ---------------------------------------------------------------------------
// What a reader sends
// ---------------------------------------------------------------------------

/// What the list of series tells of one of them.
#[derive(Debug, Clone)]
pub struct Detail {
    pub author: String,
    pub artist: String,
    pub description: String,
    pub slug: String,
    pub cover: String,
}

/// A series. `groups` holds the names of the groups that publish it, `chapters` its chapters by
/// their numbers.
#[derive(Debug, Clone)]
pub struct Series {
    pub slug: String,
    pub title: String,
    pub author: String,
    pub artist: String,
    pub description: String,
    pub cover: String,
    pub groups: Vec<(String, String)>,
    pub chapters: Vec<(String, Chapter)>,
}

/// A chapter. `groups` holds the pages of each group that has published it, `release_date` the
/// Unix time at which it did.
#[derive(Debug, Clone)]
pub struct Chapter {
    pub title: String,
    pub folder: String,
    pub groups: Vec<(String, Vec<String>)>,
    pub release_date: Vec<(String, i64)>,
}

impl Series {
    /// Whether no table of the series holds a key twice.
    pub open spec fn well_formed(self) -> bool {
        &&& distinct(self.groups@)
        &&& distinct(self.chapters@)
        &&& forall|i: int|
            0 <= i < self.chapters@.len() ==> distinct((#[trigger] self.chapters@[i]).1.groups@)
        &&& forall|i: int|
            0 <= i < self.chapters@.len() ==> distinct(
                (#[trigger] self.chapters@[i]).1.release_date@,
            )
    }
}

/// A list made from what a reader sent. A list with nothing in it is an error unless nothing was
/// sent.
pub open spec fn non_empty<T>(body: Seq<char>, url: Seq<char>, items: Seq<T>) -> Result<
    Seq<T>,
    ErrorView,
> {
    if trimmed(body).len() > 0 && items.len() == 0 {
        Err(ErrorView::NoItems(url))
    } else {
        Ok(items)
    }
}

/// Passes a list on, unless it is empty although something was sent.
pub fn ensure_non_empty<T: View>(body: &str, url: &str, items: Vec<T>) -> (result: Result<
    Vec<T>,
    Error,
>)
    ensures
        listing(result) == non_empty(body@, url@, views(items@)),
        result matches Ok(list) ==> list == items,
{
    if !is_blank(body) && items.len() == 0 {
        return Err(Error::NoItems(url.to_owned()));
    }
    Ok(items)
}

// ---------------------------------------------------------------------------
// The list of series
// ---------------------------------------------------------------------------

/// Where a reader at `url` lists its series.
pub open spec fn list_address(url: Seq<char>) -> Seq<char> {
    url + "/api/get_all_series"@
}

/// Where a reader at `url` lists its series.
pub fn list_url(url: &str) -> (address: String)
    ensures
        address@ == list_address(url@),
{
    concat(url, "/api/get_all_series")
}

/// A row of the list of series, under its title.
pub open spec fn entry(url: Seq<char>, source_id: i64, row: (String, Detail)) -> MangaInfoView {
    MangaInfoView {
        source_id,
        title: row.0@,
        author: seq![row.1.author@, row.1.artist@],
        genre: Seq::empty(),
        status: Some("Ongoing"@),
        description: Some(row.1.description@),
        path: "/api/series/"@ + row.1.slug@,
        cover_url: url + row.1.cover@,
    }
}

/// The rows of the list of series.
pub open spec fn entries(url: Seq<char>, source_id: i64, rows: Seq<(String, Detail)>) -> Seq<
    MangaInfoView,
> {
    rows.map_values(|row: (String, Detail)| entry(url, source_id, row))
}

/// Reads a row of the list of series.
pub fn list_entry(url: &str, source_id: i64, row: (String, Detail)) -> (info: MangaInfo)
    ensures
        info@ == entry(url@, source_id, row),
{
    let (title, detail) = row;
    let path = concat("/api/series/", detail.slug.as_str());
    let cover_url = concat(url, detail.cover.as_str());
    let mut author: Vec<String> = Vec::new();
    author.push(detail.author);
    author.push(detail.artist);
    let genre: Vec<String> = Vec::new();
    assert(views(author@) =~= seq![detail.author@, detail.artist@]);
    assert(views(genre@) =~= Seq::empty());
    MangaInfo {
        source_id,
        title,
        author,
        genre,
        status: Some("Ongoing".to_owned()),
        description: Some(detail.description),
        path,
        cover_url,
    }
}

/// A sorted list with one more series: behind those whose title does not stand after its own.
pub open spec fn inserted(list: Seq<MangaInfoView>, item: MangaInfoView) -> Seq<MangaInfoView>
    decreases list.len(),
{
    if list.len() == 0 || not_after(list.last().title, item.title) {
        list.push(item)
    } else {
        inserted(list.drop_last(), item).push(list.last())
    }
}

/// Series in the order of their titles; those with the same title as they came.
pub open spec fn sorted(list: Seq<MangaInfoView>) -> Seq<MangaInfoView>
    decreases list.len(),
{
    if list.len() == 0 {
        Seq::empty()
    } else {
        inserted(sorted(list.drop_last()), list.last())
    }
}

proof fn lemma_inserted_at(list: Seq<MangaInfoView>, item: MangaInfoView, at: int)
    requires
        0 <= at <= list.len(),
        at > 0 ==> not_after(list[at - 1].title, item.title),
        forall|i: int| at <= i < list.len() ==> !not_after((#[trigger] list[i]).title, item.title),
    ensures
        inserted(list, item) == list.insert(at, item),
    decreases list.len(),
{
    if at < list.len() {
        assert(!not_after(list[list.len() - 1].title, item.title));
        let front = list.drop_last();
        assert forall|i: int| at <= i < front.len() implies !not_after(
            (#[trigger] front[i]).title,
            item.title,
        ) by {
            assert(front[i] == list[i]);
        }
        lemma_inserted_at(front, item, at);
        assert(front.insert(at, item).push(list.last()) =~= list.insert(at, item));
    } else {
        assert(list.push(item) =~= list.insert(at, item));
    }
}

/// Adds a series to a sorted list.
fn insert_sorted(list: &mut Vec<MangaInfo>, item: MangaInfo)
    ensures
        views(final(list)@) == inserted(views(old(list)@), item@),
{
    let ghost before = views(list@);
    let mut at: usize = list.len();
    while at > 0 && !text_not_after(list[at - 1].title.as_str(), item.title.as_str())
        invariant
            at <= list@.len(),
            before == views(list@),
            *list == *old(list),
            forall|i: int|
                at <= i < before.len() ==> !not_after((#[trigger] before[i]).title, item@.title),
        decreases at,
    {
        assert(before[at - 1] == list@[at - 1]@);
        at -= 1;
    }
    proof {
        if at > 0 {
            assert(before[at - 1] == list@[at - 1]@);
        }
        lemma_inserted_at(before, item@, at as int);
    }
    list.insert(at, item);
    assert(views(list@) =~= before.insert(at as int, item@));
}

/// Reads the list of series, in the order of their titles. `body` is what the reader sent,
/// `results` the table in it.
pub fn get_manga_list(
    url: &str,
    source_id: i64,
    body: &str,
    results: Vec<(String, Detail)>,
) -> (result: Result<Vec<MangaInfo>, Error>)
    ensures
        listing(result) == non_empty(
            body@,
            list_address(url@),
            sorted(entries(url@, source_id, results@)),
        ),
{
    let ghost all = entries(url@, source_id, results@);
    let mut manga: Vec<MangaInfo> = Vec::new();
    proof {
        assert(views(manga@) =~= Seq::empty());
        assert(all.take(0) =~= Seq::empty());
    }
    for row in rows: results.into_iter()
        invariant
            rows.seq() == results@,
            all == entries(url@, source_id, results@),
            views(manga@) == sorted(all.take(rows.index() as int)),
    {
        let ghost now = all.take(rows.index() + 1);
        assert(now.drop_last() =~= all.take(rows.index() as int));
        assert(now.last() == entry(url@, source_id, row));
        let item = list_entry(url, source_id, row);
        insert_sorted(&mut manga, item);
    }
    assert(all.take(results@.len() as int) =~= all);
    let request_url = list_url(url);
    ensure_non_empty(body, request_url.as_str(), manga)
}

// ---------------------------------------------------------------------------
// A series and its chapters
// ---------------------------------------------------------------------------

/// Where the reader at `url` tells of the series at `path`.
pub fn series_url(url: &str, path: &str) -> (address: String)
    ensures
        address@ == url@ + path@,
{
    concat(url, path)
}

/// What a series tells of itself.
pub open spec fn details(
    url: Seq<char>,
    path: Seq<char>,
    source_id: i64,
    series: Series,
) -> MangaInfoView {
    MangaInfoView {
        source_id,
        title: series.title@,
        author: seq![series.author@, series.artist@],
        genre: Seq::empty(),
        status: Some("Ongoing"@),
        description: Some(series.description@),
        path,
        cover_url: url + series.cover@,
    }
}

/// Reads what a series tells of itself.
pub fn get_manga_detail(url: &str, path: &str, source_id: i64, series: &Series) -> (info: MangaInfo)
    ensures
        info@ == details(url@, path@, source_id, *series),
{
    let mut author: Vec<String> = Vec::new();
    author.push(series.author.clone());
    author.push(series.artist.clone());
    let genre: Vec<String> = Vec::new();
    assert(views(author@) =~= seq![series.author@, series.artist@]);
    assert(views(genre@) =~= Seq::empty());
    MangaInfo {
        source_id,
        title: series.title.clone(),
        author,
        genre,
        status: Some("Ongoing".to_owned()),
        description: Some(series.description.clone()),
        path: path.to_owned(),
        cover_url: concat(url, series.cover.as_str()),
    }
}

/// The path of the chapter with this number in the series at `path`.
pub open spec fn chapter_path(path: Seq<char>, number: Seq<char>) -> Seq<char> {
    trim_end_char(path, '/') + "/"@ + number
}

/// Who published a chapter: the group whose pages are shown.
pub open spec fn scanlator(groups: Seq<(String, String)>, chapter: Chapter) -> Option<Seq<char>> {
    match least(keys(chapter.groups@)) {
        Some(group) => view_opt(lookup(groups, group)),
        None => None,
    }
}

/// When a chapter was published by the group whose pages are shown.
pub open spec fn uploaded(chapter: Chapter) -> i64 {
    match least(keys(chapter.groups@)) {
        Some(group) => match lookup(chapter.release_date@, group) {
            Some(time) => time,
            None => 0,
        },
        None => 0,
    }
}

/// A row of the table of chapters.
pub open spec fn chapter_info(
    path: Seq<char>,
    source_id: i64,
    groups: Seq<(String, String)>,
    row: (String, Chapter),
) -> ChapterInfoView {
    ChapterInfoView {
        source_id,
        title: row.1.title@,
        path: chapter_path(path, row.0@),
        number: ChapterNumberView::Written(row.0@),
        scanlator: scanlator(groups, row.1),
        uploaded: uploaded(row.1),
    }
}

/// The rows of the table of chapters.
pub open spec fn chapter_infos(path: Seq<char>, source_id: i64, series: Series) -> Seq<
    ChapterInfoView,
> {
    series.chapters@.map_values(
        |row: (String, Chapter)| chapter_info(path, source_id, series.groups@, row),
    )
}

/// Reads a row of the table of chapters.
pub fn read_chapter(
    path: &str,
    source_id: i64,
    groups: &Vec<(String, String)>,
    row: &(String, Chapter),
) -> (info: ChapterInfo)
    ensures
        info@ == chapter_info(path@, source_id, groups@, *row),
{
    let (number, chapter) = row;
    let mut scanlator: Option<String> = None;
    let mut uploaded: i64 = 0;
    if let Some(group) = first_group_key(&chapter.groups) {
        if let Some(name) = get(groups, group) {
            scanlator = Some(name.clone());
        }
        if let Some(time) = get(&chapter.release_date, group) {
            uploaded = *time;
        }
    }
    let mut chapter_path = trim_end_matches(path, '/');
    chapter_path.append("/");
    chapter_path.append(number.as_str());
    ChapterInfo {
        source_id,
        title: chapter.title.clone(),
        path: chapter_path,
        number: ChapterNumber::Written(number.clone()),
        scanlator,
        uploaded,
    }
}

/// Reads the chapters of a series, as they came. `body` is what the reader sent, `series` what it
/// holds.
pub fn get_chapters(url: &str, path: &str, source_id: i64, body: &str, series: &Series) -> (result:
    Result<Vec<ChapterInfo>, Error>)
    ensures
        listing(result) == non_empty(
            body@,
            url@ + path@,
            chapter_infos(path@, source_id, *series),
        ),
{
    let ghost all = chapter_infos(path@, source_id, *series);
    let mut chapters: Vec<ChapterInfo> = Vec::new();
    let mut i: usize = 0;
    assert(views(chapters@) =~= all.take(0));
    while i < series.chapters.len()
        invariant
            i <= series.chapters@.len(),
            all == chapter_infos(path@, source_id, *series),
            views(chapters@) == all.take(i as int),
        decreases series.chapters@.len() - i,
    {
        let info = read_chapter(path, source_id, &series.groups, &series.chapters[i]);
        proof {
            lemma_push_step(chapters@, info, all, i as int);
        }
        chapters.push(info);
        i += 1;
    }
    assert(all.take(i as int) =~= all);
    let request_url = concat(url, path);
    ensure_non_empty(body, request_url.as_str(), chapters)
}

// ---------------------------------------------------------------------------
// The pages of a chapter
// ---------------------------------------------------------------------------

/// The path of the series and the number of the chapter in the path of a chapter.
pub open spec fn place(path: Seq<char>) -> Result<(Seq<char>, Seq<char>), ErrorView> {
    match split_last(trim_end_char(path, '/'), '/') {
        Some(parts) => Ok(parts),
        None => Err(ErrorView::InvalidChapterPath(trim_end_char(path, '/'))),
    }
}

/// What a place stands for.
pub open spec fn place_view(result: Result<(String, String), Error>) -> Result<
    (Seq<char>, Seq<char>),
    ErrorView,
> {
    match result {
        Ok((series_path, number)) => Ok((series_path@, number@)),
        Err(error) => Err(error@),
    }
}

/// Splits the path of a chapter into the path of the series and the number of the chapter.
pub fn chapter_place(path: &str) -> (result: Result<(String, String), Error>)
    ensures
        place_view(result) == place(path@),
{
    let path = trim_end_matches(path, '/');
    match rsplit_once(path.as_str(), '/') {
        Some(parts) => Ok(parts),
        None => Err(Error::InvalidChapterPath(path)),
    }
}

/// The address of a page.
pub open spec fn page_address(
    url: Seq<char>,
    slug: Seq<char>,
    folder: Seq<char>,
    group: Seq<char>,
    page: Seq<char>,
) -> Seq<char> {
    url + "/media/manga/"@ + slug + "/chapters/"@ + folder + "/"@ + group + "/"@ + page
}

/// The address of a page.
pub fn page_url(url: &str, slug: &str, folder: &str, group: &str, page: &str) -> (address: String)
    ensures
        address@ == page_address(url@, slug@, folder@, group@, page@),
{
    let mut address = url.to_owned();
    address.append("/media/manga/");
    address.append(slug);
    address.append("/chapters/");
    address.append(folder);
    address.append("/");
    address.append(group);
    address.append("/");
    address.append(page);
    address
}

/// The addresses of the pages of a chapter.
pub open spec fn chapter_pages(
    url: Seq<char>,
    series_path: Seq<char>,
    number: Seq<char>,
    series: Series,
) -> Result<Seq<Seq<char>>, ErrorView> {
    match lookup(series.chapters@, number) {
        None => Err(ErrorView::ChapterNotFound(number, series_path)),
        Some(chapter) => match least(keys(chapter.groups@)) {
            None => Err(ErrorView::NoGroups(number)),
            Some(group) => match lookup(chapter.groups@, group) {
                Some(pages) if pages@.len() > 0 => Ok(
                    views(pages@).map_values(
                        |page: Seq<char>|
                            page_address(url, series.slug@, chapter.folder@, group, page),
                    ),
                ),
                _ => Err(ErrorView::NoPages(number, group)),
            },
        },
    }
}

/// The addresses of the pages of the chapter at `path`.
pub open spec fn pages(url: Seq<char>, path: Seq<char>, series: Series) -> Result<
    Seq<Seq<char>>,
    ErrorView,
> {
    match place(path) {
        Ok((series_path, number)) => chapter_pages(url, series_path, number, series),
        Err(error) => Err(error),
    }
}

/// Reads the addresses of the pages of the chapter at `path`, from the series that it belongs to.
pub fn get_pages(url: &str, path: &str, series: &Series) -> (result: Result<Vec<String>, Error>)
    ensures
        listing(result) == pages(url@, path@, *series),
{
    let (series_path, number) = match chapter_place(path) {
        Ok(parts) => parts,
        Err(error) => return Err(error),
    };
    let chapter = match get(&series.chapters, number.as_str()) {
        Some(chapter) => chapter,
        None => return Err(Error::ChapterNotFound(number, series_path)),
    };
    let group = match first_group_key(&chapter.groups) {
        Some(group) => group,
        None => return Err(Error::NoGroups(number)),
    };
    let files = match get(&chapter.groups, group) {
        Some(files) => files,
        None => return Err(Error::NoPages(number, group.to_owned())),
    };
    if files.len() == 0 {
        return Err(Error::NoPages(number, group.to_owned()));
    }
    let ghost address = |page: Seq<char>|
        page_address(url@, series.slug@, chapter.folder@, group@, page);
    let ghost all = views(files@).map_values(address);
    let mut list: Vec<String> = Vec::new();
    let mut i: usize = 0;
    assert(views(list@) =~= all.take(0));
    while i < files.len()
        invariant
            i <= files@.len(),
            address == (|page: Seq<char>|
                page_address(url@, series.slug@, chapter.folder@, group@, page)),
            all == views(files@).map_values(address),
            views(list@) == all.take(i as int),
        decreases files@.len() - i,
    {
        let page = page_url(
            url,
            series.slug.as_str(),
            chapter.folder.as_str(),
            group,
            files[i].as_str(),
        );
        proof {
            lemma_push_step(list@, page, all, i as int);
        }
        list.push(page);
        i += 1;
    }
    assert(all.take(i as int) =~= all);
    Ok(list)
}

// ---------------------------------------------------------------------------
// Laws
// ---------------------------------------------------------------------------

/// Whether series stand in the order of their titles.
pub open spec fn ordered(list: Seq<MangaInfoView>) -> bool {
    forall|i: int, j: int|
        0 <= i <= j < list.len() ==> not_after(#[trigger] list[i].title, #[trigger] list[j].title)
}

proof fn lemma_insertion_point(list: Seq<MangaInfoView>, item: MangaInfoView) -> (at: int)
    ensures
        0 <= at <= list.len(),
        at > 0 ==> not_after(list[at - 1].title, item.title),
        forall|i: int| at <= i < list.len() ==> !not_after((#[trigger] list[i]).title, item.title),
        inserted(list, item) == list.insert(at, item),
    decreases list.len(),
{
    let at = if list.len() == 0 || not_after(list.last().title, item.title) {
        list.len() as int
    } else {
        let front = list.drop_last();
        let at = lemma_insertion_point(front, item);
        assert forall|i: int| at <= i < list.len() implies !not_after(
            (#[trigger] list[i]).title,
            item.title,
        ) by {
            if i < front.len() {
                assert(front[i] == list[i]);
            }
        }
        at
    };
    lemma_inserted_at(list, item, at);
    at
}

proof fn lemma_inserted_ordered(list: Seq<MangaInfoView>, item: MangaInfoView)
    requires
        ordered(list),
    ensures
        ordered(inserted(list, item)),
        inserted(list, item).to_multiset() == list.to_multiset().insert(item),
{
    let at = lemma_insertion_point(list, item);
    let after = list.insert(at, item);
    vstd::seq_lib::to_multiset_insert(list, at, item);
    assert forall|i: int, j: int| 0 <= i <= j < after.len() implies not_after(
        #[trigger] after[i].title,
        #[trigger] after[j].title,
    ) by {
        lemma_not_after_total(item.title, item.title);
        if i < at && j == at {
            assert(not_after(list[i].title, list[at - 1].title));
            lemma_not_after_transitive(list[i].title, list[at - 1].title, item.title);
        } else if i == at && j > at {
            assert(!not_after(list[j - 1].title, item.title));
            lemma_not_after_total(list[j - 1].title, item.title);
        } else if i < at && j < at {
            assert(not_after(list[i].title, list[j].title));
        } else if i < at && j > at {
            assert(not_after(list[i].title, list[j - 1].title));
        } else if i > at {
            assert(not_after(list[i - 1].title, list[j - 1].title));
        }
    }
}

/// The list of series stands in the order of the titles, and sorting neither loses nor adds one.
pub proof fn law_list_is_sorted(list: Seq<MangaInfoView>)
    ensures
        ordered(sorted(list)),
        sorted(list).to_multiset() == list.to_multiset(),
        sorted(list).len() == list.len(),
    decreases list.len(),
{
    if list.len() > 0 {
        let front = list.drop_last();
        law_list_is_sorted(front);
        lemma_inserted_ordered(sorted(front), list.last());
        assert(list =~= front.push(list.last()));
        vstd::seq_lib::to_multiset_build(front, list.last());
    }
    vstd::seq_lib::to_multiset_len(list);
    vstd::seq_lib::to_multiset_len(sorted(list));
}

/// Whether no two series have the same title.
pub open spec fn titles_differ(list: Seq<MangaInfoView>) -> bool {
    forall|i: int, j: int|
        0 <= i < list.len() && 0 <= j < list.len() && i != j ==> #[trigger] list[i].title
            != #[trigger] list[j].title
}

proof fn lemma_titles_differ(a: Seq<MangaInfoView>, b: Seq<MangaInfoView>)
    requires
        titles_differ(a),
        a.to_multiset() == b.to_multiset(),
    ensures
        titles_differ(b),
{
    broadcast use vstd::multiset::group_multiset_axioms;

    a.to_multiset_ensures();
    b.to_multiset_ensures();
    assert forall|i: int, j: int| 0 <= i < a.len() && 0 <= j < a.len() && i != j implies a[i]
        != a[j] by {
        assert(a[i].title != a[j].title);
    }
    a.lemma_multiset_has_no_duplicates();
    assert forall|x: MangaInfoView| b.to_multiset().contains(x) implies b.to_multiset().count(x)
        == 1 by {
        assert(a.to_multiset().contains(x));
    }
    b.lemma_multiset_has_no_duplicates_conv();
    assert forall|i: int, j: int|
        0 <= i < b.len() && 0 <= j < b.len() && i != j implies #[trigger] b[i].title
        != #[trigger] b[j].title by {
        assert(b[i] != b[j]);
        assert(b.contains(b[i]) && b.contains(b[j]));
        assert(b.to_multiset().count(b[i]) > 0 && b.to_multiset().count(b[j]) > 0);
        assert(a.contains(b[i]) && a.contains(b[j]));
        let k = choose|k: int| 0 <= k < a.len() && a[k] == b[i];
        let l = choose|l: int| 0 <= l < a.len() && a[l] == b[j];
        assert(a[k].title != a[l].title);
    }
}

proof fn lemma_one_order(a: Seq<MangaInfoView>, b: Seq<MangaInfoView>)
    requires
        ordered(a),
        ordered(b),
        titles_differ(a),
        titles_differ(b),
        a.to_multiset() == b.to_multiset(),
    ensures
        a == b,
    decreases a.len(),
{
    a.to_multiset_ensures();
    b.to_multiset_ensures();
    if a.len() > 0 {
        let x = a.last();
        let y = b.last();
        assert(a.contains(x) && b.contains(y));
        assert(b.to_multiset().count(x) > 0 && a.to_multiset().count(y) > 0);
        let i = choose|i: int| 0 <= i < b.len() && b[i] == x;
        let j = choose|j: int| 0 <= j < a.len() && a[j] == y;
        assert(not_after(b[i].title, b[b.len() - 1].title));
        assert(not_after(a[j].title, a[a.len() - 1].title));
        lemma_not_after_antisymmetric(x.title, y.title);
        assert(b[i].title == b[b.len() - 1].title);
        assert(x == y);
        let a_front = a.drop_last();
        let b_front = b.drop_last();
        assert(a_front =~= a.remove(a.len() - 1));
        assert(b_front =~= b.remove(b.len() - 1));
        assert(ordered(a_front)) by {
            assert forall|i: int, j: int| 0 <= i <= j < a_front.len() implies not_after(
                #[trigger] a_front[i].title,
                #[trigger] a_front[j].title,
            ) by {
                assert(not_after(a[i].title, a[j].title));
            }
        }
        assert(ordered(b_front)) by {
            assert forall|i: int, j: int| 0 <= i <= j < b_front.len() implies not_after(
                #[trigger] b_front[i].title,
                #[trigger] b_front[j].title,
            ) by {
                assert(not_after(b[i].title, b[j].title));
            }
        }
        assert(titles_differ(a_front)) by {
            assert forall|i: int, j: int|
                0 <= i < a_front.len() && 0 <= j < a_front.len() && i
                    != j implies #[trigger] a_front[i].title != #[trigger] a_front[j].title by {
                assert(a[i].title != a[j].title);
            }
        }
        assert(titles_differ(b_front)) by {
            assert forall|i: int, j: int|
                0 <= i < b_front.len() && 0 <= j < b_front.len() && i
                    != j implies #[trigger] b_front[i].title != #[trigger] b_front[j].title by {
                assert(b[i].title != b[j].title);
            }
        }
        lemma_one_order(a_front, b_front);
        assert(a =~= a_front.push(x));
        assert(b =~= b_front.push(y));
    } else {
        assert(a =~= b);
    }
}

proof fn lemma_entries_multiset(
    url: Seq<char>,
    source_id: i64,
    a: Seq<(String, Detail)>,
    b: Seq<(String, Detail)>,
)
    requires
        a.to_multiset() == b.to_multiset(),
    ensures
        entries(url, source_id, a).to_multiset() == entries(url, source_id, b).to_multiset(),
    decreases a.len(),
{
    a.to_multiset_ensures();
    b.to_multiset_ensures();
    if a.len() > 0 {
        let x = a.last();
        assert(a.contains(x));
        assert(b.to_multiset().count(x) > 0);
        let j = choose|j: int| 0 <= j < b.len() && b[j] == x;
        let front = a.drop_last();
        let rest = b.remove(j);
        assert(front =~= a.remove(a.len() - 1));
        lemma_entries_multiset(url, source_id, front, rest);
        let f = entry(url, source_id, x);
        assert(entries(url, source_id, a) =~= entries(url, source_id, front).push(f));
        assert(entries(url, source_id, b) =~= entries(url, source_id, rest).insert(j, f));
        vstd::seq_lib::to_multiset_build(entries(url, source_id, front), f);
        vstd::seq_lib::to_multiset_insert(entries(url, source_id, rest), j, f);
    } else {
        assert(entries(url, source_id, a) =~= entries(url, source_id, b));
    }
}

/// The list of series does not depend on the order in which the rows of the table came.
pub proof fn law_list_ignores_row_order(
    url: Seq<char>,
    source_id: i64,
    a: Seq<(String, Detail)>,
    b: Seq<(String, Detail)>,
)
    requires
        distinct(a),
        a.to_multiset() == b.to_multiset(),
    ensures
        sorted(entries(url, source_id, a)) == sorted(entries(url, source_id, b)),
{
    let x = entries(url, source_id, a);
    let y = entries(url, source_id, b);
    assert forall|i: int, j: int|
        0 <= i < x.len() && 0 <= j < x.len() && i != j implies #[trigger] x[i].title
        != #[trigger] x[j].title by {
        assert(keys(a)[i] == a[i].0@ && keys(a)[j] == a[j].0@);
    }
    lemma_entries_multiset(url, source_id, a, b);
    law_list_is_sorted(x);
    law_list_is_sorted(y);
    lemma_titles_differ(x, sorted(x));
    lemma_titles_differ(x, sorted(y));
    lemma_one_order(sorted(x), sorted(y));
}

/// Whether a chapter number can stand in a path.
pub open spec fn is_path_segment(number: Seq<char>) -> bool {
    number.len() > 0 && !number.contains('/')
}

proof fn lemma_last_slash(before: Seq<char>, number: Seq<char>)
    requires
        !number.contains('/'),
    ensures
        last_at(before + seq!['/'] + number, '/') == Some(before.len() as int),
    decreases number.len(),
{
    let s = before + seq!['/'] + number;
    if number.len() > 0 {
        let front = number.drop_last();
        assert forall|i: int| 0 <= i < front.len() implies front[i] != '/' by {
            assert(front[i] == number[i]);
            assert(number.contains(number[i]));
        }
        lemma_last_slash(before, front);
        assert(s.drop_last() =~= before + seq!['/'] + front);
        assert(s.last() == number[number.len() - 1]);
        assert(number.contains(number[number.len() - 1]));
    } else {
        assert(s.last() == '/');
    }
}

/// The path of a listed chapter leads back to the series, without the slashes that its path ends
/// with, and to the chapter.
pub proof fn law_chapter_path_leads_back(path: Seq<char>, number: Seq<char>)
    requires
        is_path_segment(number),
    ensures
        place(chapter_path(path, number)) == Ok::<(Seq<char>, Seq<char>), ErrorView>(
            (trim_end_char(path, '/'), number),
        ),
{
    reveal_strlit("/");
    let before = trim_end_char(path, '/');
    let s = chapter_path(path, number);
    assert("/"@ =~= seq!['/']);
    assert(s.last() == number[number.len() - 1]);
    assert(number.contains(number[number.len() - 1]));
    assert(trim_end_char(s, '/') == s);
    lemma_last_slash(before, number);
    assert(s.take(before.len() as int) =~= before);
    assert(s.skip(before.len() as int + 1) =~= number);
}

/// The pages that are read for a listed chapter are its own: those of the group that the list
/// names, if that group has pages.
pub proof fn law_listed_chapter_has_its_pages(
    url: Seq<char>,
    path: Seq<char>,
    source_id: i64,
    series: Series,
    i: int,
)
    requires
        series.well_formed(),
        0 <= i < series.chapters@.len(),
        is_path_segment(series.chapters@[i].0@),
    ensures
        ({
            let number = series.chapters@[i].0@;
            let chapter = series.chapters@[i].1;
            let listed = chapter_infos(path, source_id, series)[i];
            let result = pages(url, listed.path, series);
            match least(keys(chapter.groups@)) {
                None => result == Err::<Seq<Seq<char>>, ErrorView>(ErrorView::NoGroups(number)),
                Some(group) => exists|g: int|
                    {
                        &&& 0 <= g < chapter.groups@.len()
                        &&& (#[trigger] chapter.groups@[g]).0@ == group
                        &&& result == if chapter.groups@[g].1@.len() == 0 {
                            Err(ErrorView::NoPages(number, group))
                        } else {
                            Ok(
                                views(chapter.groups@[g].1@).map_values(
                                    |page: Seq<char>|
                                        page_address(
                                            url,
                                            series.slug@,
                                            chapter.folder@,
                                            group,
                                            page,
                                        ),
                                ),
                            )
                        }
                    },
            }
        }),
{
    let number = series.chapters@[i].0@;
    let chapter = series.chapters@[i].1;
    law_chapter_path_leads_back(path, number);
    law_row_is_found(series.chapters@, i);
    law_least(keys(chapter.groups@));
    if let Some(group) = least(keys(chapter.groups@)) {
        let g = choose|g: int|
            0 <= g < keys(chapter.groups@).len() && keys(chapter.groups@)[g] == group;
        assert(chapter.groups@[g].0@ == group);
        law_row_is_found(chapter.groups@, g);
    }
}

/// A table gives what stands in the first row with the key, and nothing where no row has it.
pub proof fn law_lookup<T>(table: Seq<(String, T)>, key: Seq<char>)
    ensures
        lookup(table, key) is None <==> forall|i: int|
            0 <= i < table.len() ==> (#[trigger] table[i]).0@ != key,
        lookup(table, key) matches Some(value) ==> exists|i: int|
            {
                &&& 0 <= i < table.len()
                &&& (#[trigger] table[i]).0@ == key
                &&& table[i].1 == value
                &&& forall|j: int| 0 <= j < i ==> (#[trigger] table[j]).0@ != key
            },
        keys(table).len() == table.len(),
        forall|i: int| 0 <= i < table.len() ==> #[trigger] keys(table)[i] == table[i].0@,
    decreases table.len(),
{
    if table.len() > 0 {
        let rest = table.drop_first();
        law_lookup(rest, key);
        if table[0].0@ != key {
            match lookup(rest, key) {
                Some(value) => {
                    let k = choose|k: int|
                        {
                            &&& 0 <= k < rest.len()
                            &&& (#[trigger] rest[k]).0@ == key
                            &&& rest[k].1 == value
                            &&& forall|j: int| 0 <= j < k ==> (#[trigger] rest[j]).0@ != key
                        };
                    assert(table[k + 1] == rest[k]);
                    assert forall|j: int| 0 <= j < k + 1 implies (#[trigger] table[j]).0@
                        != key by {
                        if j > 0 {
                            assert(rest[j - 1] == table[j]);
                        }
                    }
                },
                None => {
                    assert forall|i: int| 0 <= i < table.len() implies (#[trigger] table[i]).0@
                        != key by {
                        if i > 0 {
                            assert(rest[i - 1] == table[i]);
                        }
                    }
                },
            }
        }
    }
}

/// A list is passed on, but for an empty one that comes with more than white space: that is an
/// error, which names the address.
pub proof fn law_non_empty<T>(body: Seq<char>, url: Seq<char>, items: Seq<T>)
    ensures
        items.len() > 0 ==> non_empty(body, url, items) == Ok::<Seq<T>, ErrorView>(items),
        (forall|i: int| 0 <= i < body.len() ==> is_white_space(#[trigger] body[i])) ==> non_empty(
            body,
            url,
            items,
        ) == Ok::<Seq<T>, ErrorView>(items),
        items.len() == 0 && (exists|i: int|
            0 <= i < body.len() && !is_white_space(#[trigger] body[i])) ==> non_empty(
            body,
            url,
            items,
        ) == Err::<Seq<T>, ErrorView>(ErrorView::NoItems(url)),
        list_address(url) == url + "/api/get_all_series"@,
{
    law_trimmed_keeps(body);
}

proof fn lemma_same_members(a: Seq<MangaInfoView>, b: Seq<MangaInfoView>, i: int)
    requires
        a.to_multiset() == b.to_multiset(),
        0 <= i < a.len(),
    ensures
        b.contains(a[i]),
{
    a.to_multiset_ensures();
    b.to_multiset_ensures();
    assert(a.contains(a[i]));
    assert(a.to_multiset().count(a[i]) > 0);
}

/// A row of the list is read field by field: its key is the title, `/api/series/` and its slug the
/// path, the reader's address and its cover the cover.
pub proof fn law_row_is_read(url: Seq<char>, source_id: i64, row: (String, Detail))
    ensures
        entry(url, source_id, row).source_id == source_id,
        entry(url, source_id, row).title == row.0@,
        entry(url, source_id, row).path == "/api/series/"@ + row.1.slug@,
        entry(url, source_id, row).cover_url == url + row.1.cover@,
        entry(url, source_id, row).author == seq![row.1.author@, row.1.artist@],
        entry(url, source_id, row).genre.len() == 0,
        entry(url, source_id, row).status == Some("Ongoing"@),
        entry(url, source_id, row).description == Some(row.1.description@),
{
}

/// Each series that is listed is that of a row: its title is the row's key, its path is
/// `/api/series/` and the row's slug, its cover the reader's address and the row's cover, its
/// authors the row's author and artist. It stands behind those whose titles come first.
pub proof fn law_listed_series_are_rows(
    url: Seq<char>,
    source_id: i64,
    rows: Seq<(String, Detail)>,
    i: int,
)
    requires
        0 <= i < rows.len(),
    ensures
        ({
            let list = sorted(entries(url, source_id, rows));
            &&& list.len() == rows.len()
            &&& exists|j: int|
                {
                    &&& 0 <= j < rows.len()
                    &&& list[i].source_id == source_id
                    &&& list[i].title == (#[trigger] rows[j]).0@
                    &&& list[i].path == "/api/series/"@ + rows[j].1.slug@
                    &&& list[i].cover_url == url + rows[j].1.cover@
                    &&& list[i].author == seq![rows[j].1.author@, rows[j].1.artist@]
                    &&& list[i].description == Some(rows[j].1.description@)
                    &&& list[i].status == Some("Ongoing"@)
                    &&& list[i].genre.len() == 0
                }
            &&& forall|k: int|
                i <= k < list.len() ==> not_after(list[i].title, #[trigger] list[k].title)
        }),
{
    let all = entries(url, source_id, rows);
    let list = sorted(all);
    law_list_is_sorted(all);
    lemma_same_members(list, all, i);
    let j = choose|j: int| 0 <= j < all.len() && all[j] == list[i];
    assert(all[j] == entry(url, source_id, rows[j]));
    assert forall|k: int| i <= k < list.len() implies not_after(
        list[i].title,
        #[trigger] list[k].title,
    ) by {}
}

/// Each row is listed: some series has its key as the title, `/api/series/` and its slug as the
/// path, and the reader's address and its cover as the cover.
pub proof fn law_rows_are_listed(
    url: Seq<char>,
    source_id: i64,
    rows: Seq<(String, Detail)>,
    j: int,
)
    requires
        0 <= j < rows.len(),
    ensures
        ({
            let list = sorted(entries(url, source_id, rows));
            exists|i: int|
                {
                    &&& 0 <= i < list.len()
                    &&& (#[trigger] list[i]).title == rows[j].0@
                    &&& list[i].path == "/api/series/"@ + rows[j].1.slug@
                    &&& list[i].cover_url == url + rows[j].1.cover@
                    &&& list[i].author == seq![rows[j].1.author@, rows[j].1.artist@]
                    &&& list[i].description == Some(rows[j].1.description@)
                }
        }),
{
    let all = entries(url, source_id, rows);
    let list = sorted(all);
    law_list_is_sorted(all);
    lemma_same_members(all, list, j);
    let i = choose|i: int| 0 <= i < list.len() && list[i] == all[j];
    assert(list[i] == entry(url, source_id, rows[j]));
}

/// Series that stand in the order of their titles already stay as they are.
pub proof fn law_sorting_keeps_order(list: Seq<MangaInfoView>)
    requires
        forall|i: int, j: int|
            0 <= i < j < list.len() ==> not_after(
                #[trigger] list[i].title,
                #[trigger] list[j].title,
            ),
    ensures
        sorted(list) == list,
    decreases list.len(),
{
    if list.len() > 0 {
        let front = list.drop_last();
        assert forall|i: int, j: int| 0 <= i < j < front.len() implies not_after(
            #[trigger] front[i].title,
            #[trigger] front[j].title,
        ) by {
            assert(not_after(list[i].title, list[j].title));
        }
        law_sorting_keeps_order(front);
        if front.len() > 0 {
            assert(not_after(list[list.len() - 2].title, list[list.len() - 1].title));
        }
        assert(front.push(list.last()) =~= list);
    } else {
        assert(list =~= Seq::empty());
    }
}

/// A series tells its own title, its author and artist, its description and its cover, the latter at
/// the reader's address; it keeps the path that it was asked for by.
pub proof fn law_series_tells_what_it_holds(
    url: Seq<char>,
    path: Seq<char>,
    source_id: i64,
    series: Series,
)
    ensures
        details(url, path, source_id, series).source_id == source_id,
        details(url, path, source_id, series).title == series.title@,
        details(url, path, source_id, series).author == seq![series.author@, series.artist@],
        details(url, path, source_id, series).genre.len() == 0,
        details(url, path, source_id, series).status == Some("Ongoing"@),
        details(url, path, source_id, series).description == Some(series.description@),
        details(url, path, source_id, series).path == path,
        details(url, path, source_id, series).cover_url == url + series.cover@,
{
}

/// Each chapter of a series is listed in its place: with the title of its row, the row's key as its
/// number, and as its path that of the series, without slashes at its end, a slash and the key.
pub proof fn law_chapters_are_rows(path: Seq<char>, source_id: i64, series: Series, i: int)
    requires
        0 <= i < series.chapters@.len(),
    ensures
        ({
            let row = series.chapters@[i];
            let listed = chapter_infos(path, source_id, series)[i];
            &&& chapter_infos(path, source_id, series).len() == series.chapters@.len()
            &&& listed == chapter_info(path, source_id, series.groups@, row)
            &&& listed.source_id == source_id
            &&& listed.title == row.1.title@
            &&& listed.path == trim_end_char(path, '/') + "/"@ + row.0@
            &&& listed.number == ChapterNumberView::Written(row.0@)
            &&& row.1.groups@.len() == 0 ==> listed.scanlator is None && listed.uploaded == 0
        }),
{
    law_least(keys(series.chapters@[i].1.groups@));
}

proof fn lemma_least_row<T>(table: Seq<(String, T)>, g: int)
    requires
        0 <= g < table.len(),
        forall|h: int| 0 <= h < table.len() ==> not_after(table[g].0@, (#[trigger] table[h]).0@),
    ensures
        least(keys(table)) == Some(table[g].0@),
{
    let list = keys(table);
    law_least(list);
    assert(list[g] == table[g].0@);
    let key = least(list)->0;
    assert(not_after(key, list[g]));
    let at = choose|at: int| 0 <= at < list.len() && list[at] == key;
    assert(table[at].0@ == key);
    lemma_not_after_antisymmetric(key, list[g]);
}

/// A chapter is listed as that of the group whose key stands before all others: `g` is its row
/// among the groups that have published the chapter. The name is the one that the series holds
/// under that key, and the time the one that the chapter holds under it, or 0.
pub proof fn law_chapter_is_of_first_group(
    path: Seq<char>,
    source_id: i64,
    series: Series,
    i: int,
    g: int,
)
    requires
        series.well_formed(),
        0 <= i < series.chapters@.len(),
        0 <= g < series.chapters@[i].1.groups@.len(),
        forall|h: int|
            0 <= h < series.chapters@[i].1.groups@.len() ==> not_after(
                series.chapters@[i].1.groups@[g].0@,
                (#[trigger] series.chapters@[i].1.groups@[h]).0@,
            ),
    ensures
        ({
            let listed = chapter_infos(path, source_id, series)[i];
            let key = series.chapters@[i].1.groups@[g].0@;
            let times = series.chapters@[i].1.release_date@;
            &&& forall|k: int|
                0 <= k < series.groups@.len() && (#[trigger] series.groups@[k]).0@ == key
                    ==> listed.scanlator == Some(series.groups@[k].1@)
            &&& (forall|k: int|
                0 <= k < series.groups@.len() ==> (#[trigger] series.groups@[k]).0@ != key)
                ==> listed.scanlator is None
            &&& forall|k: int|
                0 <= k < times.len() && (#[trigger] times[k]).0@ == key ==> listed.uploaded
                    == times[k].1
            &&& (forall|k: int| 0 <= k < times.len() ==> (#[trigger] times[k]).0@ != key)
                ==> listed.uploaded == 0
        }),
{
    let chapter = series.chapters@[i].1;
    let key = chapter.groups@[g].0@;
    lemma_least_row(chapter.groups@, g);
    law_lookup(series.groups@, key);
    law_lookup(chapter.release_date@, key);
    assert forall|k: int| 0 <= k < series.groups@.len() && (#[trigger] series.groups@[k]).0@
        == key implies lookup(series.groups@, key) == Some(series.groups@[k].1) by {
        law_row_is_found(series.groups@, k);
    }
    let times = chapter.release_date@;
    assert(distinct(series.chapters@[i].1.release_date@));
    assert forall|k: int| 0 <= k < times.len() && (#[trigger] times[k]).0@ == key implies lookup(
        times,
        key,
    ) == Some(times[k].1) by {
        law_row_is_found(times, k);
    }
}

/// A chapter's path names the series and the chapter: without the slashes that it ends with, it is
/// the one, a slash and the other, which holds no slash. A path without a slash names neither.
pub proof fn law_place(path: Seq<char>)
    ensures
        match place(path) {
            Ok(parts) => parts.0 + seq!['/'] + parts.1 == trim_end_char(path, '/')
                && !parts.1.contains('/'),
            Err(error) => !trim_end_char(path, '/').contains('/') && error
                == ErrorView::InvalidChapterPath(trim_end_char(path, '/')),
        },
{
    law_split_last(trim_end_char(path, '/'), '/');
}

/// The address of a page is the reader's address, `/media/manga/`, the slug of the series,
/// `/chapters/`, the folder of the chapter, the key of the group and the file, with slashes between.
pub proof fn law_page_address(
    url: Seq<char>,
    slug: Seq<char>,
    folder: Seq<char>,
    group: Seq<char>,
    page: Seq<char>,
)
    ensures
        page_address(url, slug, folder, group, page) == url + "/media/manga/"@ + slug
            + "/chapters/"@ + folder + "/"@ + group + "/"@ + page,
{
}

/// A chapter that a series does not hold has no pages.
pub proof fn law_missing_chapter(
    url: Seq<char>,
    path: Seq<char>,
    number: Seq<char>,
    series: Series,
)
    requires
        number.len() > 0,
        !number.contains('/'),
        forall|i: int|
            0 <= i < series.chapters@.len() ==> (#[trigger] series.chapters@[i]).0@ != number,
    ensures
        pages(url, path + seq!['/'] + number, series) == Err::<Seq<Seq<char>>, ErrorView>(
            ErrorView::ChapterNotFound(number, path),
        ),
{
    let s = path + seq!['/'] + number;
    assert(s.last() == number[number.len() - 1]);
    assert(number.contains(number[number.len() - 1]));
    assert(trim_end_char(s, '/') == s);
    lemma_last_slash(path, number);
    assert(s.take(path.len() as int) =~= path);
    assert(s.skip(path.len() as int + 1) =~= number);
    law_lookup(series.chapters@, number);
}

/// The pages of the chapter in row `i` are those of the group whose key stands before all others,
/// `g` being its row: each is the reader's address, `/media/manga/`, the slug of the series,
/// `/chapters/`, the folder of the chapter, the key of the group and the file, with slashes between.
pub proof fn law_pages_are_of_first_group(
    url: Seq<char>,
    path: Seq<char>,
    series: Series,
    i: int,
    g: int,
)
    requires
        series.well_formed(),
        0 <= i < series.chapters@.len(),
        series.chapters@[i].0@.len() > 0,
        !series.chapters@[i].0@.contains('/'),
        0 <= g < series.chapters@[i].1.groups@.len(),
        forall|h: int|
            0 <= h < series.chapters@[i].1.groups@.len() ==> not_after(
                series.chapters@[i].1.groups@[g].0@,
                (#[trigger] series.chapters@[i].1.groups@[h]).0@,
            ),
    ensures
        ({
            let number = series.chapters@[i].0@;
            let chapter = series.chapters@[i].1;
            let group = chapter.groups@[g];
            match pages(url, path + seq!['/'] + number, series) {
                Ok(list) => {
                    &&& group.1@.len() > 0
                    &&& list.len() == group.1@.len()
                    &&& forall|p: int|
                        0 <= p < list.len() ==> #[trigger] list[p] == url + "/media/manga/"@
                            + series.slug@ + "/chapters/"@ + chapter.folder@ + "/"@ + group.0@
                            + "/"@ + group.1@[p]@
                },
                Err(error) => group.1@.len() == 0 && error == ErrorView::NoPages(number, group.0@),
            }
        }),
{
    let number = series.chapters@[i].0@;
    let chapter = series.chapters@[i].1;
    let s = path + seq!['/'] + number;
    assert(s.last() == number[number.len() - 1]);
    assert(number.contains(number[number.len() - 1]));
    assert(trim_end_char(s, '/') == s);
    lemma_last_slash(path, number);
    assert(s.take(path.len() as int) =~= path);
    assert(s.skip(path.len() as int + 1) =~= number);
    law_row_is_found(series.chapters@, i);
    lemma_least_row(chapter.groups@, g);
    assert(distinct(series.chapters@[i].1.groups@));
    law_row_is_found(chapter.groups@, g);
}

/// A chapter that no group has published has no pages.
pub proof fn law_chapter_without_groups(url: Seq<char>, path: Seq<char>, series: Series, i: int)
    requires
        series.well_formed(),
        0 <= i < series.chapters@.len(),
        series.chapters@[i].0@.len() > 0,
        !series.chapters@[i].0@.contains('/'),
        series.chapters@[i].1.groups@.len() == 0,
    ensures
        pages(url, path + seq!['/'] + series.chapters@[i].0@, series) == Err::<
            Seq<Seq<char>>,
            ErrorView,
        >(ErrorView::NoGroups(series.chapters@[i].0@)),
{
    let number = series.chapters@[i].0@;
    let s = path + seq!['/'] + number;
    assert(s.last() == number[number.len() - 1]);
    assert(number.contains(number[number.len() - 1]));
    assert(trim_end_char(s, '/') == s);
    lemma_last_slash(path, number);
    assert(s.take(path.len() as int) =~= path);
    assert(s.skip(path.len() as int + 1) =~= number);
    law_row_is_found(series.chapters@, i);
    law_least(keys(series.chapters@[i].1.groups@));
}

} // verus!
