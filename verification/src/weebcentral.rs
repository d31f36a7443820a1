//! WeebCentral: its lists of series, a series, its chapters and pages.
//!
//! What a page shows is first read into plain values, as markup; the rest works on those.
use crate::dates::{or_epoch, parse_utc, time_or_epoch, utc_time};
use crate::dom::{
    are_elements, attribute, attributes, attrs, bad_selector, check_selectors, first_attr,
    first_attribute, first_inner_html, first_markup, first_text, first_whole_text, found,
    if_it_fits, inner_htmls, is_element, is_selector, lemma_all_selectors, markup, markups,
    nodes_of, option_views, parse_document, parsed_nodes, pieces, select, selected, selected_in,
    LARGEST_PAGE,
};
use crate::error::{listing, outcome, Error, ErrorView};
use crate::models::{
    ChapterInfo, ChapterInfoView, ChapterNumber, ChapterNumberView, MangaInfo, MangaInfoView,
    SourceInfo,
};
use crate::text::{
    begins_with, concat, decimal, joined, law_piece, law_split, law_split_joined,
    lemma_digits_injective, lemma_push_step, nth_piece, or_text, piece, same_text, split, text_or,
    to_decimal, trim, trim_all, trim_end_char, trim_end_matches, trimmed, trimmed_all, view_opt,
    views,
};
use crate::urls::{encode, encoded, law_encoding_tells_texts_apart};
use scraper::Html;
use vstd::prelude::*;

verus! {

/// The number of the source.
pub const ID: i64 = 28;

/// The name of the source.
pub const NAME: &'static str = "WeebCentral";

/// The address of the site.
pub const URL: &'static str = "https://weebcentral.com";

/// The address of the site's icon.
pub const ICON: &'static str = "https://weebcentral.com/static/images/144.png";

/// What the source tells of itself.
pub fn get_source_info() -> (info: SourceInfo)
    ensures
        info.id == ID,
        info.name@ == NAME@,
        info.url@ == URL@,
        info.icon@ == ICON@,
        info.language@ == "en"@,
        !info.nsfw,
{
    SourceInfo { id: ID, name: NAME, url: URL, icon: ICON, language: "en", nsfw: false }
}

// ---------------------------------------------------------------------------
// Addresses
// ---------------------------------------------------------------------------

/// How many series a page of a list shows.
pub const PAGE_SIZE: i64 = 32;

/// How many series stand before those of a page. Pages are counted from one, and what is less
/// counts as the first.
pub open spec fn page_offset(page: i64) -> int {
    if page < 1 {
        0
    } else {
        (page - 1) * PAGE_SIZE
    }
}

/// The address of a page of a list.
pub open spec fn list_address(page: i64, suburl: Seq<char>) -> Seq<char> {
    URL@ + suburl + decimal(page_offset(page))
}

/// The address of a page of a list.
pub fn list_url(page: i64, suburl: &str) -> (address: String)
    requires
        page_offset(page) <= i64::MAX,
    ensures
        address@ == list_address(page, suburl@),
{
    let offset: i64 = if page < 1 {
        0
    } else {
        (page - 1) * PAGE_SIZE
    };
    let number = to_decimal(offset);
    let mut address = concat(URL, suburl);
    address.append(number.as_str());
    address
}

/// The address of a page of a list, where the number of its first series is one of 64 bits.
pub open spec fn address_if_reached(page: i64, suburl: Seq<char>) -> Option<Seq<char>> {
    if page_offset(page) <= i64::MAX {
        Some(list_address(page, suburl))
    } else {
        None
    }
}

/// The address of a page of a list; `None` where the number of its first series is none of 64
/// bits.
pub fn try_list_url(page: i64, suburl: &str) -> (address: Option<String>)
    ensures
        view_opt(address) == address_if_reached(page, suburl@),
{
    if page > i64::MAX / PAGE_SIZE + 1 {
        return None;
    }
    Some(list_url(page, suburl))
}

/// The list of the most popular series, up to the number of the first that is shown.
pub const POPULAR: &'static str =
    "/search/data?limit=32&author=&text=&sort=Popularity&order=Descending&official=Any&anime=Any&adult=Any&display_mode=Full%20Display&offset=";

/// The list of the series that changed last, up to the number of the first that is shown.
pub const LATEST: &'static str =
    "/search/data?limit=32&sort=Latest+Updates&order=Descending&official=Any&anime=Any&adult=Any&display_mode=Full+Display&offset=";

/// The address of a page of the most popular series.
pub fn popular_url(page: i64) -> (address: Option<String>)
    ensures
        view_opt(address) == address_if_reached(page, POPULAR@),
{
    try_list_url(page, POPULAR)
}

/// The address of a page of the series that changed last.
pub fn latest_url(page: i64) -> (address: Option<String>)
    ensures
        view_opt(address) == address_if_reached(page, LATEST@),
{
    try_list_url(page, LATEST)
}

/// What a search begins with, up to the words that are looked for.
pub const SEARCH_START: &'static str = "/search/data?author=&text=";

/// What stands behind the words that are looked for.
pub const SEARCH_END: &'static str =
    "&sort=Latest%20Updates&order=Descending&official=Any&anime=Any&adult=Any&display_mode=Full%20Display&offset=";

/// The list of the series that match a query.
pub open spec fn search_list(query: Seq<char>) -> Seq<char> {
    SEARCH_START@ + encoded(query) + SEARCH_END@
}

/// The address of a page of the series that match a query; no query is an empty one.
pub fn search_url(page: i64, query: Option<String>) -> (address: Option<String>)
    ensures
        view_opt(address) == address_if_reached(
            page,
            search_list(or_text(view_opt(query), ""@)),
        ),
{
    let query = text_or(query, "");
    let words = encode(query.as_str());
    let mut suburl = concat(SEARCH_START, words.as_str());
    suburl.append(SEARCH_END);
    try_list_url(page, suburl.as_str())
}

/// The address of the series at `path`.
pub fn detail_url(path: &str) -> (address: String)
    ensures
        address@ == URL@ + path@,
{
    concat(URL, path)
}

/// The address of the chapters of the series at `path`.
pub fn chapters_url(path: &str) -> (address: String)
    ensures
        address@ == URL@ + path@ + "/full-chapter-list"@,
{
    let mut address = concat(URL, path);
    address.append("/full-chapter-list");
    address
}

/// The address of the pages of the chapter at `path`.
pub fn pages_url(path: &str) -> (address: String)
    ensures
        address@ == URL@ + path@
            + "/images?is_prev=False&current_page=1&reading_style=single_page"@,
{
    let mut address = concat(URL, path);
    address.append("/images?is_prev=False&current_page=1&reading_style=single_page");
    address
}

/// The number that the site gives to what `link` leads to: its fifth part between slashes.
pub open spec fn site_id(link: Option<Seq<char>>) -> Seq<char> {
    or_text(piece(or_text(link, ""@), '/', 4), ""@)
}

/// The number that the site gives to what `link` leads to: its fifth part between slashes.
pub fn id_of(link: Option<String>) -> (id: String)
    ensures
        id@ == site_id(view_opt(link)),
{
    let link = text_or(link, "");
    text_or(nth_piece(link.as_str(), '/', 4), "")
}

/// A title from its markup, or the title of what has none.
pub open spec fn title_of(markup: Option<Seq<char>>) -> Seq<char> {
    match markup {
        Some(text) => trimmed(text),
        None => "Unknown Title"@,
    }
}

/// A title from its markup, or the title of what has none.
pub fn title_or_unknown(markup: Option<String>) -> (title: String)
    ensures
        title@ == title_of(view_opt(markup)),
{
    match markup {
        Some(text) => trim(text.as_str()),
        None => "Unknown Title".to_owned(),
    }
}

/// A text from its markup, empty where there is none.
pub open spec fn plain(markup: Option<Seq<char>>) -> Seq<char> {
    match markup {
        Some(text) => trimmed(text),
        None => ""@,
    }
}

/// A text from its markup, empty where there is none.
pub fn plain_text(markup: Option<String>) -> (text: String)
    ensures
        text@ == plain(view_opt(markup)),
{
    match markup {
        Some(text) => trim(text.as_str()),
        None => "".to_owned(),
    }
}

// ---------------------------------------------------------------------------
// A list of series
// ---------------------------------------------------------------------------

/// What a list shows of a series: the markup of its title, of its authors, of the labels with its
/// genres and of the facts with its status, the address it leads to and that of its cover.
#[derive(Debug, Clone)]
pub struct ListCard {
    pub title: Option<String>,
    pub authors: Vec<String>,
    pub labels: Vec<String>,
    pub link: Option<String>,
    pub facts: Vec<String>,
    pub cover: Option<String>,
}

/// A [`ListCard`] with its texts as sequences of characters.
pub struct ListCardView {
    pub title: Option<Seq<char>>,
    pub authors: Seq<Seq<char>>,
    pub labels: Seq<Seq<char>>,
    pub link: Option<Seq<char>>,
    pub facts: Seq<Seq<char>>,
    pub cover: Option<Seq<char>>,
}

impl View for ListCard {
    type V = ListCardView;

    open spec fn view(&self) -> ListCardView {
        ListCardView {
            title: view_opt(self.title),
            authors: views(self.authors@),
            labels: views(self.labels@),
            link: view_opt(self.link),
            facts: views(self.facts@),
            cover: view_opt(self.cover),
        }
    }
}

/// The labels behind the first three, which are no genres.
pub open spec fn genres(labels: Seq<Seq<char>>) -> Seq<Seq<char>> {
    if labels.len() <= 3 {
        Seq::empty()
    } else {
        trimmed_all(labels.skip(3))
    }
}

/// The second fact, which is the status.
pub open spec fn status(facts: Seq<Seq<char>>) -> Seq<char> {
    if facts.len() < 2 {
        ""@
    } else {
        trimmed(facts[1])
    }
}

/// A series as a list shows it.
pub open spec fn listed(card: ListCardView) -> MangaInfoView {
    MangaInfoView {
        source_id: ID,
        title: title_of(card.title),
        author: trimmed_all(card.authors),
        genre: genres(card.labels),
        status: Some(status(card.facts)),
        description: None,
        path: "/series/"@ + site_id(card.link),
        cover_url: or_text(card.cover, ""@),
    }
}

/// Reads the genres among the labels of a series.
pub fn read_genres(labels: &Vec<String>) -> (list: Vec<String>)
    ensures
        views(list@) == genres(views(labels@)),
{
    let mut list: Vec<String> = Vec::new();
    if labels.len() <= 3 {
        assert(views(list@) =~= Seq::empty());
        return list;
    }
    let ghost all = genres(views(labels@));
    let mut i: usize = 3;
    assert(views(list@) =~= all.take(0));
    while i < labels.len()
        invariant
            3 <= i <= labels@.len(),
            all == trimmed_all(views(labels@).skip(3)),
            views(list@) == all.take(i - 3),
        decreases labels@.len() - i,
    {
        let genre = trim(labels[i].as_str());
        proof {
            lemma_push_step(list@, genre, all, i - 3);
        }
        list.push(genre);
        i += 1;
    }
    assert(all.take(i - 3) =~= all);
    list
}

/// Makes a series of what a list shows of it.
pub fn list_entry(card: ListCard) -> (info: MangaInfo)
    ensures
        info@ == listed(card@),
{
    let author = trim_all(&card.authors);
    let genre = read_genres(&card.labels);
    let status = if card.facts.len() < 2 {
        "".to_owned()
    } else {
        trim(card.facts[1].as_str())
    };
    let id = id_of(card.link);
    MangaInfo {
        source_id: ID,
        title: title_or_unknown(card.title),
        author,
        genre,
        status: Some(status),
        description: None,
        path: concat("/series/", id.as_str()),
        cover_url: text_or(card.cover, ""),
    }
}

/// Where a series stands in a list.
pub const CARD: &'static str = "article.bg-base-300";

/// Where its title stands.
pub const CARD_TITLE: &'static str = "div.text-ellipsis.truncate";

/// Where its authors stand.
pub const CARD_AUTHOR: &'static str = "div > span > a.link.link-info.link-hover";

/// Where its labels stand.
pub const CARD_LABEL: &'static str = "div.opacity-70 > span";

/// Where its facts stand.
pub const CARD_FACT: &'static str = "strong + span";

/// Where a cover stands.
pub const COVER: &'static str = "picture img";

/// Where a link stands.
pub const LINK: &'static str = "a";

/// What the reader of a list looks for.
pub open spec fn list_selectors() -> Seq<Seq<char>> {
    seq![CARD@, CARD_TITLE@, CARD_AUTHOR@, CARD_LABEL@, CARD_FACT@, COVER@, LINK@]
}

/// What a list shows of the series at an element.
pub open spec fn card_at(nodes: Seq<(bool, Seq<char>)>, node: usize) -> ListCardView {
    ListCardView {
        title: first_markup(nodes, selected_in(nodes, node, CARD_TITLE@)),
        authors: markups(nodes, selected_in(nodes, node, CARD_AUTHOR@)),
        labels: markups(nodes, selected_in(nodes, node, CARD_LABEL@)),
        link: first_attribute(nodes, selected_in(nodes, node, LINK@), "href"@),
        facts: markups(nodes, selected_in(nodes, node, CARD_FACT@)),
        cover: first_attribute(nodes, selected_in(nodes, node, COVER@), "src"@),
    }
}

/// What a list shows of each series.
pub open spec fn cards(nodes: Seq<(bool, Seq<char>)>) -> Seq<ListCardView> {
    found(nodes, None, CARD@).map_values(|node: usize| card_at(nodes, node))
}

/// Reads what a list shows of the series at an element.
pub(crate) fn read_card(doc: &Html, node: usize) -> (card: ListCard)
    requires
        is_element(nodes_of(*doc), node),
        bad_selector(list_selectors()) is None,
    ensures
        card@ == card_at(nodes_of(*doc), node),
{
    proof {
        lemma_all_selectors(list_selectors());
        let s = list_selectors();
        assert(is_selector(s[1]) && is_selector(s[2]) && is_selector(s[3]) && is_selector(s[4])
            && is_selector(s[5]) && is_selector(s[6]));
    }
    ListCard {
        title: first_inner_html(doc, Some(node), CARD_TITLE),
        authors: inner_htmls(doc, Some(node), CARD_AUTHOR),
        labels: inner_htmls(doc, Some(node), CARD_LABEL),
        link: first_attr(doc, Some(node), LINK, "href"),
        facts: inner_htmls(doc, Some(node), CARD_FACT),
        cover: first_attr(doc, Some(node), COVER, "src"),
    }
}

/// The series that a list shows.
pub open spec fn manga_list(nodes: Seq<(bool, Seq<char>)>) -> Result<
    Seq<MangaInfoView>,
    ErrorView,
> {
    match bad_selector(list_selectors()) {
        Some(bad) => Err(ErrorView::Selector(bad)),
        None => Ok(cards(nodes).map_values(|card: ListCardView| listed(card))),
    }
}

/// Reads the series that a list shows.
pub fn get_manga_list(body: &str) -> (result: Result<Vec<MangaInfo>, Error>)
    requires
        body.len() <= LARGEST_PAGE,
    ensures
        listing(result) == manga_list(parsed_nodes(body@)),
{
    let selectors: [&str; 7] = [
        CARD,
        CARD_TITLE,
        CARD_AUTHOR,
        CARD_LABEL,
        CARD_FACT,
        COVER,
        LINK,
    ];
    assert(views(selectors@) =~= list_selectors());
    if let Err(error) = check_selectors(&selectors) {
        return Err(error);
    }
    let doc = parse_document(body);
    let ghost nodes = nodes_of(doc);
    let ghost all = cards(nodes).map_values(|card: ListCardView| listed(card));
    proof {
        lemma_all_selectors(list_selectors());
        assert(is_selector(list_selectors()[0]));
    }
    let places = select(&doc, None, CARD);
    let mut list: Vec<MangaInfo> = Vec::new();
    let mut i: usize = 0;
    assert(views(list@) =~= all.take(0));
    while i < places.len()
        invariant
            i <= places@.len(),
            bad_selector(list_selectors()) is None,
            nodes == nodes_of(doc),
            are_elements(nodes, places@),
            places@ == found(nodes, None, CARD@),
            all == cards(nodes).map_values(|card: ListCardView| listed(card)),
            views(list@) == all.take(i as int),
        decreases places@.len() - i,
    {
        assert(is_element(nodes, places@[i as int]));
        let card = read_card(&doc, places[i]);
        let info = list_entry(card);
        proof {
            lemma_push_step(list@, info, all, i as int);
        }
        list.push(info);
        i += 1;
    }
    assert(all.take(i as int) =~= all);
    Ok(list)
}

/// Reads the series that a list shows, if the page is not too large.
pub fn try_get_manga_list(body: &str) -> (result: Result<Vec<MangaInfo>, Error>)
    ensures
        listing(result) == if_it_fits(body.len(), manga_list(parsed_nodes(body@))),
{
    if body.len() > LARGEST_PAGE {
        return Err(Error::PageTooLarge(body.len()));
    }
    get_manga_list(body)
}

// ---------------------------------------------------------------------------
// A series
// ---------------------------------------------------------------------------

/// A section of the sidebar: the text of its label, and the markup of its links and of the link
/// next to its label.
#[derive(Debug, Clone)]
pub struct Section {
    pub label: Option<String>,
    pub links: Vec<String>,
    pub status: Option<String>,
}

/// A [`Section`] with its texts as sequences of characters.
pub struct SectionView {
    pub label: Option<Seq<char>>,
    pub links: Seq<Seq<char>>,
    pub status: Option<Seq<char>>,
}

impl View for Section {
    type V = SectionView;

    open spec fn view(&self) -> SectionView {
        SectionView {
            label: view_opt(self.label),
            links: views(self.links@),
            status: view_opt(self.status),
        }
    }
}

impl SectionView {
    /// Whether the section has this label, with or without a colon behind it.
    pub open spec fn is_named(self, label: Seq<char>) -> bool {
        match self.label {
            Some(text) => trim_end_char(trimmed(text), ':') == label,
            None => false,
        }
    }
}

/// The first section with this label.
pub open spec fn section_named(sections: Seq<SectionView>, label: Seq<char>) -> Option<SectionView>
    decreases sections.len(),
{
    if sections.len() == 0 {
        None
    } else if sections[0].is_named(label) {
        Some(sections[0])
    } else {
        section_named(sections.drop_first(), label)
    }
}

/// Finds the first section with this label.
pub fn find_sidebar_section<'a>(sections: &'a Vec<Section>, label: &str) -> (section: Option<
    &'a Section,
>)
    ensures
        match section {
            Some(s) => section_named(views(sections@), label@) == Some(s@),
            None => section_named(views(sections@), label@) is None,
        },
{
    let ghost all = views(sections@);
    let mut i: usize = 0;
    assert(all.skip(0) =~= all);
    while i < sections.len()
        invariant
            i <= sections@.len(),
            all == views(sections@),
            section_named(all, label@) == section_named(all.skip(i as int), label@),
        decreases sections@.len() - i,
    {
        assert(all.skip(i as int)[0] == sections@[i as int]@);
        assert(all.skip(i as int).drop_first() =~= all.skip(i + 1));
        if let Some(text) = &sections[i].label {
            let text = trim(text.as_str());
            let text = trim_end_matches(text.as_str(), ':');
            if same_text(text.as_str(), label) {
                return Some(&sections[i]);
            }
        }
        i += 1;
    }
    None
}

/// What the page of a series shows: the markup of its title, its sidebar, the markup of its
/// description, and the address of its cover.
#[derive(Debug, Clone)]
pub struct DetailPage {
    pub title: Option<String>,
    pub sections: Vec<Section>,
    pub description: Option<String>,
    pub cover: Option<String>,
}

/// A [`DetailPage`] with its texts as sequences of characters.
pub struct DetailPageView {
    pub title: Option<Seq<char>>,
    pub sections: Seq<SectionView>,
    pub description: Option<Seq<char>>,
    pub cover: Option<Seq<char>>,
}

impl View for DetailPage {
    type V = DetailPageView;

    open spec fn view(&self) -> DetailPageView {
        DetailPageView {
            title: view_opt(self.title),
            sections: views(self.sections@),
            description: view_opt(self.description),
            cover: view_opt(self.cover),
        }
    }
}

/// The links of the section with this label.
pub open spec fn links_of(sections: Seq<SectionView>, label: Seq<char>) -> Seq<Seq<char>> {
    match section_named(sections, label) {
        Some(section) => trimmed_all(section.links),
        None => Seq::empty(),
    }
}

/// The links of the section with this label.
pub fn read_links(sections: &Vec<Section>, label: &str) -> (links: Vec<String>)
    ensures
        views(links@) == links_of(views(sections@), label@),
{
    match find_sidebar_section(sections, label) {
        Some(section) => trim_all(&section.links),
        None => {
            let links: Vec<String> = Vec::new();
            assert(views(links@) =~= Seq::empty());
            links
        },
    }
}

/// The status in the section with that label.
pub open spec fn status_of(sections: Seq<SectionView>) -> Seq<char> {
    match section_named(sections, "Status"@) {
        Some(section) => plain(section.status),
        None => ""@,
    }
}

/// A series as its page shows it.
pub open spec fn details(path: Seq<char>, page: DetailPageView) -> MangaInfoView {
    MangaInfoView {
        source_id: ID,
        title: title_of(page.title),
        author: links_of(page.sections, "Author(s)"@),
        genre: links_of(page.sections, "Tags(s)"@),
        status: Some(status_of(page.sections)),
        description: Some(plain(page.description)),
        path,
        cover_url: or_text(page.cover, ""@),
    }
}

/// Makes a series of what its page shows.
pub fn detail_entry(path: String, page: DetailPage) -> (info: MangaInfo)
    ensures
        info@ == details(path@, page@),
{
    let author = read_links(&page.sections, "Author(s)");
    let genre = read_links(&page.sections, "Tags(s)");
    let status = match find_sidebar_section(&page.sections, "Status") {
        Some(section) => plain_text(section.status.clone()),
        None => "".to_owned(),
    };
    MangaInfo {
        source_id: ID,
        title: title_or_unknown(page.title),
        author,
        genre,
        status: Some(status),
        description: Some(plain_text(page.description)),
        path,
        cover_url: text_or(page.cover, ""),
    }
}

/// Where the title of a series stands.
pub const TITLE: &'static str = "h1.hidden.md\\:block.text-2xl.font-bold";

/// Where the sections of the sidebar stand.
pub const SECTION: &'static str = "ul.flex.flex-col.gap-4 > li";

/// Where the label of a section stands.
pub const SECTION_LABEL: &'static str = "strong";

/// Where the links of a section stand.
pub const SECTION_LINK: &'static str = "span > a.link.link-info.link-hover";

/// Where the link next to the label of a section stands.
pub const SECTION_STATUS: &'static str = "strong + a.link.link-info.link-hover";

/// Where the description of a series stands.
pub const DESCRIPTION: &'static str =
    "ul.flex.flex-col.gap-4 > li > strong + p.whitespace-pre-wrap.break-words";

/// What the reader of a series looks for.
pub open spec fn detail_selectors() -> Seq<Seq<char>> {
    seq![TITLE@, SECTION@, SECTION_LABEL@, SECTION_LINK@, SECTION_STATUS@, DESCRIPTION@, COVER@]
}

/// The section of the sidebar at an element.
pub open spec fn section_at(nodes: Seq<(bool, Seq<char>)>, node: usize) -> SectionView {
    SectionView {
        label: first_text(nodes, selected_in(nodes, node, SECTION_LABEL@)),
        links: markups(nodes, selected_in(nodes, node, SECTION_LINK@)),
        status: first_markup(nodes, selected_in(nodes, node, SECTION_STATUS@)),
    }
}

/// The sections of the sidebar.
pub open spec fn sections_in(nodes: Seq<(bool, Seq<char>)>) -> Seq<SectionView> {
    found(nodes, None, SECTION@).map_values(|node: usize| section_at(nodes, node))
}

/// What the page of a series shows.
pub open spec fn detail_page(nodes: Seq<(bool, Seq<char>)>) -> DetailPageView {
    DetailPageView {
        title: first_markup(nodes, found(nodes, None, TITLE@)),
        sections: sections_in(nodes),
        description: first_markup(nodes, found(nodes, None, DESCRIPTION@)),
        cover: first_attribute(nodes, found(nodes, None, COVER@), "src"@),
    }
}

/// Reads what the page of a series shows.
pub(crate) fn read_detail_page(doc: &Html) -> (page: DetailPage)
    requires
        bad_selector(detail_selectors()) is None,
    ensures
        page@ == detail_page(nodes_of(*doc)),
{
    let ghost nodes = nodes_of(*doc);
    let ghost all = sections_in(nodes);
    proof {
        lemma_all_selectors(detail_selectors());
        let s = detail_selectors();
        assert(is_selector(s[0]) && is_selector(s[1]) && is_selector(s[2]) && is_selector(s[3])
            && is_selector(s[4]) && is_selector(s[5]) && is_selector(s[6]));
    }
    let places = select(doc, None, SECTION);
    let mut sections: Vec<Section> = Vec::new();
    let mut i: usize = 0;
    assert(views(sections@) =~= all.take(0));
    while i < places.len()
        invariant
            i <= places@.len(),
            is_selector(SECTION_LABEL@),
            is_selector(SECTION_LINK@),
            is_selector(SECTION_STATUS@),
            nodes == nodes_of(*doc),
            are_elements(nodes, places@),
            places@ == found(nodes, None, SECTION@),
            all == sections_in(nodes),
            views(sections@) == all.take(i as int),
        decreases places@.len() - i,
    {
        assert(is_element(nodes, places@[i as int]));
        let scope = Some(places[i]);
        let section = Section {
            label: first_whole_text(doc, scope, SECTION_LABEL),
            links: inner_htmls(doc, scope, SECTION_LINK),
            status: first_inner_html(doc, scope, SECTION_STATUS),
        };
        proof {
            lemma_push_step(sections@, section, all, i as int);
        }
        sections.push(section);
        i += 1;
    }
    assert(all.take(i as int) =~= all);
    DetailPage {
        title: first_inner_html(doc, None, TITLE),
        sections,
        description: first_inner_html(doc, None, DESCRIPTION),
        cover: first_attr(doc, None, COVER, "src"),
    }
}

/// The series that a page shows.
pub open spec fn manga_detail(path: Seq<char>, nodes: Seq<(bool, Seq<char>)>) -> Result<
    MangaInfoView,
    ErrorView,
> {
    match bad_selector(detail_selectors()) {
        Some(bad) => Err(ErrorView::Selector(bad)),
        None => Ok(details(path, detail_page(nodes))),
    }
}

/// Reads the series at `path` from its page.
pub fn get_manga_detail(path: String, body: &str) -> (result: Result<MangaInfo, Error>)
    requires
        body.len() <= LARGEST_PAGE,
    ensures
        outcome(result) == manga_detail(path@, parsed_nodes(body@)),
{
    let selectors: [&str; 7] = [
        TITLE,
        SECTION,
        SECTION_LABEL,
        SECTION_LINK,
        SECTION_STATUS,
        DESCRIPTION,
        COVER,
    ];
    assert(views(selectors@) =~= detail_selectors());
    if let Err(error) = check_selectors(&selectors) {
        return Err(error);
    }
    let doc = parse_document(body);
    let page = read_detail_page(&doc);
    Ok(detail_entry(path, page))
}

/// Reads the series at `path` from its page, if the page is not too large.
pub fn try_get_manga_detail(path: String, body: &str) -> (result: Result<MangaInfo, Error>)
    ensures
        outcome(result) == if_it_fits(body.len(), manga_detail(path@, parsed_nodes(body@))),
{
    if body.len() > LARGEST_PAGE {
        return Err(Error::PageTooLarge(body.len()));
    }
    get_manga_detail(path, body)
}

// ---------------------------------------------------------------------------
// Chapters
// ---------------------------------------------------------------------------

/// What the list of chapters shows of one: the markup of its title and of the time at which it
/// came, and the address it leads to.
#[derive(Debug, Clone)]
pub struct ChapterRow {
    pub title: Option<String>,
    pub link: Option<String>,
    pub time: Option<String>,
}

/// A [`ChapterRow`] with its texts as sequences of characters.
pub struct ChapterRowView {
    pub title: Option<Seq<char>>,
    pub link: Option<Seq<char>>,
    pub time: Option<Seq<char>>,
}

impl View for ChapterRow {
    type V = ChapterRowView;

    open spec fn view(&self) -> ChapterRowView {
        ChapterRowView {
            title: view_opt(self.title),
            link: view_opt(self.link),
            time: view_opt(self.time),
        }
    }
}

/// The Unix time of an upload, or zero where the text is no date with time and zone.
pub fn parse_upload_timestamp(upload: &str) -> (seconds: i64)
    ensures
        seconds == or_epoch(utc_time(upload@)),
{
    time_or_epoch(parse_utc(upload))
}

/// A chapter as the list shows it, with its number and the time at which it came.
pub open spec fn chapter(row: ChapterRowView, number: usize, uploaded: i64) -> ChapterInfoView {
    ChapterInfoView {
        source_id: ID,
        title: title_of(row.title),
        path: "/chapters/"@ + site_id(row.link),
        number: ChapterNumberView::Ordinal(number),
        scanlator: None,
        uploaded,
    }
}

/// Makes a chapter of what the list shows of it, with its number and the time at which it came.
pub fn chapter_entry(row: ChapterRow, number: usize, uploaded: i64) -> (info: ChapterInfo)
    ensures
        info@ == chapter(row@, number, uploaded),
{
    let id = id_of(row.link);
    ChapterInfo {
        source_id: ID,
        title: title_or_unknown(row.title),
        path: concat("/chapters/", id.as_str()),
        number: ChapterNumber::Ordinal(number),
        scanlator: None,
        uploaded,
    }
}

/// The chapters of a list, newest first: the last has the number one.
pub open spec fn numbered(rows: Seq<ChapterRowView>) -> Seq<ChapterInfoView> {
    Seq::new(
        rows.len(),
        |i: int|
            chapter(rows[i], (rows.len() - i) as usize, or_epoch(utc_time(plain(rows[i].time)))),
    )
}

/// Makes chapters of what the list shows, newest first: the last has the number one.
pub fn chapter_entries(rows: Vec<ChapterRow>) -> (list: Vec<ChapterInfo>)
    ensures
        views(list@) == numbered(views(rows@)),
{
    let ghost all = numbered(views(rows@));
    let count: usize = rows.len();
    let mut number: usize = count;
    let mut list: Vec<ChapterInfo> = Vec::new();
    assert(views(list@) =~= all.take(0));
    for row in cursor: rows.into_iter()
        invariant
            cursor.seq() == rows@,
            count == rows@.len(),
            number == count - cursor.index(),
            all == numbered(views(rows@)),
            views(list@) == all.take(cursor.index() as int),
    {
        let ghost i = cursor.index() as int;
        let time = plain_text(row.time.clone());
        let uploaded = parse_upload_timestamp(time.as_str());
        let info = chapter_entry(row, number, uploaded);
        proof {
            lemma_push_step(list@, info, all, i);
        }
        list.push(info);
        number -= 1;
    }
    assert(all.take(count as int) =~= all);
    list
}

/// Where a chapter stands in the list.
pub const CHAPTER: &'static str = "body > div.flex.items-center";

/// Where the time of its upload stands.
pub const CHAPTER_TIME: &'static str = "a > time.text-datetime.opacity-50";

/// Where its title stands.
pub const CHAPTER_TITLE: &'static str = "a > span.grow.flex.items-center.gap-2 > span";

/// What the reader of chapters looks for.
pub open spec fn chapter_selectors() -> Seq<Seq<char>> {
    seq![CHAPTER@, CHAPTER_TIME@, LINK@, CHAPTER_TITLE@]
}

/// What the list of chapters shows of the one at an element.
pub open spec fn row_at(nodes: Seq<(bool, Seq<char>)>, node: usize) -> ChapterRowView {
    ChapterRowView {
        title: first_markup(nodes, selected_in(nodes, node, CHAPTER_TITLE@)),
        link: first_attribute(nodes, selected_in(nodes, node, LINK@), "href"@),
        time: first_markup(nodes, selected_in(nodes, node, CHAPTER_TIME@)),
    }
}

/// What the list of chapters shows.
pub open spec fn rows_in(nodes: Seq<(bool, Seq<char>)>) -> Seq<ChapterRowView> {
    found(nodes, None, CHAPTER@).map_values(|node: usize| row_at(nodes, node))
}

/// Reads what the list of chapters shows.
pub(crate) fn read_rows(doc: &Html) -> (rows: Vec<ChapterRow>)
    requires
        bad_selector(chapter_selectors()) is None,
    ensures
        views(rows@) == rows_in(nodes_of(*doc)),
{
    let ghost nodes = nodes_of(*doc);
    let ghost all = rows_in(nodes);
    proof {
        lemma_all_selectors(chapter_selectors());
        let s = chapter_selectors();
        assert(is_selector(s[0]) && is_selector(s[1]) && is_selector(s[2]) && is_selector(s[3]));
    }
    let places = select(doc, None, CHAPTER);
    let mut rows: Vec<ChapterRow> = Vec::new();
    let mut i: usize = 0;
    assert(views(rows@) =~= all.take(0));
    while i < places.len()
        invariant
            i <= places@.len(),
            is_selector(CHAPTER_TITLE@),
            is_selector(LINK@),
            is_selector(CHAPTER_TIME@),
            nodes == nodes_of(*doc),
            are_elements(nodes, places@),
            places@ == found(nodes, None, CHAPTER@),
            all == rows_in(nodes),
            views(rows@) == all.take(i as int),
        decreases places@.len() - i,
    {
        assert(is_element(nodes, places@[i as int]));
        let scope = Some(places[i]);
        let row = ChapterRow {
            title: first_inner_html(doc, scope, CHAPTER_TITLE),
            link: first_attr(doc, scope, LINK, "href"),
            time: first_inner_html(doc, scope, CHAPTER_TIME),
        };
        proof {
            lemma_push_step(rows@, row, all, i as int);
        }
        rows.push(row);
        i += 1;
    }
    assert(all.take(i as int) =~= all);
    rows
}

/// The chapters that a list shows.
pub open spec fn chapter_list(nodes: Seq<(bool, Seq<char>)>) -> Result<
    Seq<ChapterInfoView>,
    ErrorView,
> {
    match bad_selector(chapter_selectors()) {
        Some(bad) => Err(ErrorView::Selector(bad)),
        None => Ok(numbered(rows_in(nodes))),
    }
}

/// Reads the chapters that a list shows.
pub fn get_chapters(body: &str) -> (result: Result<Vec<ChapterInfo>, Error>)
    requires
        body.len() <= LARGEST_PAGE,
    ensures
        listing(result) == chapter_list(parsed_nodes(body@)),
{
    let selectors: [&str; 4] = [CHAPTER, CHAPTER_TIME, LINK, CHAPTER_TITLE];
    assert(views(selectors@) =~= chapter_selectors());
    if let Err(error) = check_selectors(&selectors) {
        return Err(error);
    }
    let doc = parse_document(body);
    let rows = read_rows(&doc);
    Ok(chapter_entries(rows))
}

/// Reads the chapters that a list shows, if the page is not too large.
pub fn try_get_chapters(body: &str) -> (result: Result<Vec<ChapterInfo>, Error>)
    ensures
        listing(result) == if_it_fits(body.len(), chapter_list(parsed_nodes(body@))),
{
    if body.len() > LARGEST_PAGE {
        return Err(Error::PageTooLarge(body.len()));
    }
    get_chapters(body)
}

// ---------------------------------------------------------------------------
// Pages
// ---------------------------------------------------------------------------

/// Where a page stands.
pub const PANEL: &'static str = "section.w-full.pb-4.cursor-pointer > img.mx-auto";

/// The addresses of pages, empty where there is none.
pub open spec fn page_addresses(sources: Seq<Option<Seq<char>>>) -> Seq<Seq<char>> {
    sources.map_values(|source: Option<Seq<char>>| or_text(source, ""@))
}

/// The addresses of pages, empty where there is none.
pub fn page_entries(sources: Vec<Option<String>>) -> (list: Vec<String>)
    ensures
        views(list@) == page_addresses(option_views(sources@)),
{
    let ghost all = page_addresses(option_views(sources@));
    let mut list: Vec<String> = Vec::new();
    assert(views(list@) =~= all.take(0));
    for source in cursor: sources.into_iter()
        invariant
            cursor.seq() == sources@,
            all == page_addresses(option_views(sources@)),
            views(list@) == all.take(cursor.index() as int),
    {
        let ghost i = cursor.index() as int;
        let address = text_or(source, "");
        proof {
            lemma_push_step(list@, address, all, i);
        }
        list.push(address);
    }
    assert(all.take(sources@.len() as int) =~= all);
    list
}

/// The addresses of the pages that a chapter shows.
pub open spec fn page_list(nodes: Seq<(bool, Seq<char>)>) -> Result<Seq<Seq<char>>, ErrorView> {
    match bad_selector(seq![PANEL@]) {
        Some(bad) => Err(ErrorView::Selector(bad)),
        None => Ok(page_addresses(attributes(nodes, found(nodes, None, PANEL@), "src"@))),
    }
}

/// Reads the addresses of the pages that a chapter shows.
pub fn get_pages(body: &str) -> (result: Result<Vec<String>, Error>)
    requires
        body.len() <= LARGEST_PAGE,
    ensures
        listing(result) == page_list(parsed_nodes(body@)),
{
    let selectors: [&str; 1] = [PANEL];
    assert(views(selectors@) =~= seq![PANEL@]);
    if let Err(error) = check_selectors(&selectors) {
        return Err(error);
    }
    proof {
        lemma_all_selectors(seq![PANEL@]);
        assert(is_selector(seq![PANEL@][0]));
    }
    let doc = parse_document(body);
    let sources = attrs(&doc, None, PANEL, "src");
    Ok(page_entries(sources))
}

/// Reads the addresses of the pages that a chapter shows, if the page is not too large.
pub fn try_get_pages(body: &str) -> (result: Result<Vec<String>, Error>)
    ensures
        listing(result) == if_it_fits(body.len(), page_list(parsed_nodes(body@))),
{
    if body.len() > LARGEST_PAGE {
        return Err(Error::PageTooLarge(body.len()));
    }
    get_pages(body)
}

// ---------------------------------------------------------------------------
// Laws
// ---------------------------------------------------------------------------

/// The pages of a list follow each other without a gap and without showing a series twice: each
/// begins where the one before it ends. What is less than the first page is the first page, at the
/// same address.
pub proof fn law_pages_follow_each_other(page: i64, suburl: Seq<char>)
    ensures
        1 <= page < i64::MAX ==> page_offset((page + 1) as i64) == page_offset(page) + PAGE_SIZE,
        page < 1 ==> list_address(page, suburl) == list_address(1, suburl),
        page_offset(1) == 0,
{
}

/// Whatever a list shows, each series that is read from it is one of this source, at a path of
/// series.
pub proof fn law_listed_series_are_of_this_source(nodes: Seq<(bool, Seq<char>)>)
    ensures
        manga_list(nodes) matches Ok(list) ==> forall|i: int|
            0 <= i < list.len() ==> (#[trigger] list[i]).source_id == ID && begins_with(
                list[i].path,
                "/series/"@,
            ),
{
    if let Ok(list) = manga_list(nodes) {
        assert forall|i: int| 0 <= i < list.len() implies (#[trigger] list[i]).source_id == ID
            && begins_with(list[i].path, "/series/"@) by {
            assert(list[i].path.subrange(0, "/series/"@.len() as int) =~= "/series/"@);
        }
    }
}

/// Different pages of a list have different addresses.
pub proof fn law_pages_have_own_addresses(page: i64, other: i64, suburl: Seq<char>)
    requires
        1 <= page,
        1 <= other,
        page != other,
    ensures
        list_address(page, suburl) != list_address(other, suburl),
{
    if list_address(page, suburl) == list_address(other, suburl) {
        let start = (URL@ + suburl).len() as int;
        let a = list_address(page, suburl);
        let b = list_address(other, suburl);
        assert(a.skip(start) =~= decimal(page_offset(page)));
        assert(b.skip(start) =~= decimal(page_offset(other)));
        lemma_digits_injective(page_offset(page) as nat, page_offset(other) as nat);
    }
}

/// Different queries are looked for at different addresses, whatever they hold.
pub proof fn law_queries_have_own_addresses(page: i64, query: Seq<char>, other: Seq<char>)
    requires
        list_address(page, search_list(query)) == list_address(page, search_list(other)),
    ensures
        query == other,
{
    let a = list_address(page, search_list(query));
    let start = (URL@ + SEARCH_START@).len() as int;
    let tail = SEARCH_END@ + decimal(page_offset(page));
    assert(a =~= URL@ + SEARCH_START@ + encoded(query) + tail);
    assert(a =~= URL@ + SEARCH_START@ + encoded(other) + tail);
    assert(a.subrange(start, a.len() - tail.len()) =~= encoded(query));
    assert(a.subrange(start, a.len() - tail.len()) =~= encoded(other));
    law_encoding_tells_texts_apart(query, other);
}

/// The chapters of a list are numbered down to one, and their paths say that they are chapters.
pub proof fn law_chapters_are_numbered_down(rows: Seq<ChapterRowView>, i: int)
    requires
        0 <= i < rows.len(),
        rows.len() <= usize::MAX,
    ensures
        numbered(rows).len() == rows.len(),
        numbered(rows)[i].number == ChapterNumberView::Ordinal((rows.len() - i) as usize),
        numbered(rows)[rows.len() - 1].number == ChapterNumberView::Ordinal(1),
        begins_with(numbered(rows)[i].path, "/chapters/"@),
{
    let path = numbered(rows)[i].path;
    assert(path.subrange(0, "/chapters/"@.len() as int) =~= "/chapters/"@);
}

/// The section that is found has the label that was asked for, and it is the first that has it.
pub proof fn law_section_is_first(sections: Seq<SectionView>, label: Seq<char>)
    ensures
        match section_named(sections, label) {
            Some(section) => exists|i: int|
                {
                    &&& 0 <= i < sections.len()
                    &&& (#[trigger] sections[i]) == section
                    &&& section.is_named(label)
                    &&& forall|j: int| 0 <= j < i ==> !(#[trigger] sections[j]).is_named(label)
                },
            None => forall|j: int|
                0 <= j < sections.len() ==> !(#[trigger] sections[j]).is_named(label),
        },
    decreases sections.len(),
{
    if sections.len() > 0 && !sections[0].is_named(label) {
        let rest = sections.drop_first();
        law_section_is_first(rest, label);
        match section_named(sections, label) {
            Some(section) => {
                let i = choose|i: int|
                    {
                        &&& 0 <= i < rest.len()
                        &&& (#[trigger] rest[i]) == section
                        &&& section.is_named(label)
                        &&& forall|j: int| 0 <= j < i ==> !(#[trigger] rest[j]).is_named(label)
                    };
                assert(sections[i + 1] == section);
                assert forall|j: int| 0 <= j < i + 1 implies !(#[trigger] sections[j]).is_named(
                    label,
                ) by {
                    if j > 0 {
                        assert(rest[j - 1] == sections[j]);
                    }
                }
            },
            None => {
                assert forall|j: int| 0 <= j < sections.len() implies !(
                #[trigger] sections[j]).is_named(label) by {
                    if j > 0 {
                        assert(rest[j - 1] == sections[j]);
                    }
                }
            },
        }
    } else if sections.len() > 0 {
        assert(sections[0] == section_named(sections, label)->0);
    }
}

/// What the source is: its number, its name, its address and its icon; and the lists of series that
/// it asks for.
pub proof fn law_this_source()
    ensures
        ID == 28,
        NAME@ == "WeebCentral"@,
        URL@ == "https://weebcentral.com"@,
        ICON@ == "https://weebcentral.com/static/images/144.png"@,
        POPULAR@
            == "/search/data?limit=32&author=&text=&sort=Popularity&order=Descending&official=Any&anime=Any&adult=Any&display_mode=Full%20Display&offset="@,
        LATEST@
            == "/search/data?limit=32&sort=Latest+Updates&order=Descending&official=Any&anime=Any&adult=Any&display_mode=Full+Display&offset="@,
{
}

/// A page of a list is asked for by the number of its first series: 32 for each page before it, and
/// none for what is less than the second page. Where that number is none of 64 bits, there is no
/// address.
pub proof fn law_list_address(page: i64, suburl: Seq<char>)
    ensures
        page <= 1 ==> page_offset(page) == 0,
        page > 1 ==> page_offset(page) == 32 * (page - 1),
        page <= 1 ==> address_if_reached(page, suburl) == Some(
            "https://weebcentral.com"@ + suburl + decimal(0),
        ),
        1 < page && 32 * (page - 1) <= 0x7fff_ffff_ffff_ffff ==> address_if_reached(page, suburl)
            == Some("https://weebcentral.com"@ + suburl + decimal(32 * (page - 1))),
        1 < page && 32 * (page - 1) > 0x7fff_ffff_ffff_ffff ==> address_if_reached(
            page,
            suburl,
        ) is None,
        list_address(page, suburl) == "https://weebcentral.com"@ + suburl + decimal(
            page_offset(page),
        ),
{
}

/// A search carries the encoded query between the names of its fields.
pub proof fn law_search_list(query: Seq<char>)
    ensures
        search_list(query) == "/search/data?author=&text="@ + encoded(query)
            + "&sort=Latest%20Updates&order=Descending&official=Any&anime=Any&adult=Any&display_mode=Full%20Display&offset="@,
{
}

/// What a link leads to is named by its fifth part between slashes; a link with fewer parts, and no
/// link, name nothing.
pub proof fn law_site_id(link: Seq<char>)
    ensures
        split(link, '/').len() > 4 ==> site_id(Some(link)) == split(link, '/')[4],
        split(link, '/').len() <= 4 ==> site_id(Some(link)).len() == 0,
        site_id(None).len() == 0,
{
    reveal_strlit("");
    law_piece(link, '/', 4);
    law_split(""@, '/');
    assert(split(""@, '/').len() == 1);
    law_piece(""@, '/', 4);
}

/// The address of a series or a chapter holds its name between the fourth slash and the fifth, or
/// the end.
pub proof fn law_site_id_stands_in_link(
    before: Seq<Seq<char>>,
    id: Seq<char>,
    after: Seq<Seq<char>>,
)
    requires
        before.len() == 4,
        forall|i: int| 0 <= i < 4 ==> !(#[trigger] before[i]).contains('/'),
        !id.contains('/'),
        forall|i: int| 0 <= i < after.len() ==> !(#[trigger] after[i]).contains('/'),
    ensures
        site_id(Some(joined(before.push(id) + after, seq!['/']))) == id,
{
    let parts = before.push(id) + after;
    assert forall|i: int| 0 <= i < parts.len() implies !(#[trigger] parts[i]).contains('/') by {
        if i < 4 {
            assert(parts[i] == before[i]);
        } else if i > 4 {
            assert(parts[i] == after[i - 5]);
        }
    }
    law_split_joined(parts, '/');
    assert(parts[4] == id);
    law_site_id(joined(parts, seq!['/']));
}

/// A title is its markup, trimmed, and what has none is called `Unknown Title`; another text that is
/// missing is empty.
pub proof fn law_texts(markup: Seq<char>)
    ensures
        title_of(Some(markup)) == trimmed(markup),
        title_of(None) == "Unknown Title"@,
        plain(Some(markup)) == trimmed(markup),
        plain(None).len() == 0,
{
    reveal_strlit("");
}

/// A series is listed with what its own card shows: its title, its authors, the labels behind the
/// third as its genres, its second fact as its status, its cover, and a path that ends with the
/// name in its link.
pub proof fn law_listed_series_is_card(card: ListCardView)
    ensures
        listed(card).source_id == 28,
        card.title matches Some(title) ==> listed(card).title == trimmed(title),
        card.title is None ==> listed(card).title == "Unknown Title"@,
        listed(card).author.len() == card.authors.len(),
        forall|i: int|
            0 <= i < card.authors.len() ==> #[trigger] listed(card).author[i] == trimmed(
                card.authors[i],
            ),
        listed(card).genre.len() == if card.labels.len() > 3 {
            card.labels.len() - 3
        } else {
            0
        },
        forall|i: int|
            0 <= i < card.labels.len() - 3 ==> #[trigger] listed(card).genre[i] == trimmed(
                card.labels[i + 3],
            ),
        listed(card).genre == genres(card.labels),
        card.facts.len() >= 2 ==> listed(card).status == Some(trimmed(card.facts[1])),
        card.facts.len() < 2 ==> listed(card).status == Some(Seq::<char>::empty()),
        listed(card).description is None,
        card.link matches Some(link) ==> split(link, '/').len() > 4 ==> listed(card).path
            == "/series/"@ + split(link, '/')[4],
        card.link matches Some(link) ==> split(link, '/').len() <= 4 ==> listed(card).path
            == "/series/"@,
        card.link is None ==> listed(card).path == "/series/"@,
        card.cover matches Some(cover) ==> listed(card).cover_url == cover,
        card.cover is None ==> listed(card).cover_url.len() == 0,
{
    reveal_strlit("");
    assert(""@ =~= Seq::<char>::empty());
    let link = or_text(card.link, ""@);
    law_site_id(link);
    assert("/series/"@ + Seq::<char>::empty() =~= "/series/"@);
    if site_id(card.link).len() == 0 {
        assert(site_id(card.link) =~= Seq::<char>::empty());
    }
    law_site_id(""@);
    assert forall|i: int| 0 <= i < card.labels.len() - 3 implies #[trigger] listed(card).genre[i]
        == trimmed(card.labels[i + 3]) by {
        assert(card.labels.skip(3)[i] == card.labels[i + 3]);
    }
}

/// A list page is read card by card, and each series comes from the markup inside its own card.
pub proof fn law_list_page(nodes: Seq<(bool, Seq<char>)>)
    ensures
        bad_selector(
            seq![
                "article.bg-base-300"@,
                "div.text-ellipsis.truncate"@,
                "div > span > a.link.link-info.link-hover"@,
                "div.opacity-70 > span"@,
                "strong + span"@,
                "picture img"@,
                "a"@,
            ],
        ) matches Some(bad) ==> manga_list(nodes) == Err::<Seq<MangaInfoView>, ErrorView>(
            ErrorView::Selector(bad),
        ),
        bad_selector(
            seq![
                "article.bg-base-300"@,
                "div.text-ellipsis.truncate"@,
                "div > span > a.link.link-info.link-hover"@,
                "div.opacity-70 > span"@,
                "strong + span"@,
                "picture img"@,
                "a"@,
            ],
        ) is None ==> (manga_list(nodes) matches Ok(list) && {
            let places = selected(nodes, "article.bg-base-300"@);
            &&& list.len() == places.len()
            &&& forall|i: int|
                0 <= i < places.len() ==> #[trigger] list[i] == listed(card_at(nodes, places[i]))
        }),
{
    let selectors = seq![
        "article.bg-base-300"@,
        "div.text-ellipsis.truncate"@,
        "div > span > a.link.link-info.link-hover"@,
        "div.opacity-70 > span"@,
        "strong + span"@,
        "picture img"@,
        "a"@,
    ];
    assert(list_selectors() =~= selectors);
}

/// A card is read from the elements inside its own: the first title, link and cover, and all
/// authors, labels and facts in order.
pub proof fn law_card_at(nodes: Seq<(bool, Seq<char>)>, node: usize)
    ensures
        ({
            let card = card_at(nodes, node);
            let titles = selected_in(nodes, node, "div.text-ellipsis.truncate"@);
            let authors = selected_in(nodes, node, "div > span > a.link.link-info.link-hover"@);
            let labels = selected_in(nodes, node, "div.opacity-70 > span"@);
            let facts = selected_in(nodes, node, "strong + span"@);
            let links = selected_in(nodes, node, "a"@);
            let covers = selected_in(nodes, node, "picture img"@);
            &&& titles.len() == 0 ==> card.title is None
            &&& titles.len() > 0 ==> card.title == Some(markup(nodes, titles[0]))
            &&& card.authors.len() == authors.len()
            &&& forall|i: int|
                0 <= i < authors.len() ==> #[trigger] card.authors[i] == markup(nodes, authors[i])
            &&& card.labels.len() == labels.len()
            &&& forall|i: int|
                0 <= i < labels.len() ==> #[trigger] card.labels[i] == markup(nodes, labels[i])
            &&& card.facts.len() == facts.len()
            &&& forall|i: int|
                0 <= i < facts.len() ==> #[trigger] card.facts[i] == markup(nodes, facts[i])
            &&& links.len() == 0 ==> card.link is None
            &&& links.len() > 0 ==> card.link == attribute(nodes, links[0], "href"@)
            &&& covers.len() == 0 ==> card.cover is None
            &&& covers.len() > 0 ==> card.cover == attribute(nodes, covers[0], "src"@)
        }),
{
}

/// A section has a label where its text, trimmed and without the colons at its end, is the label.
pub proof fn law_section_is_named(section: SectionView, label: Seq<char>)
    ensures
        section.label is None ==> !section.is_named(label),
        section.label matches Some(text) ==> (section.is_named(label) <==> trim_end_char(
            trimmed(text),
            ':',
        ) == label),
{
}

/// A series has what its page shows, at the path that was asked for: its title, its description and
/// its cover.
pub proof fn law_series_of_page(path: Seq<char>, page: DetailPageView)
    ensures
        details(path, page).source_id == 28,
        details(path, page).path == path,
        page.title matches Some(title) ==> details(path, page).title == trimmed(title),
        page.title is None ==> details(path, page).title == "Unknown Title"@,
        page.description matches Some(text) ==> details(path, page).description == Some(
            trimmed(text),
        ),
        page.description is None ==> details(path, page).description == Some(Seq::<char>::empty()),
        page.cover matches Some(cover) ==> details(path, page).cover_url == cover,
        page.cover is None ==> details(path, page).cover_url.len() == 0,
{
    reveal_strlit("");
    assert(""@ =~= Seq::<char>::empty());
}

proof fn lemma_first_section(sections: Seq<SectionView>, label: Seq<char>, i: int)
    requires
        0 <= i < sections.len(),
        sections[i].is_named(label),
        forall|j: int| 0 <= j < i ==> !(#[trigger] sections[j]).is_named(label),
    ensures
        section_named(sections, label) == Some(sections[i]),
    decreases i,
{
    if i > 0 {
        let rest = sections.drop_first();
        assert(!sections[0].is_named(label));
        assert(rest[i - 1] == sections[i]);
        assert forall|j: int| 0 <= j < i - 1 implies !(#[trigger] rest[j]).is_named(label) by {
            assert(rest[j] == sections[j + 1]);
        }
        lemma_first_section(rest, label, i - 1);
    }
}

/// The authors of a series are the links of the first section called `Author(s)`, its genres those
/// of the first called `Tags(s)`, its status the one next to the label of the first called
/// `Status`. Section `i` is the first with the label.
pub proof fn law_series_of_sections(
    path: Seq<char>,
    page: DetailPageView,
    label: Seq<char>,
    i: int,
)
    requires
        0 <= i < page.sections.len(),
        page.sections[i].is_named(label),
        forall|j: int| 0 <= j < i ==> !(#[trigger] page.sections[j]).is_named(label),
    ensures
        ({
            let links = page.sections[i].links;
            let trimmed_links = Seq::new(links.len(), |k: int| trimmed(links[k]));
            &&& label == "Author(s)"@ ==> details(path, page).author == trimmed_links
            &&& label == "Tags(s)"@ ==> details(path, page).genre == trimmed_links
            &&& label == "Status"@ ==> details(path, page).status == match page.sections[i].status {
                Some(text) => Some(trimmed(text)),
                None => Some(Seq::empty()),
            }
            &&& links_of(page.sections, label) == trimmed_links
        }),
{
    reveal_strlit("");
    lemma_first_section(page.sections, label, i);
    let links = page.sections[i].links;
    assert(trimmed_all(links) =~= Seq::new(links.len(), |k: int| trimmed(links[k])));
    assert(""@ =~= Seq::<char>::empty());
}

/// A series whose page has no section of a name has no authors, no genres, and an empty status.
pub proof fn law_series_without_section(path: Seq<char>, page: DetailPageView, label: Seq<char>)
    requires
        forall|i: int|
            0 <= i < page.sections.len() ==> !(#[trigger] page.sections[i]).is_named(label),
    ensures
        label == "Author(s)"@ ==> details(path, page).author.len() == 0,
        label == "Tags(s)"@ ==> details(path, page).genre.len() == 0,
        label == "Status"@ ==> details(path, page).status == Some(Seq::<char>::empty()),
        links_of(page.sections, label).len() == 0,
{
    reveal_strlit("");
    assert(""@ =~= Seq::<char>::empty());
    law_section_is_first(page.sections, label);
}

/// The page of a series is read from its title, its description, its cover and its sidebar; each
/// section of the sidebar from the elements inside its own.
pub proof fn law_series_page(path: Seq<char>, nodes: Seq<(bool, Seq<char>)>)
    ensures
        manga_detail(path, nodes) == match bad_selector(
            seq![
                "h1.hidden.md\\:block.text-2xl.font-bold"@,
                "ul.flex.flex-col.gap-4 > li"@,
                "strong"@,
                "span > a.link.link-info.link-hover"@,
                "strong + a.link.link-info.link-hover"@,
                "ul.flex.flex-col.gap-4 > li > strong + p.whitespace-pre-wrap.break-words"@,
                "picture img"@,
            ],
        ) {
            Some(bad) => Err(ErrorView::Selector(bad)),
            None => Ok(details(path, detail_page(nodes))),
        },
        ({
            let page = detail_page(nodes);
            let titles = selected(nodes, "h1.hidden.md\\:block.text-2xl.font-bold"@);
            let texts = selected(
                nodes,
                "ul.flex.flex-col.gap-4 > li > strong + p.whitespace-pre-wrap.break-words"@,
            );
            let covers = selected(nodes, "picture img"@);
            let places = selected(nodes, "ul.flex.flex-col.gap-4 > li"@);
            &&& titles.len() == 0 ==> page.title is None
            &&& titles.len() > 0 ==> page.title == Some(markup(nodes, titles[0]))
            &&& texts.len() == 0 ==> page.description is None
            &&& texts.len() > 0 ==> page.description == Some(markup(nodes, texts[0]))
            &&& covers.len() == 0 ==> page.cover is None
            &&& covers.len() > 0 ==> page.cover == attribute(nodes, covers[0], "src"@)
            &&& page.sections.len() == places.len()
            &&& forall|i: int|
                0 <= i < places.len() ==> #[trigger] page.sections[i] == section_at(nodes, places[i])
        }),
{
    let selectors = seq![
        "h1.hidden.md\\:block.text-2xl.font-bold"@,
        "ul.flex.flex-col.gap-4 > li"@,
        "strong"@,
        "span > a.link.link-info.link-hover"@,
        "strong + a.link.link-info.link-hover"@,
        "ul.flex.flex-col.gap-4 > li > strong + p.whitespace-pre-wrap.break-words"@,
        "picture img"@,
    ];
    assert(detail_selectors() =~= selectors);
}

/// A section is read from the elements inside its own: the text of its first label, its links, and
/// the first link next to a label.
pub proof fn law_section_at(nodes: Seq<(bool, Seq<char>)>, node: usize)
    ensures
        ({
            let section = section_at(nodes, node);
            let labels = selected_in(nodes, node, "strong"@);
            let links = selected_in(nodes, node, "span > a.link.link-info.link-hover"@);
            let states = selected_in(nodes, node, "strong + a.link.link-info.link-hover"@);
            &&& labels.len() == 0 ==> section.label is None
            &&& labels.len() > 0 ==> section.label == Some(
                joined(pieces(nodes, labels[0]), Seq::empty()),
            )
            &&& section.links.len() == links.len()
            &&& forall|i: int|
                0 <= i < links.len() ==> #[trigger] section.links[i] == markup(nodes, links[i])
            &&& states.len() == 0 ==> section.status is None
            &&& states.len() > 0 ==> section.status == Some(markup(nodes, states[0]))
        }),
{
    reveal_strlit("");
    assert(""@ =~= Seq::<char>::empty());
}

/// Each chapter is made of its own row: its title is that of the row, its path ends with the name in
/// the row's link, and it came at the Unix time that is read from the row's time, trimmed, or at 0
/// where that is no time.
pub proof fn law_chapters_are_rows(rows: Seq<ChapterRowView>, i: int)
    requires
        0 <= i < rows.len(),
    ensures
        ({
            let listed = numbered(rows)[i];
            let row = rows[i];
            &&& numbered(rows).len() == rows.len()
            &&& listed.source_id == 28
            &&& listed.scanlator is None
            &&& row.title matches Some(title) ==> listed.title == trimmed(title)
            &&& row.title is None ==> listed.title == "Unknown Title"@
            &&& row.link matches Some(link) ==> split(link, '/').len() > 4 ==> listed.path
                == "/chapters/"@ + split(link, '/')[4]
            &&& row.link matches Some(link) ==> split(link, '/').len() <= 4 ==> listed.path
                == "/chapters/"@
            &&& row.link is None ==> listed.path == "/chapters/"@
            &&& row.time matches Some(time) ==> listed.uploaded == match utc_time(trimmed(time)) {
                Some(seconds) => seconds,
                None => 0,
            }
            &&& row.time is None ==> listed.uploaded == match utc_time(Seq::empty()) {
                Some(seconds) => seconds,
                None => 0,
            }
        }),
{
    reveal_strlit("");
    assert(""@ =~= Seq::<char>::empty());
    law_site_id(or_text(rows[i].link, ""@));
    law_site_id(""@);
    if site_id(rows[i].link).len() == 0 {
        assert(site_id(rows[i].link) =~= Seq::<char>::empty());
    }
    assert("/chapters/"@ + Seq::<char>::empty() =~= "/chapters/"@);
}

/// A chapter keeps the number and the time that it is made with; the rest comes from its row alone.
pub proof fn law_chapter_of_row(row: ChapterRowView, number: usize, uploaded: i64)
    ensures
        chapter(row, number, uploaded).number == ChapterNumberView::Ordinal(number),
        chapter(row, number, uploaded).uploaded == uploaded,
        chapter(row, number, uploaded).title == numbered(seq![row])[0].title,
        chapter(row, number, uploaded).path == numbered(seq![row])[0].path,
        chapter(row, number, uploaded).source_id == 28,
        chapter(row, number, uploaded).scanlator is None,
{
}

/// The list of chapters is read row by row, each from the elements inside its own.
pub proof fn law_chapter_page(nodes: Seq<(bool, Seq<char>)>)
    ensures
        chapter_list(nodes) == match bad_selector(
            seq![
                "body > div.flex.items-center"@,
                "a > time.text-datetime.opacity-50"@,
                "a"@,
                "a > span.grow.flex.items-center.gap-2 > span"@,
            ],
        ) {
            Some(bad) => Err(ErrorView::Selector(bad)),
            None => Ok(numbered(rows_in(nodes))),
        },
        ({
            let places = selected(nodes, "body > div.flex.items-center"@);
            &&& rows_in(nodes).len() == places.len()
            &&& forall|i: int|
                0 <= i < places.len() ==> {
                    let row = #[trigger] rows_in(nodes)[i];
                    let titles = selected_in(
                        nodes,
                        places[i],
                        "a > span.grow.flex.items-center.gap-2 > span"@,
                    );
                    let links = selected_in(nodes, places[i], "a"@);
                    let times = selected_in(nodes, places[i], "a > time.text-datetime.opacity-50"@);
                    &&& titles.len() == 0 ==> row.title is None
                    &&& titles.len() > 0 ==> row.title == Some(markup(nodes, titles[0]))
                    &&& links.len() == 0 ==> row.link is None
                    &&& links.len() > 0 ==> row.link == attribute(nodes, links[0], "href"@)
                    &&& times.len() == 0 ==> row.time is None
                    &&& times.len() > 0 ==> row.time == Some(markup(nodes, times[0]))
                }
        }),
{
    assert(chapter_selectors() =~= seq![
        "body > div.flex.items-center"@,
        "a > time.text-datetime.opacity-50"@,
        "a"@,
        "a > span.grow.flex.items-center.gap-2 > span"@,
    ]);
}

/// Each image of a chapter gives one page, in order: its address as it stands, or an empty text.
pub proof fn law_pages_are_images(sources: Seq<Option<Seq<char>>>, i: int)
    requires
        0 <= i < sources.len(),
    ensures
        page_addresses(sources).len() == sources.len(),
        sources[i] matches Some(address) ==> page_addresses(sources)[i] == address,
        sources[i] is None ==> page_addresses(sources)[i].len() == 0,
{
    reveal_strlit("");
}

/// The pages of a chapter are the images inside its sections.
pub proof fn law_reader_page(nodes: Seq<(bool, Seq<char>)>)
    ensures
        !is_selector("section.w-full.pb-4.cursor-pointer > img.mx-auto"@) ==> page_list(nodes)
            == Err::<Seq<Seq<char>>, ErrorView>(
            ErrorView::Selector("section.w-full.pb-4.cursor-pointer > img.mx-auto"@),
        ),
        is_selector("section.w-full.pb-4.cursor-pointer > img.mx-auto"@) ==> (page_list(
            nodes,
        ) matches Ok(list) && {
            let places = selected(nodes, "section.w-full.pb-4.cursor-pointer > img.mx-auto"@);
            &&& list.len() == places.len()
            &&& forall|i: int|
                0 <= i < places.len() ==> match attribute(nodes, places[i], "src"@) {
                    Some(address) => #[trigger] list[i] == address,
                    None => list[i].len() == 0,
                }
        }),
{
    reveal_strlit("");
    let panel = "section.w-full.pb-4.cursor-pointer > img.mx-auto"@;
    let selectors = seq![panel];
    assert(selectors[0] == panel);
    assert(selectors.subrange(1, 1) =~= Seq::empty());
    assert(bad_selector(selectors.subrange(1, 1)) is None);
}

} // verus!
