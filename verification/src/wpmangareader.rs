//! Sites that run the WP Manga Reader theme: their lists of series, a series, its chapters and
//! pages.
//!
//! What a page shows is first read into plain values; the rest works on those.
use crate::dates::{formatted_time, or_epoch, parse_formatted, time_or_epoch};
use crate::dom::{
    all_pieces, are_elements, attr, attribute, attributes, attrs, bad_selector, check_selectors,
    closing_text, first, first_attr, first_attribute, found, if_it_fits, is_element, is_selector,
    last_child_text, lemma_all_selectors, nodes_of, option_views, parse_document, parsed_nodes,
    select, selected, selected_in, texts, whole_text, whole_texts, LARGEST_PAGE,
};
use crate::error::{finding, listing, Error, ErrorView};
use crate::models::{
    ChapterInfo, ChapterInfoView, ChapterNumber, ChapterNumberView, MangaInfo, MangaInfoView,
    Request, RequestView,
};
use crate::networking::image::header_views;
use crate::text::{
    concat, decimal, is_blank, join, joined, law_piece, law_split, lemma_push_step,
    lemma_split_not_empty, nth_piece, or_text, piece, remove_all, split, text_or, to_decimal, trim,
    trim_all, trimmed, trimmed_all, view_opt, views, without,
};
use scraper::Html;
use vstd::prelude::*;

verus! {

// ---------------------------------------------------------------------------
// Requests
// ---------------------------------------------------------------------------

/// A request for a page of the site at `url`: the site is its referer.
pub open spec fn from_site(url: Seq<char>, address: Seq<char>) -> RequestView {
    RequestView { url: address, headers: seq![("Referer"@, url)] }
}

/// A request for a page of the site at `url`.
fn site_request(url: &str, address: String) -> (request: Request)
    ensures
        request@ == from_site(url@, address@),
{
    let mut headers: Vec<(String, String)> = Vec::new();
    headers.push(("Referer".to_owned(), url.to_owned()));
    assert(header_views(headers@) =~= seq![("Referer"@, url@)]);
    Request { url: address, headers }
}

/// The address of a page of a list in some order.
pub open spec fn ordered_list(url: Seq<char>, page: i64, order: Seq<char>) -> Seq<char> {
    url + "/manga/?page="@ + decimal(page as int) + "&order="@ + order
}

/// The address of a page of a list in some order.
fn ordered_url(url: &str, page: i64, order: &str) -> (address: String)
    ensures
        address@ == ordered_list(url@, page, order@),
{
    let number = to_decimal(page);
    let mut address = concat(url, "/manga/?page=");
    address.append(number.as_str());
    address.append("&order=");
    address.append(order);
    address
}

/// The request for a page of the series that changed last.
pub fn latest_request(url: &str, page: i64) -> (request: Request)
    ensures
        request@ == from_site(url@, ordered_list(url@, page, "latest"@)),
{
    site_request(url, ordered_url(url, page, "latest"))
}

/// The request for a page of the most popular series.
pub fn popular_request(url: &str, page: i64) -> (request: Request)
    ensures
        request@ == from_site(url@, ordered_list(url@, page, "popular"@)),
{
    site_request(url, ordered_url(url, page, "popular"))
}

/// The request for a page of the series that match a query.
pub fn search_request(url: &str, page: i64, query: &str) -> (request: Request)
    ensures
        request@ == from_site(
            url@,
            url@ + "/page/"@ + decimal(page as int) + "/?s="@ + query@,
        ),
{
    let number = to_decimal(page);
    let mut address = concat(url, "/page/");
    address.append(number.as_str());
    address.append("/?s=");
    address.append(query);
    site_request(url, address)
}

/// The request for the series or for the pages of the chapter at `path`.
pub fn page_request(url: &str, path: &str) -> (request: Request)
    ensures
        request@ == from_site(url@, url@ + path@),
{
    site_request(url, concat(url, path))
}

/// The request for the chapters of the series at `path`.
pub fn chapters_request(url: &str, path: &str) -> (request: Request)
    ensures
        request@ == (RequestView {
            url: url@ + path@,
            headers: seq![("Referer"@, url@), ("X-Requested-With"@, "XMLHttpRequest"@)],
        }),
{
    let mut request = page_request(url, path);
    let ghost before = request.headers@;
    request.headers.push(("X-Requested-With".to_owned(), "XMLHttpRequest".to_owned()));
    assert(header_views(request.headers@) =~= header_views(before).push(
        ("X-Requested-With"@, "XMLHttpRequest"@),
    ));
    assert(header_views(before) =~= seq![("Referer"@, url@)]);
    assert(header_views(request.headers@) =~= seq![
        ("Referer"@, url@),
        ("X-Requested-With"@, "XMLHttpRequest"@),
    ]);
    request
}

// ---------------------------------------------------------------------------
// Images
// ---------------------------------------------------------------------------

/// Where an image says that it comes from. A page that loads its images late hides their addresses
/// in attributes of its own.
#[derive(Debug, Clone)]
pub struct Image {
    pub data_lazy_src: Option<String>,
    pub data_src: Option<String>,
    pub src: Option<String>,
}

/// An [`Image`] with its texts as sequences of characters.
pub struct ImageView {
    pub data_lazy_src: Option<Seq<char>>,
    pub data_src: Option<Seq<char>>,
    pub src: Option<Seq<char>>,
}

impl View for Image {
    type V = ImageView;

    open spec fn view(&self) -> ImageView {
        ImageView {
            data_lazy_src: view_opt(self.data_lazy_src),
            data_src: view_opt(self.data_src),
            src: view_opt(self.src),
        }
    }
}

impl ImageView {
    /// The address that counts: a hidden one before the one that is shown.
    pub open spec fn source(self) -> Option<Seq<char>> {
        match (self.data_lazy_src, self.data_src) {
            (Some(source), _) => Some(source),
            (None, Some(source)) => Some(source),
            (None, None) => self.src,
        }
    }
}

/// The address of an image: a hidden one before the one that is shown.
pub fn get_data_src(image: Image) -> (source: Option<String>)
    ensures
        view_opt(source) == image@.source(),
{
    match image.data_lazy_src {
        Some(source) => Some(source),
        None => match image.data_src {
            Some(source) => Some(source),
            None => image.src,
        },
    }
}

/// The image at an element.
pub open spec fn image_at(nodes: Seq<(bool, Seq<char>)>, node: usize) -> ImageView {
    ImageView {
        data_lazy_src: attribute(nodes, node, "data-lazy-src"@),
        data_src: attribute(nodes, node, "data-src"@),
        src: attribute(nodes, node, "src"@),
    }
}

/// Reads the image at an element.
pub(crate) fn read_image(doc: &Html, node: usize) -> (image: Image)
    requires
        is_element(nodes_of(*doc), node),
    ensures
        image@ == image_at(nodes_of(*doc), node),
{
    Image {
        data_lazy_src: attr(doc, node, "data-lazy-src"),
        data_src: attr(doc, node, "data-src"),
        src: attr(doc, node, "src"),
    }
}

/// The images at some elements.
pub open spec fn images_at(nodes: Seq<(bool, Seq<char>)>, list: Seq<usize>) -> Seq<ImageView> {
    list.map_values(|node: usize| image_at(nodes, node))
}

/// Reads the images at some elements.
pub(crate) fn read_images(doc: &Html, list: &Vec<usize>) -> (images: Vec<Image>)
    requires
        are_elements(nodes_of(*doc), list@),
    ensures
        views(images@) == images_at(nodes_of(*doc), list@),
{
    let ghost all = images_at(nodes_of(*doc), list@);
    let mut images: Vec<Image> = Vec::new();
    let mut i: usize = 0;
    assert(views(images@) =~= all.take(0));
    while i < list.len()
        invariant
            i <= list@.len(),
            are_elements(nodes_of(*doc), list@),
            all == images_at(nodes_of(*doc), list@),
            views(images@) == all.take(i as int),
        decreases list@.len() - i,
    {
        assert(is_element(nodes_of(*doc), list@[i as int]));
        let image = read_image(doc, list[i]);
        proof {
            lemma_push_step(images@, image, all, i as int);
        }
        images.push(image);
        i += 1;
    }
    assert(all.take(i as int) =~= all);
    images
}

/// The addresses of those images that have one.
pub open spec fn sources(images: Seq<ImageView>) -> Seq<Seq<char>>
    decreases images.len(),
{
    if images.len() == 0 {
        Seq::empty()
    } else {
        match images.last().source() {
            Some(source) => sources(images.drop_last()).push(source),
            None => sources(images.drop_last()),
        }
    }
}

/// The addresses of those images that have one.
pub fn image_sources(images: Vec<Image>) -> (list: Vec<String>)
    ensures
        views(list@) == sources(views(images@)),
{
    let ghost all = views(images@);
    let mut list: Vec<String> = Vec::new();
    assert(all.take(0) =~= Seq::empty());
    assert(views(list@) =~= Seq::empty());
    for image in cursor: images.into_iter()
        invariant
            cursor.seq() == images@,
            all == views(images@),
            views(list@) == sources(all.take(cursor.index() as int)),
    {
        let ghost now = all.take(cursor.index() + 1);
        let ghost before = list@;
        assert(now.drop_last() =~= all.take(cursor.index() as int));
        assert(now.last() == image@);
        if let Some(source) = get_data_src(image) {
            list.push(source);
            assert(views(list@) =~= views(before).push(source@));
        }
    }
    assert(all.take(images@.len() as int) =~= all);
    list
}

// ---------------------------------------------------------------------------
// A list of series
// ---------------------------------------------------------------------------

/// What a list shows of a series: what its link says and leads to, and its cover.
#[derive(Debug, Clone)]
pub struct Card {
    pub title: Option<String>,
    pub href: Option<String>,
    pub image: Option<Image>,
}

/// A [`Card`] with its texts as sequences of characters.
pub struct CardView {
    pub title: Option<Seq<char>>,
    pub href: Option<Seq<char>>,
    pub image: Option<ImageView>,
}

impl View for Card {
    type V = CardView;

    open spec fn view(&self) -> CardView {
        CardView {
            title: view_opt(self.title),
            href: view_opt(self.href),
            image: view_opt(self.image),
        }
    }
}

impl CardView {
    /// The address of the cover.
    pub open spec fn cover(self) -> Option<Seq<char>> {
        match self.image {
            Some(image) => image.source(),
            None => None,
        }
    }

    /// Whether a series can be made of it: it has a title, an address and a cover.
    pub open spec fn is_complete(self) -> bool {
        &&& self.title is Some
        &&& trimmed(self.title->0).len() > 0
        &&& self.href is Some
        &&& self.href->0.len() > 0
        &&& self.cover() is Some
        &&& trimmed(self.cover()->0).len() > 0
    }

    /// The series, of a site at `url`.
    pub open spec fn series(self, url: Seq<char>, source_id: i64) -> MangaInfoView {
        MangaInfoView {
            source_id,
            title: trimmed(self.title->0),
            author: Seq::empty(),
            genre: Seq::empty(),
            status: None,
            description: None,
            path: without(self.href->0, url),
            cover_url: self.cover()->0,
        }
    }
}

/// Makes a series of what a list shows of it; `None` where its title, its address or its cover is
/// missing.
pub fn card_entry(url: &str, source_id: i64, card: Card) -> (info: Option<MangaInfo>)
    ensures
        view_opt(info) == (if card@.is_complete() {
            Some(card@.series(url@, source_id))
        } else {
            None
        }),
{
    let title = match card.title {
        Some(text) => trim(text.as_str()),
        None => return None,
    };
    if title.as_str().is_empty() {
        return None;
    }
    let href = match card.href {
        Some(text) => text,
        None => return None,
    };
    if href.as_str().is_empty() {
        return None;
    }
    let source = match card.image {
        Some(image) => get_data_src(image),
        None => None,
    };
    let cover_url = match source {
        Some(text) => text,
        None => return None,
    };
    if is_blank(cover_url.as_str()) {
        return None;
    }
    let author: Vec<String> = Vec::new();
    let genre: Vec<String> = Vec::new();
    assert(views(author@) =~= Seq::empty());
    assert(views(genre@) =~= Seq::empty());
    Some(
        MangaInfo {
            source_id,
            title,
            author,
            genre,
            status: None,
            description: None,
            path: remove_all(href.as_str(), url),
            cover_url,
        },
    )
}

/// The series of a list: those of which a series can be made.
pub open spec fn series_list(url: Seq<char>, source_id: i64, cards: Seq<CardView>) -> Seq<
    MangaInfoView,
>
    decreases cards.len(),
{
    if cards.len() == 0 {
        Seq::empty()
    } else {
        let before = series_list(url, source_id, cards.drop_last());
        if cards.last().is_complete() {
            before.push(cards.last().series(url, source_id))
        } else {
            before
        }
    }
}

/// Makes series of what a list shows, and leaves out what is incomplete.
pub fn card_entries(url: &str, source_id: i64, cards: Vec<Card>) -> (list: Vec<MangaInfo>)
    ensures
        views(list@) == series_list(url@, source_id, views(cards@)),
{
    let ghost all = views(cards@);
    let mut list: Vec<MangaInfo> = Vec::new();
    assert(all.take(0) =~= Seq::empty());
    assert(views(list@) =~= Seq::empty());
    for card in cursor: cards.into_iter()
        invariant
            cursor.seq() == cards@,
            all == views(cards@),
            views(list@) == series_list(url@, source_id, all.take(cursor.index() as int)),
    {
        let ghost now = all.take(cursor.index() + 1);
        let ghost before = list@;
        assert(now.drop_last() =~= all.take(cursor.index() as int));
        assert(now.last() == card@);
        if let Some(info) = card_entry(url, source_id, card) {
            list.push(info);
            assert(views(list@) =~= views(before).push(info@));
        }
    }
    assert(all.take(cards@.len() as int) =~= all);
    list
}

/// Where a series stands in a list.
pub const CARD: &'static str = ".utao .uta .imgu, .listupd .bs .bsx, .listo .bs .bsx";

/// Where a link stands.
pub const LINK: &'static str = "a";

/// Where an image stands.
pub const IMAGE: &'static str = "img";

/// What the reader of a list looks for.
pub open spec fn list_selectors() -> Seq<Seq<char>> {
    seq![CARD@, LINK@, IMAGE@]
}

/// The image at the first of some elements.
pub open spec fn first_image(nodes: Seq<(bool, Seq<char>)>, list: Seq<usize>) -> Option<ImageView> {
    match first(list) {
        Some(node) => Some(image_at(nodes, node)),
        None => None,
    }
}

/// What a list shows of the series at an element.
pub open spec fn card_at(nodes: Seq<(bool, Seq<char>)>, node: usize) -> CardView {
    CardView {
        title: first_attribute(nodes, selected_in(nodes, node, LINK@), "title"@),
        href: first_attribute(nodes, selected_in(nodes, node, LINK@), "href"@),
        image: first_image(nodes, selected_in(nodes, node, IMAGE@)),
    }
}

/// What a list shows of each series.
pub open spec fn cards_in(nodes: Seq<(bool, Seq<char>)>) -> Seq<CardView> {
    found(nodes, None, CARD@).map_values(|node: usize| card_at(nodes, node))
}

/// Reads what a list shows of the series at an element.
pub(crate) fn read_card(doc: &Html, node: usize) -> (card: Card)
    requires
        is_element(nodes_of(*doc), node),
        is_selector(LINK@),
        is_selector(IMAGE@),
    ensures
        card@ == card_at(nodes_of(*doc), node),
{
    let places = select(doc, Some(node), IMAGE);
    let mut image: Option<Image> = None;
    if places.len() > 0 {
        assert(is_element(nodes_of(*doc), places@[0]));
        image = Some(read_image(doc, places[0]));
    }
    Card {
        title: first_attr(doc, Some(node), LINK, "title"),
        href: first_attr(doc, Some(node), LINK, "href"),
        image,
    }
}

/// Reads what a list shows of each series.
pub(crate) fn read_cards(doc: &Html) -> (cards: Vec<Card>)
    requires
        bad_selector(list_selectors()) is None,
    ensures
        views(cards@) == cards_in(nodes_of(*doc)),
{
    let ghost nodes = nodes_of(*doc);
    let ghost all = cards_in(nodes);
    proof {
        lemma_all_selectors(list_selectors());
        let s = list_selectors();
        assert(is_selector(s[0]) && is_selector(s[1]) && is_selector(s[2]));
    }
    let places = select(doc, None, CARD);
    let mut cards: Vec<Card> = Vec::new();
    let mut i: usize = 0;
    assert(views(cards@) =~= all.take(0));
    while i < places.len()
        invariant
            i <= places@.len(),
            is_selector(LINK@),
            is_selector(IMAGE@),
            nodes == nodes_of(*doc),
            are_elements(nodes, places@),
            places@ == found(nodes, None, CARD@),
            all == cards_in(nodes),
            views(cards@) == all.take(i as int),
        decreases places@.len() - i,
    {
        assert(is_element(nodes, places@[i as int]));
        let card = read_card(doc, places[i]);
        proof {
            lemma_push_step(cards@, card, all, i as int);
        }
        cards.push(card);
        i += 1;
    }
    assert(all.take(i as int) =~= all);
    cards
}

/// The series that a list shows.
pub open spec fn manga_list(url: Seq<char>, source_id: i64, nodes: Seq<(bool, Seq<char>)>) -> Result<
    Seq<MangaInfoView>,
    ErrorView,
> {
    match bad_selector(list_selectors()) {
        Some(bad) => Err(ErrorView::Selector(bad)),
        None => Ok(series_list(url, source_id, cards_in(nodes))),
    }
}

/// Reads the series that a list of the site at `url` shows. What has no title, no address or no
/// cover is left out.
pub fn parse_manga_list(url: &str, source_id: i64, body: &str) -> (result: Result<
    Vec<MangaInfo>,
    Error,
>)
    requires
        body.len() <= LARGEST_PAGE,
    ensures
        listing(result) == manga_list(url@, source_id, parsed_nodes(body@)),
{
    let selectors: [&str; 3] = [CARD, LINK, IMAGE];
    assert(views(selectors@) =~= list_selectors());
    if let Err(error) = check_selectors(&selectors) {
        return Err(error);
    }
    let doc = parse_document(body);
    let cards = read_cards(&doc);
    Ok(card_entries(url, source_id, cards))
}

/// Reads the series that a list of the site at `url` shows, if the page is not too large.
pub fn try_parse_manga_list(url: &str, source_id: i64, body: &str) -> (result: Result<
    Vec<MangaInfo>,
    Error,
>)
    ensures
        listing(result) == if_it_fits(
            body.len(),
            manga_list(url@, source_id, parsed_nodes(body@)),
        ),
{
    if body.len() > LARGEST_PAGE {
        return Err(Error::PageTooLarge(body.len()));
    }
    parse_manga_list(url, source_id, body)
}

// ---------------------------------------------------------------------------
// A series
// ---------------------------------------------------------------------------

/// What the page of a series shows: the text that its heading ends with, the pieces of text of its
/// genres and of its description, and its images.
#[derive(Debug, Clone)]
pub struct DetailPage {
    pub title: Option<String>,
    pub genres: Vec<String>,
    pub description: String,
    pub images: Vec<Image>,
}

/// A [`DetailPage`] with its texts as sequences of characters.
pub struct DetailPageView {
    pub title: Option<Seq<char>>,
    pub genres: Seq<Seq<char>>,
    pub description: Seq<char>,
    pub images: Seq<ImageView>,
}

impl View for DetailPage {
    type V = DetailPageView;

    open spec fn view(&self) -> DetailPageView {
        DetailPageView {
            title: view_opt(self.title),
            genres: views(self.genres@),
            description: self.description@,
            images: views(self.images@),
        }
    }
}

/// The first of some texts, or an empty one.
pub open spec fn first_or_empty(list: Seq<Seq<char>>) -> Seq<char> {
    if list.len() == 0 {
        ""@
    } else {
        list[0]
    }
}

/// A series as its page shows it; none where the page has no title.
pub open spec fn details(
    url: Seq<char>,
    path: Seq<char>,
    source_id: i64,
    page: DetailPageView,
) -> Option<MangaInfoView> {
    match page.title {
        Some(title) => Some(
            MangaInfoView {
                source_id,
                title: trimmed(title),
                author: Seq::empty(),
                genre: page.genres,
                status: None,
                description: Some(trimmed(page.description)),
                path: without(path, url),
                cover_url: first_or_empty(sources(page.images)),
            },
        ),
        None => None,
    }
}

/// Makes a series of what its page shows; `None` where the page has no title.
pub fn detail_entry(url: &str, path: &str, source_id: i64, page: DetailPage) -> (info: Option<
    MangaInfo,
>)
    ensures
        view_opt(info) == details(url@, path@, source_id, page@),
{
    let title = match page.title {
        Some(title) => trim(title.as_str()),
        None => return None,
    };
    let covers = image_sources(page.images);
    let cover_url = if covers.len() == 0 {
        "".to_owned()
    } else {
        covers[0].clone()
    };
    let author: Vec<String> = Vec::new();
    assert(views(author@) =~= Seq::empty());
    Some(
        MangaInfo {
            source_id,
            title,
            author,
            genre: page.genres,
            status: None,
            description: Some(trim(page.description.as_str())),
            path: remove_all(path, url),
            cover_url,
        },
    )
}

/// Where the heading of a series stands.
pub const TITLE: &'static str = "h1.entry-title";

/// Where its cover stands.
pub const COVER: &'static str = ".infomanga > div[itemprop=image] img, .thumb img";

/// Where its genres stand.
pub const GENRE: &'static str = "div.gnr a, .mgen a, .seriestugenre a";

/// Where its description stands.
pub const DESCRIPTION: &'static str = ".desc, .entry-content[itemprop=description]";

/// What the reader of a series looks for.
pub open spec fn detail_selectors() -> Seq<Seq<char>> {
    seq![TITLE@, COVER@, GENRE@, DESCRIPTION@]
}

/// The text that the first of some elements ends with.
pub open spec fn first_closing_text(nodes: Seq<(bool, Seq<char>)>, list: Seq<usize>) -> Option<
    Seq<char>,
> {
    match first(list) {
        Some(node) => closing_text(nodes, node),
        None => None,
    }
}

/// What the page of a series shows.
pub open spec fn detail_page(nodes: Seq<(bool, Seq<char>)>) -> DetailPageView {
    DetailPageView {
        title: first_closing_text(nodes, found(nodes, None, TITLE@)),
        genres: all_pieces(nodes, found(nodes, None, GENRE@)),
        description: whole_text(nodes, found(nodes, None, DESCRIPTION@)),
        images: images_at(nodes, found(nodes, None, COVER@)),
    }
}

/// Reads what the page of a series shows.
pub(crate) fn read_detail_page(doc: &Html) -> (page: DetailPage)
    requires
        bad_selector(detail_selectors()) is None,
    ensures
        page@ == detail_page(nodes_of(*doc)),
{
    proof {
        lemma_all_selectors(detail_selectors());
        let s = detail_selectors();
        assert(is_selector(s[0]) && is_selector(s[1]) && is_selector(s[2]) && is_selector(s[3]));
    }
    let headings = select(doc, None, TITLE);
    let mut title: Option<String> = None;
    if headings.len() > 0 {
        assert(is_element(nodes_of(*doc), headings@[0]));
        title = last_child_text(doc, headings[0]);
    }
    let covers = select(doc, None, COVER);
    DetailPage {
        title,
        genres: texts(doc, None, GENRE),
        description: whole_texts(doc, None, DESCRIPTION),
        images: read_images(doc, &covers),
    }
}

/// The series that a page shows; none where the page has no title.
pub open spec fn manga_detail(
    url: Seq<char>,
    path: Seq<char>,
    source_id: i64,
    nodes: Seq<(bool, Seq<char>)>,
) -> Result<Option<MangaInfoView>, ErrorView> {
    match bad_selector(detail_selectors()) {
        Some(bad) => Err(ErrorView::Selector(bad)),
        None => Ok(details(url, path, source_id, detail_page(nodes))),
    }
}

/// Reads the series at `path` from its page; `None` where the page has no title.
pub fn get_manga_detail(url: &str, path: &str, source_id: i64, body: &str) -> (result: Result<
    Option<MangaInfo>,
    Error,
>)
    requires
        body.len() <= LARGEST_PAGE,
    ensures
        finding(result) == manga_detail(url@, path@, source_id, parsed_nodes(body@)),
{
    let selectors: [&str; 4] = [TITLE, COVER, GENRE, DESCRIPTION];
    assert(views(selectors@) =~= detail_selectors());
    if let Err(error) = check_selectors(&selectors) {
        return Err(error);
    }
    let doc = parse_document(body);
    let page = read_detail_page(&doc);
    Ok(detail_entry(url, path, source_id, page))
}

/// Reads the series at `path` from its page, if the page is not too large.
pub fn try_get_manga_detail(url: &str, path: &str, source_id: i64, body: &str) -> (result: Result<
    Option<MangaInfo>,
    Error,
>)
    ensures
        finding(result) == if_it_fits(
            body.len(),
            manga_detail(url@, path@, source_id, parsed_nodes(body@)),
        ),
{
    if body.len() > LARGEST_PAGE {
        return Err(Error::PageTooLarge(body.len()));
    }
    get_manga_detail(url, path, source_id, body)
}

// ---------------------------------------------------------------------------
// Chapters
// ---------------------------------------------------------------------------

/// What the list of chapters shows of one: the text of its name and of the day on which it came,
/// and where its links lead.
#[derive(Debug, Clone)]
pub struct ChapterRow {
    pub name: String,
    pub time: String,
    pub hrefs: Vec<Option<String>>,
}

/// A [`ChapterRow`] with its texts as sequences of characters.
pub struct ChapterRowView {
    pub name: Seq<char>,
    pub time: Seq<char>,
    pub hrefs: Seq<Option<Seq<char>>>,
}

impl View for ChapterRow {
    type V = ChapterRowView;

    open spec fn view(&self) -> ChapterRowView {
        ChapterRowView { name: self.name@, time: self.time@, hrefs: option_views(self.hrefs@) }
    }
}

/// The texts that are there.
pub open spec fn present(list: Seq<Option<Seq<char>>>) -> Seq<Seq<char>>
    decreases list.len(),
{
    if list.len() == 0 {
        Seq::empty()
    } else {
        match list.last() {
            Some(text) => present(list.drop_last()).push(text),
            None => present(list.drop_last()),
        }
    }
}

/// The texts that are there.
pub fn keep_present(list: &Vec<Option<String>>) -> (kept: Vec<String>)
    ensures
        views(kept@) == present(option_views(list@)),
{
    let ghost all = option_views(list@);
    let mut kept: Vec<String> = Vec::new();
    let mut i: usize = 0;
    assert(all.take(0) =~= Seq::empty());
    assert(views(kept@) =~= Seq::empty());
    while i < list.len()
        invariant
            i <= list@.len(),
            all == option_views(list@),
            views(kept@) == present(all.take(i as int)),
        decreases list@.len() - i,
    {
        let ghost now = all.take(i + 1);
        let ghost before = kept@;
        assert(now.drop_last() =~= all.take(i as int));
        assert(now.last() == view_opt(list@[i as int]));
        if let Some(text) = &list[i] {
            kept.push(text.clone());
            assert(views(kept@) =~= views(before).push(text@));
        }
        i += 1;
    }
    assert(all.take(i as int) =~= all);
    kept
}

/// What stands where the number of a chapter stands in its name: all up to the first space, once
/// the word for a chapter is gone.
pub open spec fn number_in(name: Seq<char>) -> Seq<char> {
    or_text(piece(without(name, "Chapter "@), ' ', 0), ""@)
}

/// What stands where the number of a chapter stands in its name.
pub fn number_text(name: &str) -> (text: String)
    ensures
        text@ == number_in(name@),
{
    let rest = remove_all(name, "Chapter ");
    text_or(nth_piece(rest.as_str(), ' ', 0), "")
}

/// How a day is written, with the hour that is put behind it.
pub const DAY_FORMAT: &'static str = "%B %d, %Y %H:%M";

/// A day with its first minute.
pub open spec fn first_minute(day: Seq<char>) -> Seq<char> {
    trimmed(day) + " 00:00"@
}

/// The Unix time of the first minute of a day, or zero where the text is no day.
pub open spec fn day_time(day: Seq<char>) -> i64 {
    or_epoch(formatted_time(first_minute(day), DAY_FORMAT@))
}

/// The Unix time of the first minute of a day, or zero where the text is no day.
pub fn parse_day(day: &str) -> (time: i64)
    ensures
        time == day_time(day@),
{
    let mut text = trim(day);
    text.append(" 00:00");
    time_or_epoch(parse_formatted(text.as_str(), DAY_FORMAT))
}

/// A chapter as the list shows it, with the time at which it came.
pub open spec fn chapter(
    url: Seq<char>,
    source_id: i64,
    row: ChapterRowView,
    uploaded: i64,
) -> ChapterInfoView {
    ChapterInfoView {
        source_id,
        title: trimmed(row.name),
        path: without(joined(present(row.hrefs), ""@), url),
        number: ChapterNumberView::Written(number_in(trimmed(row.name))),
        scanlator: None,
        uploaded,
    }
}

/// Makes a chapter of what the list shows of it, with the time at which it came.
pub fn chapter_entry(url: &str, source_id: i64, row: &ChapterRow, uploaded: i64) -> (info:
    ChapterInfo)
    ensures
        info@ == chapter(url@, source_id, row@, uploaded),
{
    let title = trim(row.name.as_str());
    let number = number_text(title.as_str());
    let hrefs = keep_present(&row.hrefs);
    let path = join(&hrefs, "");
    ChapterInfo {
        source_id,
        title,
        path: remove_all(path.as_str(), url),
        number: ChapterNumber::Written(number),
        scanlator: None,
        uploaded,
    }
}

/// The chapters of a list.
pub open spec fn chapters(url: Seq<char>, source_id: i64, rows: Seq<ChapterRowView>) -> Seq<
    ChapterInfoView,
> {
    rows.map_values(|row: ChapterRowView| chapter(url, source_id, row, day_time(row.time)))
}

/// Makes chapters of what a list shows.
pub fn chapter_entries(url: &str, source_id: i64, rows: &Vec<ChapterRow>) -> (list: Vec<ChapterInfo>)
    ensures
        views(list@) == chapters(url@, source_id, views(rows@)),
{
    let ghost all = chapters(url@, source_id, views(rows@));
    let mut list: Vec<ChapterInfo> = Vec::new();
    let mut i: usize = 0;
    assert(views(list@) =~= all.take(0));
    while i < rows.len()
        invariant
            i <= rows@.len(),
            all == chapters(url@, source_id, views(rows@)),
            views(list@) == all.take(i as int),
        decreases rows@.len() - i,
    {
        let uploaded = parse_day(rows[i].time.as_str());
        let info = chapter_entry(url, source_id, &rows[i], uploaded);
        proof {
            lemma_push_step(list@, info, all, i as int);
        }
        list.push(info);
        i += 1;
    }
    assert(all.take(i as int) =~= all);
    list
}

/// Where a chapter stands in the list.
pub const CHAPTER: &'static str = "div.bxcl li, #chapterlist li .eph-num a";

/// Where its name stands.
pub const CHAPTER_NAME: &'static str = ".lch a, .chapternum";

/// Where the day on which it came stands.
pub const CHAPTER_TIME: &'static str = ".chapterdate";

/// What the reader of chapters looks for.
pub open spec fn chapter_selectors() -> Seq<Seq<char>> {
    seq![CHAPTER@, CHAPTER_NAME@, CHAPTER_TIME@, LINK@]
}

/// What the list of chapters shows of the one at an element.
pub open spec fn row_at(nodes: Seq<(bool, Seq<char>)>, node: usize) -> ChapterRowView {
    ChapterRowView {
        name: whole_text(nodes, selected_in(nodes, node, CHAPTER_NAME@)),
        time: whole_text(nodes, selected_in(nodes, node, CHAPTER_TIME@)),
        hrefs: attributes(nodes, selected_in(nodes, node, LINK@), "href"@),
    }
}

/// What the list of chapters shows.
pub open spec fn rows_in(nodes: Seq<(bool, Seq<char>)>) -> Seq<ChapterRowView> {
    found(nodes, None, CHAPTER@).map_values(|node: usize| row_at(nodes, node))
}

/// Reads what the list of chapters shows.
pub(crate) fn read_rows(doc: &Html) -> (rows: Vec<ChapterRow>)
    requires
        bad_selector(chapter_selectors()) is None,
    ensures
        views(rows@) == rows_in(nodes_of(*doc)),
{
    let ghost nodes = nodes_of(*doc);
    let ghost all = rows_in(nodes);
    proof {
        lemma_all_selectors(chapter_selectors());
        let s = chapter_selectors();
        assert(is_selector(s[0]) && is_selector(s[1]) && is_selector(s[2]) && is_selector(s[3]));
    }
    let places = select(doc, None, CHAPTER);
    let mut rows: Vec<ChapterRow> = Vec::new();
    let mut i: usize = 0;
    assert(views(rows@) =~= all.take(0));
    while i < places.len()
        invariant
            i <= places@.len(),
            is_selector(CHAPTER_NAME@),
            is_selector(CHAPTER_TIME@),
            is_selector(LINK@),
            nodes == nodes_of(*doc),
            are_elements(nodes, places@),
            places@ == found(nodes, None, CHAPTER@),
            all == rows_in(nodes),
            views(rows@) == all.take(i as int),
        decreases places@.len() - i,
    {
        assert(is_element(nodes, places@[i as int]));
        let scope = Some(places[i]);
        let row = ChapterRow {
            name: whole_texts(doc, scope, CHAPTER_NAME),
            time: whole_texts(doc, scope, CHAPTER_TIME),
            hrefs: attrs(doc, scope, LINK, "href"),
        };
        proof {
            lemma_push_step(rows@, row, all, i as int);
        }
        rows.push(row);
        i += 1;
    }
    assert(all.take(i as int) =~= all);
    rows
}

/// The chapters that a list shows.
pub open spec fn chapter_list(url: Seq<char>, source_id: i64, nodes: Seq<(bool, Seq<char>)>) -> Result<
    Seq<ChapterInfoView>,
    ErrorView,
> {
    match bad_selector(chapter_selectors()) {
        Some(bad) => Err(ErrorView::Selector(bad)),
        None => Ok(chapters(url, source_id, rows_in(nodes))),
    }
}

/// Reads the chapters that a list of the site at `url` shows.
pub fn get_chapters(url: &str, source_id: i64, body: &str) -> (result: Result<
    Vec<ChapterInfo>,
    Error,
>)
    requires
        body.len() <= LARGEST_PAGE,
    ensures
        listing(result) == chapter_list(url@, source_id, parsed_nodes(body@)),
{
    let selectors: [&str; 4] = [CHAPTER, CHAPTER_NAME, CHAPTER_TIME, LINK];
    assert(views(selectors@) =~= chapter_selectors());
    if let Err(error) = check_selectors(&selectors) {
        return Err(error);
    }
    let doc = parse_document(body);
    let rows = read_rows(&doc);
    Ok(chapter_entries(url, source_id, &rows))
}

/// Reads the chapters that a list of the site at `url` shows, if the page is not too large.
pub fn try_get_chapters(url: &str, source_id: i64, body: &str) -> (result: Result<
    Vec<ChapterInfo>,
    Error,
>)
    ensures
        listing(result) == if_it_fits(
            body.len(),
            chapter_list(url@, source_id, parsed_nodes(body@)),
        ),
{
    if body.len() > LARGEST_PAGE {
        return Err(Error::PageTooLarge(body.len()));
    }
    get_chapters(url, source_id, body)
}

// ---------------------------------------------------------------------------
// Pages
// ---------------------------------------------------------------------------

/// Where a page stands.
pub const PANEL: &'static str = "div#readerarea img";

/// The addresses of those pages that have one.
pub open spec fn page_addresses(images: Seq<ImageView>) -> Seq<Seq<char>> {
    trimmed_all(sources(images))
}

/// The addresses of those pages that have one.
pub fn page_entries(images: Vec<Image>) -> (list: Vec<String>)
    ensures
        views(list@) == page_addresses(views(images@)),
{
    let list = image_sources(images);
    trim_all(&list)
}

/// The addresses of the pages that a chapter shows.
pub open spec fn page_list(nodes: Seq<(bool, Seq<char>)>) -> Result<Seq<Seq<char>>, ErrorView> {
    match bad_selector(seq![PANEL@]) {
        Some(bad) => Err(ErrorView::Selector(bad)),
        None => Ok(page_addresses(images_at(nodes, found(nodes, None, PANEL@)))),
    }
}

/// Reads the addresses of the pages that a chapter shows.
pub fn get_pages(body: &str) -> (result: Result<Vec<String>, Error>)
    requires
        body.len() <= LARGEST_PAGE,
    ensures
        listing(result) == page_list(parsed_nodes(body@)),
{
    let selectors: [&str; 1] = [PANEL];
    assert(views(selectors@) =~= seq![PANEL@]);
    if let Err(error) = check_selectors(&selectors) {
        return Err(error);
    }
    proof {
        lemma_all_selectors(seq![PANEL@]);
        assert(is_selector(seq![PANEL@][0]));
    }
    let doc = parse_document(body);
    let places = select(&doc, None, PANEL);
    let images = read_images(&doc, &places);
    Ok(page_entries(images))
}

/// Reads the addresses of the pages that a chapter shows, if the page is not too large.
pub fn try_get_pages(body: &str) -> (result: Result<Vec<String>, Error>)
    ensures
        listing(result) == if_it_fits(body.len(), page_list(parsed_nodes(body@))),
{
    if body.len() > LARGEST_PAGE {
        return Err(Error::PageTooLarge(body.len()));
    }
    get_pages(body)
}

// ---------------------------------------------------------------------------
// Laws
// ---------------------------------------------------------------------------

/// A malformed card takes nothing with it: what is listed of two runs of cards is what is listed of
/// the one, and then of the other, and nothing is listed of a card that is incomplete.
pub proof fn law_cards_stand_alone(
    url: Seq<char>,
    source_id: i64,
    a: Seq<CardView>,
    b: Seq<CardView>,
    card: CardView,
)
    ensures
        series_list(url, source_id, a + b) == series_list(url, source_id, a) + series_list(
            url,
            source_id,
            b,
        ),
        series_list(url, source_id, seq![card]) == (if card.is_complete() {
            seq![card.series(url, source_id)]
        } else {
            Seq::empty()
        }),
    decreases b.len(),
{
    assert(seq![card].drop_last() =~= Seq::empty());
    assert(series_list(url, source_id, seq![card].drop_last()) =~= Seq::empty());
    assert(seq![card].last() == card);
    if b.len() > 0 {
        law_cards_stand_alone(url, source_id, a, b.drop_last(), card);
        assert((a + b).drop_last() =~= a + b.drop_last());
        assert((a + b).last() == b.last());
        assert(series_list(url, source_id, a + b) =~= series_list(url, source_id, a) + series_list(
            url,
            source_id,
            b,
        ));
    } else {
        assert(a + b =~= a);
        assert(series_list(url, source_id, a + b) =~= series_list(url, source_id, a) + series_list(
            url,
            source_id,
            b,
        ));
    }
    if card.is_complete() {
        assert(series_list(url, source_id, seq![card]) =~= seq![card.series(url, source_id)]);
    }
}

/// Whatever a list holds, each series that is read from it has a title and a cover.
pub proof fn law_listed_series_are_complete(
    url: Seq<char>,
    source_id: i64,
    cards: Seq<CardView>,
    i: int,
)
    requires
        0 <= i < series_list(url, source_id, cards).len(),
    ensures
        series_list(url, source_id, cards)[i].source_id == source_id,
        series_list(url, source_id, cards)[i].title.len() > 0,
        trimmed(series_list(url, source_id, cards)[i].cover_url).len() > 0,
    decreases cards.len(),
{
    let before = series_list(url, source_id, cards.drop_last());
    if i < before.len() {
        law_listed_series_are_complete(url, source_id, cards.drop_last(), i);
    }
}

/// What is read as the number of a chapter holds no space.
pub proof fn law_number_is_one_word(name: Seq<char>)
    ensures
        !number_in(name).contains(' '),
{
    let rest = without(name, "Chapter "@);
    lemma_split_not_empty(rest, ' ');
    lemma_pieces_hold_no_separator(rest, ' ', 0);
}

proof fn lemma_pieces_hold_no_separator(s: Seq<char>, sep: char, n: int)
    requires
        0 <= n < split(s, sep).len(),
    ensures
        !split(s, sep)[n].contains(sep),
    decreases s.len(),
{
    if s.len() > 0 {
        let before = split(s.drop_last(), sep);
        lemma_split_not_empty(s.drop_last(), sep);
        if n < before.len() {
            lemma_pieces_hold_no_separator(s.drop_last(), sep, n);
            if s.last() != sep && n == before.len() - 1 {
                let now = before.last().push(s.last());
                assert forall|i: int| 0 <= i < now.len() implies now[i] != sep by {
                    if i < before.last().len() {
                        assert(before.last().contains(before.last()[i]));
                    }
                }
            }
        }
    }
}

/// A request goes to the address that it was made for, and names the site as its referer. A page of
/// a list is asked for by its number and its order.
pub proof fn law_requests(url: Seq<char>, address: Seq<char>, page: i64, order: Seq<char>)
    ensures
        from_site(url, address).url == address,
        from_site(url, address).headers == seq![("Referer"@, url)],
        ordered_list(url, page, order) == url + "/manga/?page="@ + decimal(page as int)
            + "&order="@ + order,
{
}

/// The address of an image is that in `data-lazy-src`; where that is missing, the one in
/// `data-src`; where both are missing, the one in `src`.
pub proof fn law_image_source(image: ImageView)
    ensures
        image.data_lazy_src is Some ==> image.source() == image.data_lazy_src,
        image.data_lazy_src is None && image.data_src is Some ==> image.source() == image.data_src,
        image.data_lazy_src is None && image.data_src is None ==> image.source() == image.src,
{
}

/// The images at some elements are read one by one, each from the attributes of its own element.
pub proof fn law_images_are_read(nodes: Seq<(bool, Seq<char>)>, list: Seq<usize>)
    ensures
        images_at(nodes, list).len() == list.len(),
        forall|i: int|
            0 <= i < list.len() ==> (#[trigger] images_at(nodes, list)[i]).data_lazy_src
                == attribute(nodes, list[i], "data-lazy-src"@) && images_at(nodes, list)[i].data_src
                == attribute(nodes, list[i], "data-src"@) && images_at(nodes, list)[i].src
                == attribute(nodes, list[i], "src"@),
        forall|node: usize|
            (#[trigger] image_at(nodes, node)).data_lazy_src == attribute(
                nodes,
                node,
                "data-lazy-src"@,
            ) && image_at(nodes, node).data_src == attribute(nodes, node, "data-src"@) && image_at(
                nodes,
                node,
            ).src == attribute(nodes, node, "src"@),
{
}

/// The addresses of two runs of images are those of the one, and then those of the other; one image
/// gives its address, if it has one.
pub proof fn law_sources(a: Seq<ImageView>, b: Seq<ImageView>, image: ImageView)
    ensures
        sources(a + b) == sources(a) + sources(b),
        image.source() matches Some(source) ==> sources(seq![image]) == seq![source],
        image.source() is None ==> sources(seq![image]) == Seq::<Seq<char>>::empty(),
        sources(Seq::empty()) == Seq::<Seq<char>>::empty(),
    decreases b.len(),
{
    assert(seq![image].drop_last() =~= Seq::empty());
    assert(sources(seq![image].drop_last()) =~= Seq::empty());
    assert(seq![image].last() == image);
    if let Some(source) = image.source() {
        assert(sources(seq![image]) =~= seq![source]);
    }
    if b.len() > 0 {
        law_sources(a, b.drop_last(), image);
        assert((a + b).drop_last() =~= a + b.drop_last());
        assert((a + b).last() == b.last());
        assert(sources(a + b) =~= sources(a) + sources(b));
    } else {
        assert(a + b =~= a);
        assert(sources(a + b) =~= sources(a) + sources(b));
    }
}

/// Of a card with a title, an address and a cover, none of them blank, a series is listed: its
/// title is all of the card's title, trimmed, its path the card's address without that of the site,
/// its cover the image's address. Of any other card nothing is listed.
pub proof fn law_card_is_listed(url: Seq<char>, source_id: i64, card: CardView)
    ensures
        ({
            let list = series_list(url, source_id, seq![card]);
            let source = match card.image {
                Some(image) => if image.data_lazy_src is Some {
                    image.data_lazy_src
                } else if image.data_src is Some {
                    image.data_src
                } else {
                    image.src
                },
                None => None,
            };
            let complete = {
                &&& card.title is Some
                &&& trimmed(card.title->0).len() > 0
                &&& card.href is Some
                &&& card.href->0.len() > 0
                &&& source is Some
                &&& trimmed(source->0).len() > 0
            };
            &&& card.is_complete() == complete
            &&& !complete ==> list.len() == 0
            &&& complete ==> {
                &&& list.len() == 1
                &&& list[0] == card.series(url, source_id)
                &&& list[0].source_id == source_id
                &&& list[0].title == trimmed(card.title->0)
                &&& list[0].path == without(card.href->0, url)
                &&& list[0].cover_url == source->0
                &&& list[0].author.len() == 0
                &&& list[0].genre.len() == 0
                &&& list[0].status is None
                &&& list[0].description is None
            }
        }),
{
    law_cards_stand_alone(url, source_id, Seq::empty(), Seq::empty(), card);
}

/// Whatever else a list holds, each series in it is that of one of its cards: the whole title of
/// the card, trimmed, its address without that of the site, and the address of its image.
pub proof fn law_listed_series_are_cards(
    url: Seq<char>,
    source_id: i64,
    cards: Seq<CardView>,
    i: int,
)
    requires
        0 <= i < series_list(url, source_id, cards).len(),
    ensures
        ({
            let listed = series_list(url, source_id, cards)[i];
            exists|c: int|
                {
                    &&& 0 <= c < cards.len()
                    &&& (#[trigger] cards[c]).title is Some
                    &&& cards[c].href is Some
                    &&& cards[c].image is Some
                    &&& cards[c].image->0.source() is Some
                    &&& listed.title == trimmed(cards[c].title->0)
                    &&& listed.path == without(cards[c].href->0, url)
                    &&& listed.cover_url == cards[c].image->0.source()->0
                }
        }),
    decreases cards.len(),
{
    let front = cards.drop_last();
    let before = series_list(url, source_id, front);
    if i < before.len() {
        law_listed_series_are_cards(url, source_id, front, i);
        let listed = before[i];
        let c = choose|c: int|
            {
                &&& 0 <= c < front.len()
                &&& (#[trigger] front[c]).title is Some
                &&& front[c].href is Some
                &&& front[c].image is Some
                &&& front[c].image->0.source() is Some
                &&& listed.title == trimmed(front[c].title->0)
                &&& listed.path == without(front[c].href->0, url)
                &&& listed.cover_url == front[c].image->0.source()->0
            };
        assert(front[c] == cards[c]);
    } else {
        assert(cards[cards.len() - 1] == cards.last());
    }
}

/// A list page is read card by card: the title and the address of a card are those of its first
/// link, its image is its first.
pub proof fn law_list_page(url: Seq<char>, source_id: i64, nodes: Seq<(bool, Seq<char>)>)
    ensures
        manga_list(url, source_id, nodes) == match bad_selector(
            seq![
                ".utao .uta .imgu, .listupd .bs .bsx, .listo .bs .bsx"@,
                "a"@,
                "img"@,
            ],
        ) {
            Some(bad) => Err(ErrorView::Selector(bad)),
            None => Ok(series_list(url, source_id, cards_in(nodes))),
        },
        ({
            let places = selected(nodes, ".utao .uta .imgu, .listupd .bs .bsx, .listo .bs .bsx"@);
            &&& cards_in(nodes).len() == places.len()
            &&& forall|i: int|
                0 <= i < places.len() ==> {
                    let card = #[trigger] cards_in(nodes)[i];
                    let links = selected_in(nodes, places[i], "a"@);
                    let images = selected_in(nodes, places[i], "img"@);
                    &&& links.len() == 0 ==> card.title is None && card.href is None
                    &&& links.len() > 0 ==> card.title == attribute(nodes, links[0], "title"@)
                        && card.href == attribute(nodes, links[0], "href"@)
                    &&& images.len() == 0 ==> card.image is None
                    &&& images.len() > 0 ==> card.image == Some(image_at(nodes, images[0]))
                }
        }),
{
    assert(list_selectors() =~= seq![
        ".utao .uta .imgu, .listupd .bs .bsx, .listo .bs .bsx"@,
        "a"@,
        "img"@,
    ]);
}

/// The page of a series gives the series: its heading, trimmed, as the title, its genres as they
/// stand, its description trimmed, and the path without the address of the site. The cover is the
/// first image that has an address; without a heading there is no series.
pub proof fn law_series_of_page(
    url: Seq<char>,
    path: Seq<char>,
    source_id: i64,
    page: DetailPageView,
)
    ensures
        details(url, path, source_id, page) is Some <==> page.title is Some,
        details(url, path, source_id, page) matches Some(info) ==> {
            &&& info.source_id == source_id
            &&& info.title == trimmed(page.title->0)
            &&& info.author.len() == 0
            &&& info.genre == page.genres
            &&& info.status is None
            &&& info.description == Some(trimmed(page.description))
            &&& info.path == without(path, url)
            &&& forall|i: int|
                0 <= i < page.images.len() && (#[trigger] page.images[i]).source() is Some && (
                forall|j: int| 0 <= j < i ==> (#[trigger] page.images[j]).source() is None)
                    ==> info.cover_url == page.images[i].source()->0
            &&& (forall|i: int|
                0 <= i < page.images.len() ==> (#[trigger] page.images[i]).source() is None)
                ==> info.cover_url.len() == 0
        },
{
    reveal_strlit("");
    let images = page.images;
    if forall|i: int| 0 <= i < images.len() ==> (#[trigger] images[i]).source() is None {
        lemma_no_source(images);
    }
    assert forall|i: int|
        0 <= i < images.len() && (#[trigger] images[i]).source() is Some && (forall|j: int|
            0 <= j < i ==> (#[trigger] images[j]).source() is None) implies first_or_empty(
        sources(images),
    ) == images[i].source()->0 by {
        let before = images.take(i);
        let after = images.skip(i + 1);
        assert(images =~= before + (seq![images[i]] + after));
        assert forall|j: int| 0 <= j < before.len() implies (#[trigger] before[j]).source() is None by {
            assert(before[j] == images[j]);
        }
        lemma_no_source(before);
        law_sources(before, seq![images[i]] + after, images[i]);
        law_sources(seq![images[i]], after, images[i]);
        assert(sources(images)[0] == images[i].source()->0);
    }
}

proof fn lemma_no_source(images: Seq<ImageView>)
    requires
        forall|i: int| 0 <= i < images.len() ==> (#[trigger] images[i]).source() is None,
    ensures
        sources(images).len() == 0,
    decreases images.len(),
{
    if images.len() > 0 {
        let front = images.drop_last();
        assert forall|i: int| 0 <= i < front.len() implies (#[trigger] front[i]).source() is None by {
            assert(front[i] == images[i]);
        }
        lemma_no_source(front);
        assert(images[images.len() - 1].source() is None);
    }
}

/// The page of a series is read from its heading, its covers, its genres and its description.
pub proof fn law_series_page(
    url: Seq<char>,
    path: Seq<char>,
    source_id: i64,
    nodes: Seq<(bool, Seq<char>)>,
)
    ensures
        manga_detail(url, path, source_id, nodes) == match bad_selector(
            seq![
                "h1.entry-title"@,
                ".infomanga > div[itemprop=image] img, .thumb img"@,
                "div.gnr a, .mgen a, .seriestugenre a"@,
                ".desc, .entry-content[itemprop=description]"@,
            ],
        ) {
            Some(bad) => Err(ErrorView::Selector(bad)),
            None => Ok(details(url, path, source_id, detail_page(nodes))),
        },
        ({
            let page = detail_page(nodes);
            let headings = selected(nodes, "h1.entry-title"@);
            &&& headings.len() == 0 ==> page.title is None
            &&& headings.len() > 0 ==> page.title == closing_text(nodes, headings[0])
            &&& page.genres == all_pieces(
                nodes,
                selected(nodes, "div.gnr a, .mgen a, .seriestugenre a"@),
            )
            &&& page.description == joined(
                all_pieces(nodes, selected(nodes, ".desc, .entry-content[itemprop=description]"@)),
                Seq::empty(),
            )
            &&& page.images == images_at(
                nodes,
                selected(nodes, ".infomanga > div[itemprop=image] img, .thumb img"@),
            )
        }),
{
    reveal_strlit("");
    assert(""@ =~= Seq::<char>::empty());
    assert(detail_selectors() =~= seq![
        "h1.entry-title"@,
        ".infomanga > div[itemprop=image] img, .thumb img"@,
        "div.gnr a, .mgen a, .seriestugenre a"@,
        ".desc, .entry-content[itemprop=description]"@,
    ]);
}

/// Of two runs of optional texts those are present that are present in the one, and then those in
/// the other.
pub proof fn law_present(a: Seq<Option<Seq<char>>>, b: Seq<Option<Seq<char>>>, text: Seq<char>)
    ensures
        present(a + b) == present(a) + present(b),
        present(seq![Some(text)]) == seq![text],
        present(seq![None::<Seq<char>>]) == Seq::<Seq<char>>::empty(),
        present(Seq::empty()) == Seq::<Seq<char>>::empty(),
    decreases b.len(),
{
    let some = seq![Some(text)];
    let none = seq![None::<Seq<char>>];
    assert(some.drop_last() =~= Seq::empty());
    assert(none.drop_last() =~= Seq::empty());
    assert(present(Seq::empty()) =~= Seq::<Seq<char>>::empty());
    assert(some.last() == Some(text));
    assert(none.last() is None);
    assert(present(some) =~= seq![text]);
    if b.len() > 0 {
        law_present(a, b.drop_last(), text);
        assert((a + b).drop_last() =~= a + b.drop_last());
        assert((a + b).last() == b.last());
        assert(present(a + b) =~= present(a) + present(b));
    } else {
        assert(a + b =~= a);
        assert(present(a + b) =~= present(a) + present(b));
    }
}

/// What is read as the number of a chapter is what its name begins with once every `Chapter ` is
/// taken out, up to the first space.
pub proof fn law_number_stands_before_space(name: Seq<char>)
    ensures
        ({
            let rest = without(name, "Chapter "@);
            let number = number_in(name);
            &&& number.len() <= rest.len()
            &&& rest.take(number.len() as int) == number
            &&& !number.contains(' ')
            &&& number.len() < rest.len() ==> rest[number.len() as int] == ' '
        }),
{
    let rest = without(name, "Chapter "@);
    law_piece(rest, ' ', 0);
    law_split(rest, ' ');
}

/// A day is read, trimmed, as its first minute; what is no day becomes the beginning of Unix time.
pub proof fn law_day_time(day: Seq<char>)
    ensures
        day_time(day) == match formatted_time(trimmed(day) + " 00:00"@, "%B %d, %Y %H:%M"@) {
            Some(time) => time,
            None => 0,
        },
{
}

/// Each chapter is made of its own row: its name, trimmed, is its title and gives its number, its
/// path is where its links lead, one behind the other, without the address of the site, and it came
/// on the day in its row.
pub proof fn law_chapters_are_rows(
    url: Seq<char>,
    source_id: i64,
    rows: Seq<ChapterRowView>,
    i: int,
)
    requires
        0 <= i < rows.len(),
    ensures
        ({
            let listed = chapters(url, source_id, rows)[i];
            let rest = without(trimmed(rows[i].name), "Chapter "@);
            &&& chapters(url, source_id, rows).len() == rows.len()
            &&& listed == chapter(url, source_id, rows[i], day_time(rows[i].time))
            &&& listed.source_id == source_id
            &&& listed.title == trimmed(rows[i].name)
            &&& listed.path == without(joined(present(rows[i].hrefs), Seq::empty()), url)
            &&& listed.scanlator is None
            &&& listed.uploaded == match formatted_time(
                trimmed(rows[i].time) + " 00:00"@,
                "%B %d, %Y %H:%M"@,
            ) {
                Some(time) => time,
                None => 0,
            }
            &&& listed.number matches ChapterNumberView::Written(number) && {
                &&& number.len() <= rest.len()
                &&& rest.take(number.len() as int) == number
                &&& !number.contains(' ')
                &&& number.len() < rest.len() ==> rest[number.len() as int] == ' '
            }
        }),
{
    reveal_strlit("");
    assert(""@ =~= Seq::<char>::empty());
    law_number_stands_before_space(trimmed(rows[i].name));
}

/// A chapter keeps the time that it is made with, whatever the row says of the day.
pub proof fn law_chapter_keeps_time(
    url: Seq<char>,
    source_id: i64,
    row: ChapterRowView,
    uploaded: i64,
    other: i64,
)
    ensures
        chapter(url, source_id, row, uploaded).uploaded == uploaded,
        chapter(url, source_id, row, uploaded).source_id == source_id,
        chapter(url, source_id, row, uploaded).scanlator is None,
        chapter(url, source_id, row, uploaded).title == chapter(url, source_id, row, other).title,
        chapter(url, source_id, row, uploaded).path == chapter(url, source_id, row, other).path,
        chapter(url, source_id, row, uploaded).number == chapter(url, source_id, row, other).number,
{
}

/// The list of chapters is read row by row: the name, the day and the links of each are those inside
/// its own element.
pub proof fn law_chapter_page(url: Seq<char>, source_id: i64, nodes: Seq<(bool, Seq<char>)>)
    ensures
        chapter_list(url, source_id, nodes) == match bad_selector(
            seq![
                "div.bxcl li, #chapterlist li .eph-num a"@,
                ".lch a, .chapternum"@,
                ".chapterdate"@,
                "a"@,
            ],
        ) {
            Some(bad) => Err(ErrorView::Selector(bad)),
            None => Ok(chapters(url, source_id, rows_in(nodes))),
        },
        ({
            let places = selected(nodes, "div.bxcl li, #chapterlist li .eph-num a"@);
            &&& rows_in(nodes).len() == places.len()
            &&& forall|i: int|
                0 <= i < places.len() ==> {
                    let row = #[trigger] rows_in(nodes)[i];
                    let links = selected_in(nodes, places[i], "a"@);
                    &&& row.name == joined(
                        all_pieces(nodes, selected_in(nodes, places[i], ".lch a, .chapternum"@)),
                        Seq::empty(),
                    )
                    &&& row.time == joined(
                        all_pieces(nodes, selected_in(nodes, places[i], ".chapterdate"@)),
                        Seq::empty(),
                    )
                    &&& row.hrefs.len() == links.len()
                    &&& forall|k: int|
                        0 <= k < links.len() ==> #[trigger] row.hrefs[k] == attribute(
                            nodes,
                            links[k],
                            "href"@,
                        )
                }
        }),
{
    reveal_strlit("");
    assert(""@ =~= Seq::<char>::empty());
    assert(chapter_selectors() =~= seq![
        "div.bxcl li, #chapterlist li .eph-num a"@,
        ".lch a, .chapternum"@,
        ".chapterdate"@,
        "a"@,
    ]);
}

/// Pages are read one by one, in order: an image that has an address gives it, trimmed, any other
/// gives nothing.
pub proof fn law_pages_are_images(a: Seq<ImageView>, b: Seq<ImageView>, image: ImageView)
    ensures
        page_addresses(a + b) == page_addresses(a) + page_addresses(b),
        image.source() matches Some(source) ==> page_addresses(seq![image]) == seq![trimmed(source)],
        image.source() is None ==> page_addresses(seq![image]) == Seq::<Seq<char>>::empty(),
        page_addresses(Seq::empty()) == Seq::<Seq<char>>::empty(),
{
    law_sources(a, b, image);
    assert(page_addresses(a + b) =~= page_addresses(a) + page_addresses(b));
    match image.source() {
        Some(source) => {
            assert(page_addresses(seq![image]) =~= seq![trimmed(source)]);
        },
        None => {
            assert(page_addresses(seq![image]) =~= Seq::<Seq<char>>::empty());
        },
    }
    assert(page_addresses(Seq::empty()) =~= Seq::<Seq<char>>::empty());
}

/// The pages of a chapter are the images inside its reader.
pub proof fn law_reader_page(nodes: Seq<(bool, Seq<char>)>)
    ensures
        is_selector("div#readerarea img"@) ==> page_list(nodes) == Ok::<Seq<Seq<char>>, ErrorView>(
            page_addresses(images_at(nodes, selected(nodes, "div#readerarea img"@))),
        ),
        !is_selector("div#readerarea img"@) ==> page_list(nodes) == Err::<
            Seq<Seq<char>>,
            ErrorView,
        >(ErrorView::Selector("div#readerarea img"@)),
{
    let selectors = seq!["div#readerarea img"@];
    assert(selectors[0] == "div#readerarea img"@);
    assert(selectors.subrange(1, 1) =~= Seq::empty());
    assert(bad_selector(selectors.subrange(1, 1)) is None);
}

} // verus!
