//! Fetching an image that may hide behind wrapper pages.
use crate::error::{Error, ErrorView};
use crate::text::{
    begins_with, chars_of, contains, decimal, find_chars, find_from, lemma_find_from, lower,
    occurs_at, stands_at, starts_with, text_of, to_ascii_lowercase, to_decimal, view_opt,
};
use crate::urls::{join_url, parse_url, url_join, url_parts, UrlParts, UrlPartsView};
use vstd::prelude::*;

verus! {

/// What an image request says that it accepts.
pub const IMAGE_ACCEPT: &'static str = "image/avif,image/webp,image/apng,image/*,*/*;q=0.8";

/// How many bytes of an image are read at most.
pub const LIMIT_BYTES: u64 = 50 * 1024 * 1024;

/// How many wrapper pages are followed to an image at most.
pub const MAX_HOPS: u8 = 2;

// ---------------------------------------------------------------------------
// Image tags
// ---------------------------------------------------------------------------

/// Where in a tag a character stands, as HTML reads tags.
#[derive(Debug, Clone, Copy, PartialEq, Eq, Structural)]
pub enum TagPlace {
    /// In the name of the tag.
    Name,
    /// Between attributes.
    Gap,
    /// In the name of an attribute.
    Attribute,
    /// Behind the name of an attribute and white space.
    AfterAttribute,
    /// Behind the `=` of an attribute.
    Value,
    /// In a value without quotation marks.
    Unquoted,
    /// In a value that `"` opened.
    DoubleQuoted,
    /// In a value that `'` opened.
    SingleQuoted,
}

/// Whether a character separates attributes.
pub open spec fn is_tag_space(c: char) -> bool {
    c == ' ' || c == '\t' || c == '\n' || c == '\u{c}' || c == '\r'
}

/// The place behind a character at this place. Where a `>` ends the tag nothing comes behind it.
pub open spec fn after_char(place: TagPlace, c: char) -> TagPlace {
    match place {
        TagPlace::Name => if is_tag_space(c) || c == '/' {
            TagPlace::Gap
        } else {
            TagPlace::Name
        },
        TagPlace::Gap => if is_tag_space(c) || c == '/' {
            TagPlace::Gap
        } else {
            TagPlace::Attribute
        },
        TagPlace::Attribute => if is_tag_space(c) {
            TagPlace::AfterAttribute
        } else if c == '/' {
            TagPlace::Gap
        } else if c == '=' {
            TagPlace::Value
        } else {
            TagPlace::Attribute
        },
        TagPlace::AfterAttribute => if is_tag_space(c) {
            TagPlace::AfterAttribute
        } else if c == '/' {
            TagPlace::Gap
        } else if c == '=' {
            TagPlace::Value
        } else {
            TagPlace::Attribute
        },
        TagPlace::Value => if is_tag_space(c) {
            TagPlace::Value
        } else if c == '"' {
            TagPlace::DoubleQuoted
        } else if c == '\'' {
            TagPlace::SingleQuoted
        } else {
            TagPlace::Unquoted
        },
        TagPlace::Unquoted => if is_tag_space(c) {
            TagPlace::Gap
        } else {
            TagPlace::Unquoted
        },
        TagPlace::DoubleQuoted => if c == '"' {
            TagPlace::Gap
        } else {
            TagPlace::DoubleQuoted
        },
        TagPlace::SingleQuoted => if c == '\'' {
            TagPlace::Gap
        } else {
            TagPlace::SingleQuoted
        },
    }
}

/// Whether a place stands inside quotation marks.
pub open spec fn is_quoted(place: TagPlace) -> bool {
    place is DoubleQuoted || place is SingleQuoted
}

/// The place of position `k` in the image tag that begins at `t`.
pub open spec fn place_at(html: Seq<char>, t: int, k: int) -> TagPlace
    decreases k - t,
{
    if k <= t + 4 {
        TagPlace::Name
    } else {
        after_char(place_at(html, t, k - 1), html[k - 1])
    }
}

/// Whether position `j` ends the image tag that begins at `t`: a `>` outside quotation marks that
/// were opened behind `t`.
pub open spec fn ends_tag(html: Seq<char>, t: int, j: int) -> bool {
    html[j] == '>' && !is_quoted(place_at(html, t, j))
}

/// Whether the image tag that begins at `t` is still open at position `k`: every `>` between them
/// stands inside quotation marks that were opened behind `t`.
pub open spec fn image_tag_at(html: Seq<char>, t: int, k: int) -> bool {
    &&& occurs_at(lower(html), "<img"@, t)
    &&& t + 4 <= k
    &&& forall|j: int| t < j < k ==> !#[trigger] ends_tag(html, t, j)
}

/// Whether a character belongs to the name that stands behind it: a letter, a digit or `-`.
pub open spec fn is_name_char(c: char) -> bool {
    ||| 'a' <= c <= 'z'
    ||| 'A' <= c <= 'Z'
    ||| '0' <= c <= '9'
    ||| c == '-'
}

/// Whether a source may begin at position `k` of the image tag that begins at `t`: outside
/// quotation marks and, where the name of the tag has ended, not within another name.
pub open spec fn takes_src(html: Seq<char>, t: int, k: int) -> bool {
    &&& image_tag_at(html, t, k)
    &&& !is_quoted(place_at(html, t, k))
    &&& place_at(html, t, k) is Name || !is_name_char(html[k - 1])
}

/// Whether `src="` stands at position `k` as the source of an image tag.
pub open spec fn image_src_at(html: Seq<char>, k: int) -> bool {
    occurs_at(html, "src=\""@, k) && exists|t: int| takes_src(html, t, k)
}

/// The first position, not before `from`, at which `src="` stands as the source of an image tag.
pub open spec fn image_src_from(html: Seq<char>, from: int) -> Option<int>
    decreases html.len() + 1 - from,
{
    if from + 5 > html.len() {
        None
    } else if image_src_at(html, from) {
        Some(from)
    } else {
        image_src_from(html, from + 1)
    }
}

/// The source of the first image: what stands between the first `src="` of an image tag and the
/// next quotation mark.
pub open spec fn first_src(html: Seq<char>) -> Option<Seq<char>> {
    match image_src_from(html, 0) {
        Some(start) => match find_from(html, "\""@, start + 5) {
            Some(end) => Some(html.subrange(start + 5, end)),
            None => None,
        },
        None => None,
    }
}

/// Whether a character separates attributes.
fn separates(c: char) -> (separates: bool)
    ensures
        separates == is_tag_space(c),
{
    c == ' ' || c == '\t' || c == '\n' || c == '\u{c}' || c == '\r'
}

/// Whether a character belongs to the name that stands behind it.
fn name_char(c: char) -> (belongs: bool)
    ensures
        belongs == is_name_char(c),
{
    ('a' <= c && c <= 'z') || ('A' <= c && c <= 'Z') || ('0' <= c && c <= '9') || c == '-'
}

/// The place behind a character at this place.
fn next_place(place: TagPlace, c: char) -> (next: TagPlace)
    ensures
        next == after_char(place, c),
{
    match place {
        TagPlace::Name => if separates(c) || c == '/' {
            TagPlace::Gap
        } else {
            TagPlace::Name
        },
        TagPlace::Gap => if separates(c) || c == '/' {
            TagPlace::Gap
        } else {
            TagPlace::Attribute
        },
        TagPlace::Attribute | TagPlace::AfterAttribute => if separates(c) {
            TagPlace::AfterAttribute
        } else if c == '/' {
            TagPlace::Gap
        } else if c == '=' {
            TagPlace::Value
        } else {
            TagPlace::Attribute
        },
        TagPlace::Value => if separates(c) {
            TagPlace::Value
        } else if c == '"' {
            TagPlace::DoubleQuoted
        } else if c == '\'' {
            TagPlace::SingleQuoted
        } else {
            TagPlace::Unquoted
        },
        TagPlace::Unquoted => if separates(c) {
            TagPlace::Gap
        } else {
            TagPlace::Unquoted
        },
        TagPlace::DoubleQuoted => if c == '"' {
            TagPlace::Gap
        } else {
            TagPlace::DoubleQuoted
        },
        TagPlace::SingleQuoted => if c == '\'' {
            TagPlace::Gap
        } else {
            TagPlace::SingleQuoted
        },
    }
}

/// The places that a position has in the image tags that are open there.
struct Places {
    name: bool,
    gap: bool,
    attribute: bool,
    after_attribute: bool,
    value: bool,
    unquoted: bool,
    double_quoted: bool,
    single_quoted: bool,
}

impl Places {
    /// Whether this is one of the places.
    spec fn has(self, place: TagPlace) -> bool {
        match place {
            TagPlace::Name => self.name,
            TagPlace::Gap => self.gap,
            TagPlace::Attribute => self.attribute,
            TagPlace::AfterAttribute => self.after_attribute,
            TagPlace::Value => self.value,
            TagPlace::Unquoted => self.unquoted,
            TagPlace::DoubleQuoted => self.double_quoted,
            TagPlace::SingleQuoted => self.single_quoted,
        }
    }

    /// No place.
    fn none() -> (places: Places)
        ensures
            forall|q: TagPlace| !#[trigger] places.has(q),
            !places.name && !places.gap && !places.attribute && !places.after_attribute
                && !places.value && !places.unquoted,
    {
        Places {
            name: false,
            gap: false,
            attribute: false,
            after_attribute: false,
            value: false,
            unquoted: false,
            double_quoted: false,
            single_quoted: false,
        }
    }

    /// Adds the place behind `c`, where `present` says that there is one before it, and `c` does
    /// not end the tag there.
    fn carry(&mut self, present: bool, place: TagPlace, c: char)
        ensures
            forall|q: TagPlace|
                final(self).has(q) == (old(self).has(q) || (present && lives(place, c) && q
                    == after_char(place, c))),
    {
        let quoted = match place {
            TagPlace::DoubleQuoted | TagPlace::SingleQuoted => true,
            _ => false,
        };
        if present && (c != '>' || quoted) {
            match next_place(place, c) {
                TagPlace::Name => self.name = true,
                TagPlace::Gap => self.gap = true,
                TagPlace::Attribute => self.attribute = true,
                TagPlace::AfterAttribute => self.after_attribute = true,
                TagPlace::Value => self.value = true,
                TagPlace::Unquoted => self.unquoted = true,
                TagPlace::DoubleQuoted => self.double_quoted = true,
                TagPlace::SingleQuoted => self.single_quoted = true,
            }
        }
    }

    /// The places behind `c`.
    fn behind(&self, c: char) -> (next: Places)
        ensures
            forall|q: TagPlace| next.has(q) == carried(*self, c, q),
    {
        let mut next = Places::none();
        next.carry(self.name, TagPlace::Name, c);
        next.carry(self.gap, TagPlace::Gap, c);
        next.carry(self.attribute, TagPlace::Attribute, c);
        next.carry(self.after_attribute, TagPlace::AfterAttribute, c);
        next.carry(self.value, TagPlace::Value, c);
        next.carry(self.unquoted, TagPlace::Unquoted, c);
        next.carry(self.double_quoted, TagPlace::DoubleQuoted, c);
        next.carry(self.single_quoted, TagPlace::SingleQuoted, c);
        proof {
            assert forall|q: TagPlace| next.has(q) == carried(*self, c, q) by {
                assert(forall|p: TagPlace| #[trigger]
                    self.has(p) && lives(p, c) && after_char(p, c) == q ==> carried(*self, c, q));
                assert(self.has(TagPlace::Name) == self.name);
                assert(self.has(TagPlace::Gap) == self.gap);
                assert(self.has(TagPlace::Attribute) == self.attribute);
                assert(self.has(TagPlace::AfterAttribute) == self.after_attribute);
                assert(self.has(TagPlace::Value) == self.value);
                assert(self.has(TagPlace::Unquoted) == self.unquoted);
                assert(self.has(TagPlace::DoubleQuoted) == self.double_quoted);
                assert(self.has(TagPlace::SingleQuoted) == self.single_quoted);
            }
        }
        next
    }
}

/// Whether a tag goes on behind a character at this place.
spec fn lives(place: TagPlace, c: char) -> bool {
    c != '>' || is_quoted(place)
}

/// Whether this is a place behind `c`, where `places` are those of `c`.
spec fn carried(places: Places, c: char, q: TagPlace) -> bool {
    exists|p: TagPlace| #[trigger] places.has(p) && lives(p, c) && after_char(p, c) == q
}

/// Whether some image tag that is open at position `k` has it at this place.
spec fn reaches(html: Seq<char>, k: int, place: TagPlace) -> bool {
    exists|t: int| #[trigger] image_tag_at(html, t, k) && place_at(html, t, k) == place
}

/// The places of the next position: those behind the character, and the first behind `<img`.
proof fn lemma_reaches_next(html: Seq<char>, places: Places, i: int, q: TagPlace)
    requires
        0 <= i < html.len(),
        forall|p: TagPlace| places.has(p) == reaches(html, i, p),
    ensures
        reaches(html, i + 1, q) <==> carried(places, html[i], q) || (q is Name && occurs_at(
            lower(html),
            "<img"@,
            i - 3,
        )),
{
    reveal_strlit("<img");
    if reaches(html, i + 1, q) {
        let t = choose|t: int| #[trigger]
            image_tag_at(html, t, i + 1) && place_at(html, t, i + 1) == q;
        if t + 4 <= i {
            assert(image_tag_at(html, t, i));
            assert(!ends_tag(html, t, i));
            let p = place_at(html, t, i);
            assert(reaches(html, i, p));
            assert(places.has(p) && lives(p, html[i]) && after_char(p, html[i]) == q);
        }
    }
    if carried(places, html[i], q) {
        let p = choose|p: TagPlace| #[trigger]
            places.has(p) && lives(p, html[i]) && after_char(p, html[i]) == q;
        assert(reaches(html, i, p));
        let t = choose|t: int| #[trigger] image_tag_at(html, t, i) && place_at(html, t, i) == p;
        assert(!ends_tag(html, t, i));
        assert(image_tag_at(html, t, i + 1));
        assert(place_at(html, t, i + 1) == q);
    }
    if q is Name && occurs_at(lower(html), "<img"@, i - 3) {
        let t = i - 3;
        assert forall|j: int| t < j < i + 1 implies !#[trigger] ends_tag(html, t, j) by {
            assert(lower(html)[j] == lower(html).subrange(t, t + 4)[j - t]);
        }
        assert(image_tag_at(html, t, i + 1));
        assert(place_at(html, t, i + 1) == q);
    }
}

/// A source may begin where one of the places allows it.
proof fn lemma_takes_src(html: Seq<char>, places: Places, i: int)
    requires
        forall|p: TagPlace| places.has(p) == reaches(html, i, p),
    ensures
        (exists|t: int| takes_src(html, t, i)) <==> (places.name || (!is_name_char(html[i - 1]) && (
        places.gap || places.attribute || places.after_attribute || places.value
            || places.unquoted))),
{
    if exists|t: int| takes_src(html, t, i) {
        let t = choose|t: int| takes_src(html, t, i);
        assert(image_tag_at(html, t, i));
        assert(reaches(html, i, place_at(html, t, i)));
        assert(places.has(place_at(html, t, i)));
    }
    assert forall|p: TagPlace|
        #[trigger] places.has(p) && !is_quoted(p) && (p is Name || !is_name_char(
            html[i - 1],
        )) implies exists|t: int| takes_src(html, t, i) by {
        assert(reaches(html, i, p));
        let t = choose|t: int| #[trigger] image_tag_at(html, t, i) && place_at(html, t, i) == p;
        assert(takes_src(html, t, i));
    }
    assert(places.has(TagPlace::Name) == places.name);
    assert(places.has(TagPlace::Gap) == places.gap);
    assert(places.has(TagPlace::Attribute) == places.attribute);
    assert(places.has(TagPlace::AfterAttribute) == places.after_attribute);
    assert(places.has(TagPlace::Value) == places.value);
    assert(places.has(TagPlace::Unquoted) == places.unquoted);
}

/// Finds the first `src="` of an image tag; `small` is the page in lower case.
fn find_image_src(html: &Vec<char>, small: &Vec<char>) -> (found: Option<usize>)
    requires
        small@ == lower(html@),
    ensures
        match found {
            Some(k) => {
                &&& image_src_from(html@, 0) == Some(k as int)
                &&& k + 5 <= html@.len() <= usize::MAX
            },
            None => image_src_from(html@, 0) is None,
        },
{
    let tag = chars_of("<img");
    let needle = chars_of("src=\"");
    proof {
        reveal_strlit("<img");
        reveal_strlit("src=\"");
    }
    let mut places = Places::none();
    let mut i: usize = 0;
    assert forall|p: TagPlace| !reaches(html@, 0, p) by {}
    while html.len() - i >= 5
        invariant
            i <= html@.len(),
            small@ == lower(html@),
            tag@ == "<img"@,
            tag@.len() == 4,
            needle@ == "src=\""@,
            needle@.len() == 5,
            image_src_from(html@, 0) == image_src_from(html@, i as int),
            i == 0 ==> !places.name && !places.gap && !places.attribute && !places.after_attribute
                && !places.value && !places.unquoted,
            forall|p: TagPlace| places.has(p) == reaches(html@, i as int, p),
        decreases html@.len() - i,
    {
        proof {
            lemma_takes_src(html@, places, i as int);
        }
        let between = places.gap || places.attribute || places.after_attribute || places.value
            || places.unquoted;
        let takes = places.name || (between && i > 0 && !name_char(html[i - 1]));
        if takes && stands_at(html, &needle, i) {
            return Some(i);
        }
        let ghost before = places;
        places = places.behind(html[i]);
        proof {
            assert forall|q: TagPlace| reaches(html@, i + 1, q) == (carried(
                before,
                html@[i as int],
                q,
            ) || (q is Name && occurs_at(lower(html@), "<img"@, i - 3))) by {
                lemma_reaches_next(html@, before, i as int, q);
            }
        }
        let ghost carried_on = places;
        if i >= 3 && stands_at(small, &tag, i - 3) {
            places.name = true;
        }
        assert forall|q: TagPlace| places.has(q) == reaches(html@, i + 1, q) by {
            assert(carried_on.has(q) == carried(before, html@[i as int], q));
            if !(q is Name) {
                assert(places.has(q) == carried_on.has(q));
            }
        }
        i += 1;
    }
    None
}

/// Pulls the source of the first `<img ... src="...">` out of a wrapper page.
pub fn extract_first_img_src(html: &str) -> (src: Option<String>)
    ensures
        view_opt(src) == first_src(html@),
{
    let chars = chars_of(html);
    let small = to_ascii_lowercase(html);
    let small_chars = chars_of(small.as_str());
    let quote = chars_of("\"");
    proof {
        reveal_strlit("\"");
    }
    match find_image_src(&chars, &small_chars) {
        Some(at) => {
            let start: usize = at + 5;
            match find_chars(&chars, &quote, start) {
                Some(end) => Some(text_of(&chars, start, end)),
                None => None,
            }
        },
        None => None,
    }
}

/// The port as it stands in an address.
pub open spec fn port_text(port: Option<u16>) -> Seq<char> {
    match port {
        Some(number) => ":"@ + decimal(number as int),
        None => Seq::empty(),
    }
}

/// The referer that fits an address with these parts: the root of its origin.
pub open spec fn site_root(parts: Option<UrlPartsView>) -> Option<Seq<char>> {
    match parts {
        Some(UrlPartsView { scheme, host: Some(host), port }) => Some(
            scheme + "://"@ + host + port_text(port) + "/"@,
        ),
        _ => None,
    }
}

/// The referer that fits an address with these parts: the root of its origin.
pub fn referer(parts: Option<UrlParts>) -> (root: Option<String>)
    ensures
        view_opt(root) == site_root(view_opt(parts)),
{
    match parts {
        Some(UrlParts { scheme, host: Some(host), port }) => {
            let mut root = scheme;
            root.append("://");
            root.append(host.as_str());
            let ghost before = root@;
            if let Some(number) = port {
                let digits = to_decimal(number as i64);
                root.append(":");
                root.append(digits.as_str());
            }
            assert(root@ =~= before + port_text(port));
            root.append("/");
            Some(root)
        },
        _ => None,
    }
}

/// What header fields stand for.
pub open spec fn header_views(headers: Seq<(String, String)>) -> Seq<(Seq<char>, Seq<char>)> {
    headers.map_values(|h: (String, String)| (h.0@, h.1@))
}

/// The header fields of an image request, where the referer is this.
pub open spec fn image_fields(referer: Option<Seq<char>>) -> Seq<(Seq<char>, Seq<char>)> {
    match referer {
        Some(r) => seq![("Accept"@, IMAGE_ACCEPT@), ("Referer"@, r)],
        None => seq![("Accept"@, IMAGE_ACCEPT@)],
    }
}

/// The header fields of a request for an image at an address with these parts.
pub fn image_headers(parts: Option<UrlParts>) -> (headers: Vec<(String, String)>)
    ensures
        header_views(headers@) == image_fields(site_root(view_opt(parts))),
{
    let mut headers: Vec<(String, String)> = Vec::new();
    headers.push(("Accept".to_owned(), IMAGE_ACCEPT.to_owned()));
    if let Some(root) = referer(parts) {
        headers.push(("Referer".to_owned(), root));
    }
    assert(header_views(headers@) =~= image_fields(site_root(view_opt(parts))));
    headers
}

/// The header fields of a request for the image at `url`: what it accepts, and, where the address
/// has a host, the root of its origin as the referer.
pub fn build_image_get(url: &str) -> (headers: Vec<(String, String)>)
    ensures
        header_views(headers@) == image_fields(site_root(url_parts(url@))),
{
    image_headers(parse_url(url))
}

/// What an image fetch does next.
#[derive(Debug, Clone)]
pub enum ImageStage {
    /// Requests the address.
    Request,
    /// Asks the challenge solver for help, after the request has failed.
    ReSolve,
    /// Requests the address again, after the solver has helped.
    Retry,
    /// Reads the answer as a wrapper page.
    ReadPage,
    /// Reads the answer as the bytes of the image.
    ReadImage,
    /// Ends with this error.
    Refused(Error),
    /// Ends with the failure that was met last.
    GiveUp,
}

/// An [`ImageStage`] with its texts as sequences of characters.
pub enum ImageStageView {
    Request,
    ReSolve,
    Retry,
    ReadPage,
    ReadImage,
    Refused(ErrorView),
    GiveUp,
}

impl View for ImageStage {
    type V = ImageStageView;

    open spec fn view(&self) -> ImageStageView {
        match self {
            ImageStage::Request => ImageStageView::Request,
            ImageStage::ReSolve => ImageStageView::ReSolve,
            ImageStage::Retry => ImageStageView::Retry,
            ImageStage::ReadPage => ImageStageView::ReadPage,
            ImageStage::ReadImage => ImageStageView::ReadImage,
            ImageStage::Refused(error) => ImageStageView::Refused(error@),
            ImageStage::GiveUp => ImageStageView::GiveUp,
        }
    }
}

impl ImageStageView {
    /// Whether the limiter is to be asked first: for every request for an address, but not for
    /// solving a challenge, and not for reading an answer.
    pub open spec fn is_limited(self) -> bool {
        self is Request || self is Retry
    }

    /// How many bytes of an answer are read at most, where the library sets a limit: of an image.
    pub open spec fn read_limit(self) -> Option<u64> {
        if self is ReadImage {
            Some(LIMIT_BYTES)
        } else {
            None
        }
    }
}

impl ImageStage {
    /// Whether the limiter is to be asked first.
    pub fn is_limited(&self) -> (limited: bool)
        ensures
            limited == self@.is_limited(),
    {
        match self {
            ImageStage::Request | ImageStage::Retry => true,
            _ => false,
        }
    }

    /// How many bytes of an answer are read at most, where the library sets a limit.
    pub fn read_limit(&self) -> (limit: Option<u64>)
        ensures
            limit == self@.read_limit(),
    {
        match self {
            ImageStage::ReadImage => Some(LIMIT_BYTES),
            _ => None,
        }
    }
}

/// What happened to an image fetch.
#[derive(Debug, Clone)]
pub enum ImageEvent {
    /// The request failed, or its answer could not be read.
    Failure,
    /// The challenge solver has helped, or has not.
    ReSolved(bool),
    /// An answer came with this status and content type.
    Response(u16, Option<String>),
    /// The answer was read as this wrapper page.
    Page(String),
}

/// An [`ImageEvent`] with its texts as sequences of characters.
pub enum ImageEventView {
    Failure,
    ReSolved(bool),
    Response(u16, Option<Seq<char>>),
    Page(Seq<char>),
}

impl View for ImageEvent {
    type V = ImageEventView;

    open spec fn view(&self) -> ImageEventView {
        match self {
            ImageEvent::Failure => ImageEventView::Failure,
            ImageEvent::ReSolved(solved) => ImageEventView::ReSolved(*solved),
            ImageEvent::Response(status, kind) => ImageEventView::Response(
                *status,
                view_opt(*kind),
            ),
            ImageEvent::Page(html) => ImageEventView::Page(html@),
        }
    }
}

/// An image fetch: the address in hand, the number of wrapper pages that led there, and what to do
/// next.
#[derive(Debug, Clone)]
pub struct ImageFetch {
    pub url: String,
    pub depth: u8,
    pub stage: ImageStage,
}

/// An [`ImageFetch`] with its texts as sequences of characters.
pub struct ImageFetchView {
    pub url: Seq<char>,
    pub depth: u8,
    pub stage: ImageStageView,
}

impl View for ImageFetch {
    type V = ImageFetchView;

    open spec fn view(&self) -> ImageFetchView {
        ImageFetchView { url: self.url@, depth: self.depth, stage: self.stage@ }
    }
}

/// What to do at an address that so many wrapper pages led to.
pub open spec fn arrival(url: Seq<char>, depth: u8) -> ImageFetchView {
    ImageFetchView {
        url,
        depth,
        stage: if depth > MAX_HOPS {
            ImageStageView::Refused(ErrorView::TooManyHops(url))
        } else {
            ImageStageView::Request
        },
    }
}

/// What to do with an answer with this status and content type from an address.
pub open spec fn reply_stage(
    url: Seq<char>,
    status: u16,
    content_type: Option<Seq<char>>,
) -> ImageStageView {
    if status >= 400 {
        ImageStageView::Refused(ErrorView::ImageStatus(status, url))
    } else if content_type is Some && begins_with(lower(content_type->0), "text/html"@) {
        ImageStageView::ReadPage
    } else {
        ImageStageView::ReadImage
    }
}

impl ImageFetchView {
    /// The fetch at another stage.
    pub open spec fn at(self, stage: ImageStageView) -> ImageFetchView {
        ImageFetchView { url: self.url, depth: self.depth, stage }
    }

    /// Whether the number of wrapper pages is one that fetches reach.
    pub open spec fn well_formed(self) -> bool {
        &&& self.depth <= MAX_HOPS + 1
        &&& self.depth > MAX_HOPS ==> self.stage is Refused
    }

    /// Whether the fetch waits for such an event.
    pub open spec fn awaits(self, event: ImageEventView) -> bool {
        match (self.stage, event) {
            (ImageStageView::Request, ImageEventView::Failure) => true,
            (ImageStageView::Request, ImageEventView::Response(..)) => true,
            (ImageStageView::ReSolve, ImageEventView::ReSolved(_)) => true,
            (ImageStageView::Retry, ImageEventView::Failure) => true,
            (ImageStageView::Retry, ImageEventView::Response(..)) => true,
            (ImageStageView::ReadPage, ImageEventView::Failure) => true,
            (ImageStageView::ReadPage, ImageEventView::Page(_)) => true,
            (ImageStageView::ReadImage, ImageEventView::Failure) => true,
            _ => false,
        }
    }

    /// The fetch that a wrapper page leads to, where the image that it shows has the reference
    /// `src`, which resolves to `joined` against the address of the page.
    pub open spec fn followed(
        self,
        src: Option<Seq<char>>,
        joined: Option<Seq<char>>,
    ) -> ImageFetchView {
        match (src, joined) {
            (Some(_), Some(address)) => arrival(address, (self.depth + 1) as u8),
            (Some(reference), None) => arrival(reference, (self.depth + 1) as u8),
            (None, _) => self.at(ImageStageView::Refused(ErrorView::NoImage(self.url))),
        }
    }

    /// The fetch after an event; `has_solver` says whether there is a challenge solver to ask. An
    /// event that the fetch does not wait for changes nothing.
    pub open spec fn after(self, event: ImageEventView, has_solver: bool) -> ImageFetchView {
        if !self.awaits(event) {
            self
        } else {
            match event {
                ImageEventView::Failure => if self.stage is Request && has_solver {
                    self.at(ImageStageView::ReSolve)
                } else {
                    self.at(ImageStageView::GiveUp)
                },
                ImageEventView::ReSolved(solved) => if solved {
                    self.at(ImageStageView::Retry)
                } else {
                    self.at(ImageStageView::GiveUp)
                },
                ImageEventView::Response(status, content_type) => self.at(
                    reply_stage(self.url, status, content_type),
                ),
                ImageEventView::Page(html) => self.followed(
                    first_src(html),
                    match first_src(html) {
                        Some(reference) => url_join(self.url, reference),
                        None => None,
                    },
                ),
            }
        }
    }

    /// The fetch after a run of events.
    pub open spec fn after_all(
        self,
        events: Seq<ImageEventView>,
        has_solver: bool,
    ) -> ImageFetchView
        decreases events.len(),
    {
        if events.len() == 0 {
            self
        } else {
            self.after_all(events.drop_last(), has_solver).after(events.last(), has_solver)
        }
    }

    /// A bound on the events that the fetch still waits for.
    pub open spec fn rank(self) -> int {
        match self.stage {
            ImageStageView::Request => 5 * (3 - self.depth) + 5,
            ImageStageView::ReSolve => 5 * (3 - self.depth) + 4,
            ImageStageView::Retry => 5 * (3 - self.depth) + 3,
            ImageStageView::ReadPage => 5 * (3 - self.depth) + 2,
            ImageStageView::ReadImage => 1,
            ImageStageView::Refused(_) => 0,
            ImageStageView::GiveUp => 0,
        }
    }
}

impl ImageFetch {
    /// The fetch of the image at `url`, before any request.
    pub fn start(url: &str) -> (fetch: ImageFetch)
        ensures
            fetch@ == arrival(url@, 0),
            fetch@.well_formed(),
    {
        ImageFetch { url: url.to_owned(), depth: 0, stage: ImageStage::Request }
    }

    /// What to do with an answer with this status and content type.
    fn reply(&self, status: u16, content_type: Option<String>) -> (stage: ImageStage)
        ensures
            stage@ == reply_stage(self.url@, status, view_opt(content_type)),
    {
        if status >= 400 {
            return ImageStage::Refused(Error::ImageStatus(status, self.url.clone()));
        }
        if let Some(content_type) = content_type {
            let kind = to_ascii_lowercase(content_type.as_str());
            if starts_with(kind.as_str(), "text/html") {
                return ImageStage::ReadPage;
            }
        }
        ImageStage::ReadImage
    }

    /// The fetch that a wrapper page leads to, where the image that it shows has the reference
    /// `src`, which resolves to `joined` against the address of the page.
    pub fn follow(self, src: Option<String>, joined: Option<String>) -> (next: ImageFetch)
        requires
            self@.well_formed(),
            self.stage is ReadPage,
        ensures
            next@ == self@.followed(view_opt(src), view_opt(joined)),
            next@.well_formed(),
    {
        match src {
            Some(reference) => {
                let url = match joined {
                    Some(address) => address,
                    None => reference,
                };
                let depth: u8 = self.depth + 1;
                if depth > MAX_HOPS {
                    let refused = Error::TooManyHops(url.clone());
                    ImageFetch { url, depth, stage: ImageStage::Refused(refused) }
                } else {
                    ImageFetch { url, depth, stage: ImageStage::Request }
                }
            },
            None => {
                let refused = Error::NoImage(self.url.clone());
                ImageFetch {
                    url: self.url,
                    depth: self.depth,
                    stage: ImageStage::Refused(refused),
                }
            },
        }
    }

    /// The fetch after an event; `has_solver` says whether there is a challenge solver to ask. An
    /// event that the fetch does not wait for changes nothing.
    pub fn advance(self, event: ImageEvent, has_solver: bool) -> (next: ImageFetch)
        requires
            self@.well_formed(),
        ensures
            next@ == self@.after(event@, has_solver),
            next@.well_formed(),
    {
        let stage = match (&self.stage, event) {
            (ImageStage::Request, ImageEvent::Failure) => if has_solver {
                ImageStage::ReSolve
            } else {
                ImageStage::GiveUp
            },
            (ImageStage::ReSolve, ImageEvent::ReSolved(solved)) => if solved {
                ImageStage::Retry
            } else {
                ImageStage::GiveUp
            },
            (ImageStage::Retry, ImageEvent::Failure) => ImageStage::GiveUp,
            (ImageStage::ReadPage, ImageEvent::Failure) => ImageStage::GiveUp,
            (ImageStage::ReadImage, ImageEvent::Failure) => ImageStage::GiveUp,
            (ImageStage::Request, ImageEvent::Response(status, content_type)) => self.reply(
                status,
                content_type,
            ),
            (ImageStage::Retry, ImageEvent::Response(status, content_type)) => self.reply(
                status,
                content_type,
            ),
            (ImageStage::ReadPage, ImageEvent::Page(html)) => {
                let src = extract_first_img_src(html.as_str());
                let joined = match &src {
                    Some(reference) => join_url(self.url.as_str(), reference.as_str()),
                    None => None,
                };
                return self.follow(src, joined);
            },
            _ => {
                return self;
            },
        };
        ImageFetch { url: self.url, depth: self.depth, stage }
    }
}

/// The source that is taken belongs to an image tag, and no image tag has one before it; none is
/// taken only where no image tag has one.
pub proof fn law_first_image_counts(html: Seq<char>)
    ensures
        match image_src_from(html, 0) {
            Some(k) => {
                &&& 0 <= k
                &&& image_src_at(html, k)
                &&& forall|j: int| 0 <= j < k ==> !image_src_at(html, j)
            },
            None => forall|j: int| 0 <= j ==> !image_src_at(html, j),
        },
{
    lemma_image_src_from(html, 0);
}

/// Where every `src="` of a page is the source of an image tag, the first of them counts, up to the
/// next quotation mark; nothing is found only where no quotation mark stands behind one.
pub proof fn law_first_source_counts(html: Seq<char>)
    requires
        forall|k: int| #[trigger] occurs_at(html, "src=\""@, k) ==> image_src_at(html, k),
    ensures
        match find_from(html, "src=\""@, 0) {
            Some(start) => match find_from(html, "\""@, start + 5) {
                Some(end) => first_src(html) == Some(html.subrange(start + 5, end)),
                None => first_src(html) is None,
            },
            None => first_src(html) is None,
        },
{
    lemma_find_from(html, "src=\""@, 0);
    law_first_image_counts(html);
}

proof fn lemma_image_src_from(html: Seq<char>, from: int)
    requires
        0 <= from,
    ensures
        match image_src_from(html, from) {
            Some(k) => {
                &&& from <= k
                &&& image_src_at(html, k)
                &&& forall|j: int| from <= j < k ==> !image_src_at(html, j)
            },
            None => forall|j: int| from <= j ==> !image_src_at(html, j),
        },
    decreases html.len() + 1 - from,
{
    reveal_strlit("src=\"");
    if from + 5 <= html.len() && !image_src_at(html, from) {
        lemma_image_src_from(html, from + 1);
    }
}

/// Every event that a fetch waits for brings it nearer to its end.
pub proof fn law_image_fetch_advances(
    fetch: ImageFetchView,
    event: ImageEventView,
    has_solver: bool,
)
    requires
        fetch.well_formed(),
        fetch.awaits(event),
    ensures
        fetch.after(event, has_solver).well_formed(),
        0 <= fetch.after(event, has_solver).rank() < fetch.rank(),
{
}

/// Only the answer to a request is read as an image, and only where its status is no error and it
/// is no page.
pub proof fn law_only_images_are_read(
    fetch: ImageFetchView,
    event: ImageEventView,
    has_solver: bool,
)
    requires
        !(fetch.stage is ReadImage),
        fetch.after(event, has_solver).stage is ReadImage,
    ensures
        event is Response,
        event->Response_0 < 400,
        event->Response_1 matches Some(kind) ==> !begins_with(lower(kind), "text/html"@),
{
}

/// How often an address is requested while a fetch runs through events that it waits for.
pub open spec fn requests(
    fetch: ImageFetchView,
    events: Seq<ImageEventView>,
    has_solver: bool,
) -> int
    decreases events.len(),
{
    if events.len() == 0 {
        0
    } else {
        let before = fetch.after_all(events.drop_last(), has_solver);
        requests(fetch, events.drop_last(), has_solver) + if before.stage is Request
            || before.stage is Retry {
            1int
        } else {
            0int
        }
    }
}

/// Whether a fetch waits for each of the events when it comes.
pub open spec fn awaits_all(
    fetch: ImageFetchView,
    events: Seq<ImageEventView>,
    has_solver: bool,
) -> bool
    decreases events.len(),
{
    events.len() == 0 || {
        &&& awaits_all(fetch, events.drop_last(), has_solver)
        &&& fetch.after_all(events.drop_last(), has_solver).awaits(events.last())
    }
}

/// An image fetch ends, whatever it meets: at most three addresses are requested, each at most
/// twice, and each once only where there is no challenge solver.
pub proof fn law_image_requests_bounded(
    url: Seq<char>,
    events: Seq<ImageEventView>,
    has_solver: bool,
)
    requires
        awaits_all(arrival(url, 0), events, has_solver),
    ensures
        requests(arrival(url, 0), events, has_solver) <= if has_solver {
            6int
        } else {
            3int
        },
{
    lemma_requests_bounded(url, events, has_solver);
}

/// The requests that have been made before a fetch is at this stage, at most.
spec fn requests_before(fetch: ImageFetchView, has_solver: bool) -> int {
    let per_hop: int = if has_solver {
        2
    } else {
        1
    };
    match fetch.stage {
        ImageStageView::Request => per_hop * fetch.depth,
        ImageStageView::ReSolve => per_hop * fetch.depth + 1,
        ImageStageView::Retry => per_hop * fetch.depth + 1,
        ImageStageView::ReadPage => per_hop * (fetch.depth + 1),
        ImageStageView::ReadImage => per_hop * (fetch.depth + 1),
        _ => per_hop * 3,
    }
}

proof fn lemma_requests_bounded(url: Seq<char>, events: Seq<ImageEventView>, has_solver: bool)
    requires
        awaits_all(arrival(url, 0), events, has_solver),
    ensures
        ({
            let now = arrival(url, 0).after_all(events, has_solver);
            &&& now.well_formed()
            &&& !has_solver ==> !(now.stage is ReSolve) && !(now.stage is Retry)
            &&& requests(arrival(url, 0), events, has_solver) <= requests_before(now, has_solver)
            &&& requests_before(now, has_solver) <= if has_solver {
                6int
            } else {
                3int
            }
        }),
    decreases events.len(),
{
    if events.len() > 0 {
        lemma_requests_bounded(url, events.drop_last(), has_solver);
        let before = arrival(url, 0).after_all(events.drop_last(), has_solver);
        law_image_fetch_advances(before, events.last(), has_solver);
    }
}

// ---------------------------------------------------------------------------
// Laws on image tags
// ---------------------------------------------------------------------------

/// What a character does to the place in a tag: white space ends a name or a value without
/// quotation marks, a slash ends a name, an equals sign begins a value, a quotation mark opens a
/// value and the same mark closes it; inside quotation marks nothing else counts.
pub proof fn law_tag_places(c: char)
    ensures
        c == ' ' || c == '\t' || c == '\n' || c == '\u{c}' || c == '\r' ==> {
            &&& after_char(TagPlace::Name, c) == TagPlace::Gap
            &&& after_char(TagPlace::Gap, c) == TagPlace::Gap
            &&& after_char(TagPlace::Attribute, c) == TagPlace::AfterAttribute
            &&& after_char(TagPlace::AfterAttribute, c) == TagPlace::AfterAttribute
            &&& after_char(TagPlace::Value, c) == TagPlace::Value
            &&& after_char(TagPlace::Unquoted, c) == TagPlace::Gap
        },
        c == '/' ==> {
            &&& after_char(TagPlace::Name, c) == TagPlace::Gap
            &&& after_char(TagPlace::Gap, c) == TagPlace::Gap
            &&& after_char(TagPlace::Attribute, c) == TagPlace::Gap
            &&& after_char(TagPlace::AfterAttribute, c) == TagPlace::Gap
        },
        c == '=' ==> {
            &&& after_char(TagPlace::Gap, c) == TagPlace::Attribute
            &&& after_char(TagPlace::Attribute, c) == TagPlace::Value
            &&& after_char(TagPlace::AfterAttribute, c) == TagPlace::Value
        },
        c != ' ' && c != '\t' && c != '\n' && c != '\u{c}' && c != '\r' ==> {
            &&& c != '/' ==> after_char(TagPlace::Name, c) == TagPlace::Name
            &&& c != '/' ==> after_char(TagPlace::Gap, c) == TagPlace::Attribute
            &&& c != '/' && c != '=' ==> after_char(TagPlace::Attribute, c) == TagPlace::Attribute
            &&& c != '/' && c != '=' ==> after_char(TagPlace::AfterAttribute, c)
                == TagPlace::Attribute
            &&& c != '"' && c != '\'' ==> after_char(TagPlace::Value, c) == TagPlace::Unquoted
            &&& after_char(TagPlace::Unquoted, c) == TagPlace::Unquoted
        },
        after_char(TagPlace::Value, '"') == TagPlace::DoubleQuoted,
        after_char(TagPlace::Value, '\'') == TagPlace::SingleQuoted,
        after_char(TagPlace::DoubleQuoted, c) == if c == '"' {
            TagPlace::Gap
        } else {
            TagPlace::DoubleQuoted
        },
        after_char(TagPlace::SingleQuoted, c) == if c == '\'' {
            TagPlace::Gap
        } else {
            TagPlace::SingleQuoted
        },
{
}

/// A source of an image stands in a tag that `<img` opens, in upper or lower case, that no `>`
/// outside quotation marks has closed, itself outside quotation marks; and unless it stands right in
/// the tag's name, no letter, digit or hyphen stands before it.
pub proof fn law_image_src_at(html: Seq<char>, k: int)
    ensures
        image_src_at(html, k) <==> occurs_at(html, "src=\""@, k) && exists|t: int|
            {
                &&& #[trigger] occurs_at(lower(html), "<img"@, t)
                &&& t + 4 <= k
                &&& forall|j: int| t < j < k ==> !#[trigger] ends_tag(html, t, j)
                &&& !(place_at(html, t, k) is DoubleQuoted)
                &&& !(place_at(html, t, k) is SingleQuoted)
                &&& place_at(html, t, k) is Name || !('a' <= html[k - 1] <= 'z' || 'A' <= html[k
                    - 1] <= 'Z' || '0' <= html[k - 1] <= '9' || html[k - 1] == '-')
            },
        forall|t: int, j: int| #[trigger]
            ends_tag(html, t, j) <==> html[j] == '>' && !(place_at(html, t, j) is DoubleQuoted)
                && !(place_at(html, t, j) is SingleQuoted),
{
    assert forall|t: int| #[trigger] takes_src(html, t, k) implies occurs_at(
        lower(html),
        "<img"@,
        t,
    ) && t + 4 <= k by {}
    assert forall|t: int|
        #[trigger] occurs_at(lower(html), "<img"@, t) && t + 4 <= k && (forall|j: int|
            t < j < k ==> !#[trigger] ends_tag(html, t, j)) && !is_quoted(place_at(html, t, k)) && (
        place_at(html, t, k) is Name || !is_name_char(html[k - 1])) implies takes_src(
        html,
        t,
        k,
    ) by {
        assert(image_tag_at(html, t, k));
    }
}

/// The place in a tag goes from character to character, and is the tag's name behind `<img`.
pub proof fn law_place_at(html: Seq<char>, t: int, k: int)
    requires
        t + 4 <= k,
    ensures
        place_at(html, t, t + 4) == TagPlace::Name,
        place_at(html, t, k + 1) == after_char(place_at(html, t, k), html[k]),
{
}

/// What is taken of a page stands behind the first source of an image, up to the next quotation
/// mark. Nothing is taken where there is no such source, or no quotation mark behind it.
pub proof fn law_first_src(html: Seq<char>)
    ensures
        match first_src(html) {
            Some(src) => exists|k: int|
                {
                    &&& 0 <= k
                    &&& #[trigger] image_src_at(html, k)
                    &&& forall|j: int| 0 <= j < k ==> !image_src_at(html, j)
                    &&& k + 5 + src.len() < html.len()
                    &&& html.subrange(k + 5, k + 5 + src.len()) == src
                    &&& html[k + 5 + src.len()] == '"'
                    &&& !src.contains('"')
                },
            None => forall|k: int|
                0 <= k && #[trigger] image_src_at(html, k) && (forall|j: int|
                    0 <= j < k ==> !image_src_at(html, j)) ==> forall|e: int|
                    k + 5 <= e < html.len() ==> html[e] != '"',
        },
{
    reveal_strlit("\"");
    law_first_image_counts(html);
    match image_src_from(html, 0) {
        Some(k) => {
            lemma_find_from(html, "\""@, k + 5);
            match find_from(html, "\""@, k + 5) {
                Some(end) => {
                    let src = html.subrange(k + 5, end);
                    assert(html[end] == html.subrange(end, end + 1)[0]);
                    assert forall|i: int| 0 <= i < src.len() implies src[i] != '"' by {
                        if src[i] == '"' {
                            assert(html.subrange(k + 5 + i, k + 5 + i + 1) =~= "\""@);
                            assert(occurs_at(html, "\""@, k + 5 + i));
                        }
                    }
                },
                None => {
                    assert forall|e: int| k + 5 <= e < html.len() implies html[e] != '"' by {
                        if html[e] == '"' {
                            assert(html.subrange(e, e + 1) =~= "\""@);
                            assert(occurs_at(html, "\""@, e));
                        }
                    }
                },
            }
        },
        None => {},
    }
}

/// Between characters that are no quotation marks no quotation marks open.
proof fn lemma_stays_unquoted(html: Seq<char>, t: int, from: int, k: int)
    requires
        t + 4 <= from <= k,
        !is_quoted(place_at(html, t, from)),
        forall|j: int| from <= j < k ==> #[trigger] html[j] != '"' && html[j] != '\'',
    ensures
        !is_quoted(place_at(html, t, k)),
    decreases k - from,
{
    if from < k {
        lemma_stays_unquoted(html, t, from, k - 1);
        assert(html[k - 1] != '"' && html[k - 1] != '\'');
    }
}

/// Between characters other than the mark that opened them quotation marks stay open.
proof fn lemma_stays_quoted(html: Seq<char>, t: int, from: int, k: int, mark: char)
    requires
        t + 4 <= from <= k,
        mark == '"' && place_at(html, t, from) is DoubleQuoted || mark == '\'' && place_at(
            html,
            t,
            from,
        ) is SingleQuoted,
        forall|j: int| from <= j < k ==> #[trigger] html[j] != mark,
    ensures
        place_at(html, t, k) == place_at(html, t, from),
    decreases k - from,
{
    if from < k {
        lemma_stays_quoted(html, t, from, k - 1, mark);
        assert(html[k - 1] != mark);
    }
}

proof fn lemma_source_is_taken(html: Seq<char>, k: int, src: Seq<char>)
    requires
        0 <= k,
        image_src_at(html, k),
        forall|j: int| 0 <= j < k ==> !image_src_at(html, j),
        k + 5 + src.len() < html.len(),
        html.subrange(k + 5, k + 5 + src.len()) == src,
        html[k + 5 + src.len()] == '"',
        !src.contains('"'),
    ensures
        first_src(html) == Some(src),
{
    law_first_src(html);
    let end = k + 5 + src.len();
    match first_src(html) {
        Some(other) => {
            let l = choose|l: int|
                {
                    &&& 0 <= l
                    &&& #[trigger] image_src_at(html, l)
                    &&& forall|j: int| 0 <= j < l ==> !image_src_at(html, j)
                    &&& l + 5 + other.len() < html.len()
                    &&& html.subrange(l + 5, l + 5 + other.len()) == other
                    &&& html[l + 5 + other.len()] == '"'
                    &&& !other.contains('"')
                };
            assert(l == k);
            if other.len() < src.len() {
                assert(src[other.len() as int] == html[k + 5 + other.len()]);
                assert(src.contains(src[other.len() as int]));
            } else if other.len() > src.len() {
                assert(other[src.len() as int] == html[end]);
                assert(other.contains(other[src.len() as int]));
            }
            assert(other =~= src);
        },
        None => {
            assert(html[end] == '"');
        },
    }
}

/// The image that a page shows is found: the first `src="` of the page, where `<img`, in upper or
/// lower case, stands before it, and between them no `>` and no quotation mark, and white space or
/// nothing right before it.
pub proof fn law_image_is_found(
    html: Seq<char>,
    before: Seq<char>,
    tag: Seq<char>,
    between: Seq<char>,
    src: Seq<char>,
    behind: Seq<char>,
)
    requires
        html == before + tag + between + "src=\""@ + src + "\""@ + behind,
        lower(tag) == "<img"@,
        forall|j: int|
            0 <= j < between.len() ==> #[trigger] between[j] != '>' && between[j] != '"'
                && between[j] != '\'',
        between.len() == 0 || between.last() == ' ' || between.last() == '\n' || between.last()
            == '\t',
        !src.contains('"'),
        forall|k: int|
            #[trigger] occurs_at(html, "src=\""@, k)
                ==> k >= before.len() + tag.len() + between.len(),
    ensures
        first_src(html) == Some(src),
{
    reveal_strlit("<img");
    reveal_strlit("src=\"");
    reveal_strlit("\"");
    let t = before.len() as int;
    let k = t + 4 + between.len();
    assert(tag.len() == lower(tag).len());
    assert(lower(html).subrange(t, t + 4) =~= lower(tag));
    assert(occurs_at(lower(html), "<img"@, t));
    assert(html.subrange(k, k + 5) =~= "src=\""@);
    assert(occurs_at(html, "src=\""@, k));
    assert forall|j: int| t + 4 <= j < k implies #[trigger] html[j] != '"' && html[j] != '\'' by {
        assert(html[j] == between[j - t - 4]);
    }
    assert forall|j: int| t < j < k implies !#[trigger] ends_tag(html, t, j) by {
        if j < t + 4 {
            assert(lower(html)[j] == lower(html).subrange(t, t + 4)[j - t]);
        } else {
            assert(html[j] == between[j - t - 4]);
        }
    }
    lemma_stays_unquoted(html, t, t + 4, k);
    if between.len() > 0 {
        assert(html[k - 1] == between.last());
    }
    assert(takes_src(html, t, k));
    assert forall|j: int| 0 <= j < k implies !image_src_at(html, j) by {
        if occurs_at(html, "src=\""@, j) {
            assert(j >= k);
        }
    }
    assert(html.subrange(k + 5, k + 5 + src.len()) =~= src);
    assert(html[k + 5 + src.len()] == '"');
    lemma_source_is_taken(html, k, src);
}

/// A value in quotation marks hides what it holds, also `>`: the image is found behind an attribute
/// in double or in single quotation marks whatever stands in it.
pub proof fn law_image_is_found_behind_attribute(
    html: Seq<char>,
    before: Seq<char>,
    tag: Seq<char>,
    name: Seq<char>,
    mark: char,
    value: Seq<char>,
    src: Seq<char>,
    behind: Seq<char>,
)
    requires
        html == before + tag + seq![' '] + name + seq!['=', mark] + value + seq![mark, ' ']
            + "src=\""@ + src + "\""@ + behind,
        lower(tag) == "<img"@,
        name.len() > 0,
        forall|j: int| 0 <= j < name.len() ==> 'a' <= #[trigger] name[j] <= 'z',
        mark == '"' || mark == '\'',
        !value.contains(mark),
        !src.contains('"'),
        forall|k: int|
            #[trigger] occurs_at(html, "src=\""@, k)
                ==> k >= before.len() + tag.len() + name.len() + value.len() + 5,
    ensures
        first_src(html) == Some(src),
{
    reveal_strlit("<img");
    reveal_strlit("src=\"");
    reveal_strlit("\"");
    let t = before.len() as int;
    let n = t + 5 + name.len();
    let v = n + 2;
    let w = v + value.len();
    let k = w + 2;
    assert(tag.len() == lower(tag).len());
    assert(lower(html).subrange(t, t + 4) =~= lower(tag));
    assert(occurs_at(lower(html), "<img"@, t));
    assert(html.subrange(k, k + 5) =~= "src=\""@);
    assert(occurs_at(html, "src=\""@, k));
    assert(html[t + 4] == ' ');
    law_place_at(html, t, t + 4);
    assert(place_at(html, t, t + 5) is Gap);
    assert forall|j: int| t + 5 <= j < n implies 'a' <= #[trigger] html[j] <= 'z' by {
        assert(html[j] == name[j - t - 5]);
    }
    lemma_attribute_name(html, t, t + 5, n);
    assert(html[n] == '=' && html[n + 1] == mark);
    assert(place_at(html, t, n + 1) is Value);
    assert(is_quoted(place_at(html, t, v)));
    assert forall|j: int| v <= j < w implies #[trigger] html[j] != mark by {
        assert(html[j] == value[j - v]);
        assert(value.contains(value[j - v]));
    }
    lemma_stays_quoted(html, t, v, w, mark);
    assert(html[w] == mark && html[w + 1] == ' ');
    assert(place_at(html, t, w + 1) is Gap);
    assert(place_at(html, t, k) is Gap);
    assert forall|j: int| t < j < k implies !#[trigger] ends_tag(html, t, j) by {
        if j < t + 4 {
            assert(lower(html)[j] == lower(html).subrange(t, t + 4)[j - t]);
        } else if j < n && j >= t + 5 {
            assert('a' <= html[j] <= 'z');
        } else if v <= j < w {
            lemma_stays_quoted(html, t, v, j, mark);
        }
    }
    assert(html[k - 1] == ' ');
    assert(takes_src(html, t, k));
    assert forall|j: int| 0 <= j < k implies !image_src_at(html, j) by {
        if occurs_at(html, "src=\""@, j) {
            assert(j >= k);
        }
    }
    assert(html.subrange(k + 5, k + 5 + src.len()) =~= src);
    assert(html[k + 5 + src.len()] == '"');
    lemma_source_is_taken(html, k, src);
}

/// Letters behind a gap are the name of an attribute.
proof fn lemma_attribute_name(html: Seq<char>, t: int, from: int, to: int)
    requires
        t + 4 <= from < to,
        place_at(html, t, from) is Gap,
        forall|j: int| from <= j < to ==> 'a' <= #[trigger] html[j] <= 'z',
    ensures
        place_at(html, t, to) is Attribute,
    decreases to - from,
{
    assert('a' <= html[to - 1] <= 'z');
    if from + 1 < to {
        lemma_attribute_name(html, t, from, to - 1);
    }
}

/// A page that opens no image tag shows no image.
pub proof fn law_no_image_without_tag(html: Seq<char>)
    requires
        !contains(lower(html), "<img"@),
    ensures
        first_src(html) is None,
{
    law_first_image_counts(html);
    if let Some(k) = image_src_from(html, 0) {
        let t = choose|t: int| takes_src(html, t, k);
        assert(occurs_at(lower(html), "<img"@, t));
    }
}

/// A source outside the image tag does not count: where the one image tag of a page has ended with
/// `>` before any `src="`, no image is found.
pub proof fn law_source_outside_tag_does_not_count(
    html: Seq<char>,
    before: Seq<char>,
    tag: Seq<char>,
    between: Seq<char>,
    behind: Seq<char>,
)
    requires
        html == before + tag + between + seq!['>'] + behind,
        lower(tag) == "<img"@,
        forall|t: int|
            #[trigger] occurs_at(lower(html), "<img"@, t)
                ==> t == before.len(),
        forall|j: int|
            0 <= j < between.len() ==> #[trigger] between[j] != '"' && between[j] != '\'',
        forall|k: int|
            #[trigger] occurs_at(html, "src=\""@, k)
                ==> k > before.len() + tag.len() + between.len(),
    ensures
        first_src(html) is None,
{
    reveal_strlit("<img");
    let end = (before.len() + 4 + between.len()) as int;
    assert(tag.len() == lower(tag).len());
    assert(html[end] == '>');
    law_first_image_counts(html);
    if let Some(k) = image_src_from(html, 0) {
        let t = choose|t: int| takes_src(html, t, k);
        assert(occurs_at(lower(html), "<img"@, t));
        assert(t == before.len());
        assert(occurs_at(html, "src=\""@, k));
        assert forall|j: int| t + 4 <= j < end implies #[trigger] html[j] != '"' && html[j]
            != '\'' by {
            assert(html[j] == between[j - t - 4]);
        }
        lemma_stays_unquoted(html, t, t + 4, end);
        assert(ends_tag(html, t, end));
    }
}

/// The source of another name does not count: where `src="` stands only once in a page, behind a
/// letter, a digit or a hyphen in an image tag whose name has ended, as in `data-src="`, no image is
/// found.
pub proof fn law_other_source_does_not_count(
    html: Seq<char>,
    before: Seq<char>,
    tag: Seq<char>,
    between: Seq<char>,
    c: char,
    behind: Seq<char>,
)
    requires
        html == before + tag + seq![' '] + between + seq![c] + "src=\""@ + behind,
        lower(tag) == "<img"@,
        forall|t: int|
            #[trigger] occurs_at(lower(html), "<img"@, t) ==> t == before.len(),
        'a' <= c <= 'z' || 'A' <= c <= 'Z' || '0' <= c <= '9' || c == '-',
        forall|k: int|
            #[trigger] occurs_at(html, "src=\""@, k)
                ==> k == before.len() + tag.len() + between.len() + 2,
    ensures
        first_src(html) is None,
{
    reveal_strlit("<img");
    assert(tag.len() == lower(tag).len());
    law_first_image_counts(html);
    if let Some(k) = image_src_from(html, 0) {
        let t = choose|t: int| takes_src(html, t, k);
        assert(occurs_at(lower(html), "<img"@, t));
        assert(t == before.len());
        assert(occurs_at(html, "src=\""@, k));
        assert(html[k - 1] == c);
        assert(html[t + 4] == ' ');
        law_place_at(html, t, t + 4);
        assert(place_at(html, t, t + 5) is Gap);
        lemma_name_is_over(html, t, t + 5, k);
    }
}

/// Once the name of a tag has ended, it does not come back.
proof fn lemma_name_is_over(html: Seq<char>, t: int, from: int, k: int)
    requires
        t + 4 <= from <= k,
        !(place_at(html, t, from) is Name),
    ensures
        !(place_at(html, t, k) is Name),
    decreases k - from,
{
    if from < k {
        lemma_name_is_over(html, t, from, k - 1);
    }
}

/// A source inside quotation marks does not count: where `src="` stands only once in a page, in a
/// value of the image tag that a single quotation mark opened, no image is found.
pub proof fn law_quoted_source_does_not_count(
    html: Seq<char>,
    before: Seq<char>,
    tag: Seq<char>,
    name: Seq<char>,
    value: Seq<char>,
    behind: Seq<char>,
)
    requires
        html == before + tag + seq![' '] + name + seq!['=', '\''] + value + "src=\""@ + behind,
        lower(tag) == "<img"@,
        name.len() > 0,
        forall|j: int| 0 <= j < name.len() ==> 'a' <= #[trigger] name[j] <= 'z',
        !value.contains('\''),
        forall|t: int|
            #[trigger] occurs_at(lower(html), "<img"@, t) ==> t == before.len(),
        forall|k: int|
            #[trigger] occurs_at(html, "src=\""@, k)
                ==> k == before.len() + tag.len() + name.len() + value.len() + 3,
    ensures
        first_src(html) is None,
{
    reveal_strlit("<img");
    assert(tag.len() == lower(tag).len());
    law_first_image_counts(html);
    if let Some(k) = image_src_from(html, 0) {
        let t = choose|t: int| takes_src(html, t, k);
        assert(occurs_at(lower(html), "<img"@, t));
        assert(t == before.len());
        assert(occurs_at(html, "src=\""@, k));
        let n = t + 5 + name.len();
        let v = n + 2;
        assert(html[t + 4] == ' ');
        law_place_at(html, t, t + 4);
        assert(place_at(html, t, t + 5) is Gap);
        assert forall|j: int| t + 5 <= j < n implies 'a' <= #[trigger] html[j] <= 'z' by {
            assert(html[j] == name[j - t - 5]);
        }
        lemma_attribute_name(html, t, t + 5, n);
        assert(html[n] == '=' && html[n + 1] == '\'');
        assert(place_at(html, t, n + 1) is Value);
        assert(place_at(html, t, v) is SingleQuoted);
        assert forall|j: int| v <= j < k implies #[trigger] html[j] != '\'' by {
            assert(html[j] == value[j - v]);
            assert(value.contains(value[j - v]));
        }
        lemma_stays_quoted(html, t, v, k, '\'');
    }
}

// ---------------------------------------------------------------------------
// Laws on requests and fetches
// ---------------------------------------------------------------------------

/// The referer of an image request is the root of the origin that it goes to: scheme, host, and the
/// port where the address names one. An address without a host has none. Every request says what it
/// accepts.
pub proof fn law_image_headers(scheme: Seq<char>, host: Seq<char>, port: u16, root: Seq<char>)
    ensures
        site_root(Some(UrlPartsView { scheme, host: Some(host), port: None })) == Some(
            scheme + "://"@ + host + "/"@,
        ),
        site_root(Some(UrlPartsView { scheme, host: Some(host), port: Some(port) })) == Some(
            scheme + "://"@ + host + ":"@ + decimal(port as int) + "/"@,
        ),
        site_root(Some(UrlPartsView { scheme, host: None, port: None })) is None,
        site_root(Some(UrlPartsView { scheme, host: None, port: Some(port) })) is None,
        site_root(None) is None,
        image_fields(Some(root)) == seq![
            ("Accept"@, "image/avif,image/webp,image/apng,image/*,*/*;q=0.8"@),
            ("Referer"@, root),
        ],
        image_fields(None) == seq![
            ("Accept"@, "image/avif,image/webp,image/apng,image/*,*/*;q=0.8"@),
        ],
{
    let start = scheme + "://"@ + host;
    assert(start + Seq::<char>::empty() =~= start);
    assert(start + (":"@ + decimal(port as int)) =~= start + ":"@ + decimal(port as int));
}

/// Header fields are told one by one, in order.
pub proof fn law_header_views(headers: Seq<(String, String)>)
    ensures
        header_views(headers).len() == headers.len(),
        forall|i: int|
            0 <= i < headers.len() ==> #[trigger] header_views(headers)[i] == (
                headers[i].0@,
                headers[i].1@,
            ),
{
}

/// A fetch begins with a request; so does each of the first two addresses that wrapper pages lead
/// to. The third is refused.
pub proof fn law_arrival(url: Seq<char>, depth: u8)
    ensures
        arrival(url, depth).url == url,
        arrival(url, depth).depth == depth,
        depth <= 2 ==> arrival(url, depth).stage == ImageStageView::Request,
        depth > 2 ==> arrival(url, depth).stage == ImageStageView::Refused(
            ErrorView::TooManyHops(url),
        ),
{
}

/// The answer to a request, or to the one after the solver has helped: a status from 400 on refuses
/// the fetch; otherwise the answer is read as a page exactly where its content type, in lower case,
/// begins with `text/html`, and else, also without a content type, as an image. The address stays.
pub proof fn law_answer_is_page_or_image(
    fetch: ImageFetchView,
    status: u16,
    content_type: Option<Seq<char>>,
    has_solver: bool,
)
    requires
        fetch.stage is Request || fetch.stage is Retry,
    ensures
        ({
            let next = fetch.after(ImageEventView::Response(status, content_type), has_solver);
            &&& next.url == fetch.url
            &&& next.depth == fetch.depth
            &&& status >= 400 ==> next.stage == ImageStageView::Refused(
                ErrorView::ImageStatus(status, fetch.url),
            )
            &&& status < 400 ==> (next.stage is ReadPage <==> (content_type matches Some(kind)
                && begins_with(lower(kind), "text/html"@)))
            &&& status < 400 ==> (next.stage is ReadImage <==> !(content_type matches Some(kind)
                && begins_with(lower(kind), "text/html"@)))
        }),
{
}

/// The solver is asked once for each address: where the first request for it fails, and only if
/// there is a solver. Where it helps, the address is requested again; any other failure ends the
/// fetch. The address stays.
pub proof fn law_failures_of_fetch(fetch: ImageFetchView, has_solver: bool)
    ensures
        fetch.stage is Request && has_solver ==> fetch.after(ImageEventView::Failure, has_solver)
            == fetch.at(ImageStageView::ReSolve),
        fetch.stage is Request && !has_solver ==> fetch.after(ImageEventView::Failure, has_solver)
            == fetch.at(ImageStageView::GiveUp),
        fetch.stage is Retry || fetch.stage is ReadPage || fetch.stage is ReadImage ==> fetch.after(
            ImageEventView::Failure,
            has_solver,
        ) == fetch.at(ImageStageView::GiveUp),
        fetch.stage is ReSolve ==> fetch.after(ImageEventView::ReSolved(true), has_solver)
            == fetch.at(ImageStageView::Retry),
        fetch.stage is ReSolve ==> fetch.after(ImageEventView::ReSolved(false), has_solver)
            == fetch.at(ImageStageView::GiveUp),
        forall|stage: ImageStageView|
            (#[trigger] fetch.at(stage)).url == fetch.url && fetch.at(stage).depth == fetch.depth
                && fetch.at(stage).stage == stage,
{
}

/// A wrapper page leads on to the image that it shows, one page further: to the address that the
/// image's source resolves to, or to the source itself where it resolves to none. A page without an
/// image refuses the fetch.
pub proof fn law_wrapper_page_leads_on(fetch: ImageFetchView, html: Seq<char>, has_solver: bool)
    requires
        fetch.well_formed(),
        fetch.stage is ReadPage,
    ensures
        ({
            let next = fetch.after(ImageEventView::Page(html), has_solver);
            match first_src(html) {
                Some(src) => {
                    &&& next.depth == fetch.depth + 1
                    &&& url_join(fetch.url, src) matches Some(address) ==> next.url == address
                    &&& url_join(fetch.url, src) is None ==> next.url == src
                    &&& fetch.depth < 2 ==> next.stage == ImageStageView::Request
                    &&& fetch.depth >= 2 ==> next.stage == ImageStageView::Refused(
                        ErrorView::TooManyHops(next.url),
                    )
                },
                None => {
                    &&& next.url == fetch.url
                    &&& next.depth == fetch.depth
                    &&& next.stage == ImageStageView::Refused(ErrorView::NoImage(fetch.url))
                },
            }
        }),
{
}

/// The reference of a wrapper page leads to what it resolves to, and to itself where it resolves to
/// nothing.
pub proof fn law_reference_is_followed(
    fetch: ImageFetchView,
    src: Seq<char>,
    address: Seq<char>,
)
    requires
        fetch.depth <= 2,
    ensures
        fetch.followed(Some(src), Some(address)) == arrival(address, (fetch.depth + 1) as u8),
        fetch.followed(Some(src), None) == arrival(src, (fetch.depth + 1) as u8),
        fetch.followed(None, Some(address)) == fetch.at(
            ImageStageView::Refused(ErrorView::NoImage(fetch.url)),
        ),
        fetch.followed(None, None) == fetch.at(
            ImageStageView::Refused(ErrorView::NoImage(fetch.url)),
        ),
{
}

/// What a fetch does not wait for changes nothing: an answer or a failure without a request or
/// something to read, a page where none is read, the solver where it was not asked, and anything
/// once the fetch has ended.
pub proof fn law_unawaited_event_changes_nothing(
    fetch: ImageFetchView,
    event: ImageEventView,
    has_solver: bool,
)
    ensures
        event is Response && !(fetch.stage is Request) && !(fetch.stage is Retry) ==> fetch.after(
            event,
            has_solver,
        ) == fetch,
        event is Page && !(fetch.stage is ReadPage) ==> fetch.after(event, has_solver) == fetch,
        event is ReSolved && !(fetch.stage is ReSolve) ==> fetch.after(event, has_solver) == fetch,
        event is Failure && fetch.stage is ReSolve ==> fetch.after(event, has_solver) == fetch,
        fetch.stage is Refused || fetch.stage is GiveUp ==> fetch.after(event, has_solver) == fetch,
{
}

/// The limiter is asked before each request for an address and before nothing else, and only of an
/// image no more than 50 MiB are read.
pub proof fn law_image_limits(stage: ImageStageView)
    ensures
        stage.is_limited() <==> stage is Request || stage is Retry,
        stage is ReadImage ==> stage.read_limit() == Some(52428800u64),
        !(stage is ReadImage) ==> stage.read_limit() is None,
{
}

/// Stages, events and fetches are told as they are.
pub proof fn law_fetch_field_by_field(fetch: ImageFetch, event: ImageEvent)
    ensures
        fetch@.url == fetch.url@,
        fetch@.depth == fetch.depth,
        fetch@.stage == fetch.stage@,
        fetch.stage is Request <==> fetch@.stage is Request,
        fetch.stage is ReSolve <==> fetch@.stage is ReSolve,
        fetch.stage is Retry <==> fetch@.stage is Retry,
        fetch.stage is ReadPage <==> fetch@.stage is ReadPage,
        fetch.stage is ReadImage <==> fetch@.stage is ReadImage,
        fetch.stage is GiveUp <==> fetch@.stage is GiveUp,
        fetch.stage matches ImageStage::Refused(error) ==> fetch@.stage == ImageStageView::Refused(
            error@,
        ),
        event is Failure <==> event@ is Failure,
        event matches ImageEvent::ReSolved(solved) ==> event@ == ImageEventView::ReSolved(solved),
        event matches ImageEvent::Response(status, kind) ==> event@ == ImageEventView::Response(
            status,
            view_opt(kind),
        ),
        event matches ImageEvent::Page(html) ==> event@ == ImageEventView::Page(html@),
{
}

} // verus!
