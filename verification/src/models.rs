//! What the sources tell of themselves, of series and of chapters, the same for every site.
use crate::networking::image::header_views;
use crate::text::{view_opt, views};
use vstd::prelude::*;

verus! {

/// A series, in a list or in detail.
#[derive(Debug, Clone)]
pub struct MangaInfo {
    pub source_id: i64,
    pub title: String,
    pub author: Vec<String>,
    pub genre: Vec<String>,
    pub status: Option<String>,
    pub description: Option<String>,
    pub path: String,
    pub cover_url: String,
}

/// A [`MangaInfo`] with its texts as sequences of characters.
pub struct MangaInfoView {
    pub source_id: i64,
    pub title: Seq<char>,
    pub author: Seq<Seq<char>>,
    pub genre: Seq<Seq<char>>,
    pub status: Option<Seq<char>>,
    pub description: Option<Seq<char>>,
    pub path: Seq<char>,
    pub cover_url: Seq<char>,
}

impl View for MangaInfo {
    type V = MangaInfoView;

    open spec fn view(&self) -> MangaInfoView {
        MangaInfoView {
            source_id: self.source_id,
            title: self.title@,
            author: views(self.author@),
            genre: views(self.genre@),
            status: view_opt(self.status),
            description: view_opt(self.description),
            path: self.path@,
            cover_url: self.cover_url@,
        }
    }
}

/// The number of a chapter.
#[derive(Debug, Clone)]
pub enum ChapterNumber {
    /// The chapter's place, counted from one.
    Ordinal(usize),
    /// What the site writes where the number stands. What is no number counts as zero.
    Written(String),
}

/// A [`ChapterNumber`] with its text as a sequence of characters.
pub enum ChapterNumberView {
    Ordinal(usize),
    Written(Seq<char>),
}

impl View for ChapterNumber {
    type V = ChapterNumberView;

    open spec fn view(&self) -> ChapterNumberView {
        match self {
            ChapterNumber::Ordinal(n) => ChapterNumberView::Ordinal(*n),
            ChapterNumber::Written(text) => ChapterNumberView::Written(text@),
        }
    }
}

/// A chapter of a series. `uploaded` is a Unix time.
#[derive(Debug, Clone)]
pub struct ChapterInfo {
    pub source_id: i64,
    pub title: String,
    pub path: String,
    pub number: ChapterNumber,
    pub scanlator: Option<String>,
    pub uploaded: i64,
}

/// A [`ChapterInfo`] with its texts as sequences of characters.
pub struct ChapterInfoView {
    pub source_id: i64,
    pub title: Seq<char>,
    pub path: Seq<char>,
    pub number: ChapterNumberView,
    pub scanlator: Option<Seq<char>>,
    pub uploaded: i64,
}

impl View for ChapterInfo {
    type V = ChapterInfoView;

    open spec fn view(&self) -> ChapterInfoView {
        ChapterInfoView {
            source_id: self.source_id,
            title: self.title@,
            path: self.path@,
            number: self.number@,
            scanlator: view_opt(self.scanlator),
            uploaded: self.uploaded,
        }
    }
}

/// What a source tells of itself. `language` is the code of its one language.
#[derive(Debug, Clone)]
pub struct SourceInfo {
    pub id: i64,
    pub name: &'static str,
    pub url: &'static str,
    pub icon: &'static str,
    pub language: &'static str,
    pub nsfw: bool,
}

/// A request that is to be sent with GET.
#[derive(Debug, Clone)]
pub struct Request {
    pub url: String,
    pub headers: Vec<(String, String)>,
}

/// A [`Request`] with its texts as sequences of characters.
pub struct RequestView {
    pub url: Seq<char>,
    pub headers: Seq<(Seq<char>, Seq<char>)>,
}

impl View for Request {
    type V = RequestView;

    open spec fn view(&self) -> RequestView {
        RequestView { url: self.url@, headers: header_views(self.headers@) }
    }
}

/// What is told of a series is told field by field.
pub proof fn law_series_field_by_field(info: MangaInfo)
    ensures
        info@.source_id == info.source_id,
        info@.title == info.title@,
        info@.author == views(info.author@),
        info@.genre == views(info.genre@),
        info@.status == view_opt(info.status),
        info@.description == view_opt(info.description),
        info@.path == info.path@,
        info@.cover_url == info.cover_url@,
{
}

/// What is told of a chapter is told field by field.
pub proof fn law_chapter_field_by_field(info: ChapterInfo)
    ensures
        info@.source_id == info.source_id,
        info@.title == info.title@,
        info@.path == info.path@,
        info.number matches ChapterNumber::Ordinal(n) ==> info@.number
            == ChapterNumberView::Ordinal(n),
        info.number matches ChapterNumber::Written(text) ==> info@.number
            == ChapterNumberView::Written(text@),
        info@.scanlator == view_opt(info.scanlator),
        info@.uploaded == info.uploaded,
{
}

/// What is asked for is asked for field by field, the header fields in order.
pub proof fn law_request_field_by_field(request: Request)
    ensures
        request@.url == request.url@,
        request@.headers.len() == request.headers@.len(),
        forall|i: int|
            0 <= i < request.headers@.len() ==> #[trigger] request@.headers[i] == (
                request.headers@[i].0@,
                request.headers@[i].1@,
            ),
{
}

} // verus!
