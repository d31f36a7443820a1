//! What can go wrong.
use crate::text::{concat, decimal, to_decimal, to_decimal_u64, view_opt, views};
use vstd::prelude::*;

verus! {

/// Why a request or a page gave no result.
#[derive(Debug, Clone)]
pub enum Error {
    /// The CSS selector cannot be parsed.
    Selector(String),
    /// The page has so many bytes, which are more than are parsed.
    PageTooLarge(usize),
    /// Every way to fetch the address has failed.
    AllAttemptsFailed(String),
    /// Every way to post to the address has failed.
    AllPostAttemptsFailed(String),
    /// The challenge solver reports a failure, in its own words.
    Solver(String),
    /// The image at this address hides behind too many wrapper pages.
    TooManyHops(String),
    /// The server answered an image request with an error status.
    ImageStatus(u16, String),
    /// A wrapper page at this address shows no image.
    NoImage(String),
    /// The page at this address is not empty, but nothing was read from it.
    NoItems(String),
    /// The path names no chapter.
    InvalidChapterPath(String),
    /// The chapter with this number is not in the series at this path.
    ChapterNotFound(String, String),
    /// No group has published the chapter with this number.
    NoGroups(String),
    /// The chapter with this number has no pages of this group.
    NoPages(String, String),
}

/// An [`Error`] with its texts as sequences of characters.
pub enum ErrorView {
    Selector(Seq<char>),
    PageTooLarge(usize),
    AllAttemptsFailed(Seq<char>),
    AllPostAttemptsFailed(Seq<char>),
    Solver(Seq<char>),
    TooManyHops(Seq<char>),
    ImageStatus(u16, Seq<char>),
    NoImage(Seq<char>),
    NoItems(Seq<char>),
    InvalidChapterPath(Seq<char>),
    ChapterNotFound(Seq<char>, Seq<char>),
    NoGroups(Seq<char>),
    NoPages(Seq<char>, Seq<char>),
}

impl View for Error {
    type V = ErrorView;

    open spec fn view(&self) -> ErrorView {
        match self {
            Error::Selector(selector) => ErrorView::Selector(selector@),
            Error::PageTooLarge(length) => ErrorView::PageTooLarge(*length),
            Error::AllAttemptsFailed(url) => ErrorView::AllAttemptsFailed(url@),
            Error::AllPostAttemptsFailed(url) => ErrorView::AllPostAttemptsFailed(url@),
            Error::Solver(message) => ErrorView::Solver(message@),
            Error::TooManyHops(url) => ErrorView::TooManyHops(url@),
            Error::ImageStatus(status, url) => ErrorView::ImageStatus(*status, url@),
            Error::NoImage(url) => ErrorView::NoImage(url@),
            Error::NoItems(url) => ErrorView::NoItems(url@),
            Error::InvalidChapterPath(path) => ErrorView::InvalidChapterPath(path@),
            Error::ChapterNotFound(number, path) => ErrorView::ChapterNotFound(number@, path@),
            Error::NoGroups(number) => ErrorView::NoGroups(number@),
            Error::NoPages(number, group) => ErrorView::NoPages(number@, group@),
        }
    }
}

/// What a result stands for.
pub open spec fn outcome<T: View>(result: Result<T, Error>) -> Result<T::V, ErrorView> {
    match result {
        Ok(value) => Ok(value@),
        Err(error) => Err(error@),
    }
}

/// What the result of making a list stands for.
pub open spec fn listing<T: View>(result: Result<Vec<T>, Error>) -> Result<Seq<T::V>, ErrorView> {
    match result {
        Ok(list) => Ok(views(list@)),
        Err(error) => Err(error@),
    }
}

/// What the result of looking for something stands for.
pub open spec fn finding<T: View>(result: Result<Option<T>, Error>) -> Result<
    Option<T::V>,
    ErrorView,
> {
    match result {
        Ok(found) => Ok(view_opt(found)),
        Err(error) => Err(error@),
    }
}

impl ErrorView {
    /// The error in words.
    pub open spec fn words(self) -> Seq<char> {
        match self {
            ErrorView::Selector(selector) => "failed to parse selector: "@ + selector,
            ErrorView::PageTooLarge(length) => "page of "@ + decimal(length as int)
                + " bytes is too large"@,
            ErrorView::AllAttemptsFailed(url) => "FlareClient: all attempts failed for "@ + url,
            ErrorView::AllPostAttemptsFailed(url) => "FlareClient: all POST attempts failed for "@
                + url,
            ErrorView::Solver(message) => "FlareSolverr error: "@ + message,
            ErrorView::TooManyHops(url) => "Too many wrapper hops while fetching image: "@ + url,
            ErrorView::ImageStatus(status, url) => "Image fetch failed: HTTP "@ + decimal(
                status as int,
            ) + " for "@ + url,
            ErrorView::NoImage(url) =>
                "Expected image bytes but got HTML and no <img src=...> found for "@ + url,
            ErrorView::NoItems(url) => "parsed 0 items from "@ + url + " — markup change?"@,
            ErrorView::InvalidChapterPath(path) => "invalid Guya chapter path: "@ + path,
            ErrorView::ChapterNotFound(number, path) => "chapter "@ + number
                + " not found in series "@ + path,
            ErrorView::NoGroups(number) => "chapter "@ + number + " has no scanlation groups"@,
            ErrorView::NoPages(number, group) => "chapter "@ + number
                + " has no pages for scanlation group "@ + group,
        }
    }
}

impl Error {
    /// The error in words.
    pub fn message(&self) -> (text: String)
        ensures
            text@ == self@.words(),
    {
        match self {
            Error::Selector(selector) => concat("failed to parse selector: ", selector.as_str()),
            Error::PageTooLarge(length) => {
                let number = to_decimal_u64(*length as u64);
                let mut text = concat("page of ", number.as_str());
                text.append(" bytes is too large");
                text
            },
            Error::AllAttemptsFailed(url) => concat(
                "FlareClient: all attempts failed for ",
                url.as_str(),
            ),
            Error::AllPostAttemptsFailed(url) => concat(
                "FlareClient: all POST attempts failed for ",
                url.as_str(),
            ),
            Error::Solver(message) => concat("FlareSolverr error: ", message.as_str()),
            Error::TooManyHops(url) => concat(
                "Too many wrapper hops while fetching image: ",
                url.as_str(),
            ),
            Error::ImageStatus(status, url) => {
                let number = to_decimal(*status as i64);
                let mut text = concat("Image fetch failed: HTTP ", number.as_str());
                text.append(" for ");
                text.append(url.as_str());
                text
            },
            Error::NoImage(url) => concat(
                "Expected image bytes but got HTML and no <img src=...> found for ",
                url.as_str(),
            ),
            Error::NoItems(url) => {
                let mut text = concat("parsed 0 items from ", url.as_str());
                text.append(" — markup change?");
                text
            },
            Error::InvalidChapterPath(path) => concat(
                "invalid Guya chapter path: ",
                path.as_str(),
            ),
            Error::ChapterNotFound(number, path) => {
                let mut text = concat("chapter ", number.as_str());
                text.append(" not found in series ");
                text.append(path.as_str());
                text
            },
            Error::NoGroups(number) => {
                let mut text = concat("chapter ", number.as_str());
                text.append(" has no scanlation groups");
                text
            },
            Error::NoPages(number, group) => {
                let mut text = concat("chapter ", number.as_str());
                text.append(" has no pages for scanlation group ");
                text.append(group.as_str());
                text
            },
        }
    }
}

/// A result stands for what it holds, and an error for itself.
pub proof fn law_results<T: View>(value: T, list: Vec<T>, error: Error)
    ensures
        outcome(Ok::<T, Error>(value)) == Ok::<T::V, ErrorView>(value@),
        outcome(Err::<T, Error>(error)) == Err::<T::V, ErrorView>(error@),
        listing(Ok::<Vec<T>, Error>(list)) == Ok::<Seq<T::V>, ErrorView>(views(list@)),
        listing(Err::<Vec<T>, Error>(error)) == Err::<Seq<T::V>, ErrorView>(error@),
        finding(Ok::<Option<T>, Error>(Some(value))) == Ok::<Option<T::V>, ErrorView>(Some(value@)),
        finding(Ok::<Option<T>, Error>(None)) == Ok::<Option<T::V>, ErrorView>(None),
        finding(Err::<Option<T>, Error>(error)) == Err::<Option<T::V>, ErrorView>(error@),
{
}

/// An error of one kind stands for an error of the same kind, with the same texts and numbers.
pub proof fn law_error_view(error: Error)
    ensures
        match error {
            Error::Selector(text) => error@ == ErrorView::Selector(text@),
            Error::PageTooLarge(length) => error@ == ErrorView::PageTooLarge(length),
            Error::AllAttemptsFailed(url) => error@ == ErrorView::AllAttemptsFailed(url@),
            Error::AllPostAttemptsFailed(url) => error@ == ErrorView::AllPostAttemptsFailed(url@),
            Error::Solver(text) => error@ == ErrorView::Solver(text@),
            Error::TooManyHops(url) => error@ == ErrorView::TooManyHops(url@),
            Error::ImageStatus(status, url) => error@ == ErrorView::ImageStatus(status, url@),
            Error::NoImage(url) => error@ == ErrorView::NoImage(url@),
            Error::NoItems(url) => error@ == ErrorView::NoItems(url@),
            Error::InvalidChapterPath(path) => error@ == ErrorView::InvalidChapterPath(path@),
            Error::ChapterNotFound(number, path) => error@ == ErrorView::ChapterNotFound(
                number@,
                path@,
            ),
            Error::NoGroups(number) => error@ == ErrorView::NoGroups(number@),
            Error::NoPages(number, group) => error@ == ErrorView::NoPages(number@, group@),
        },
{
}

/// Each error names in words what went wrong, and with what: the address, the number, the path, or
/// what the solver said.
pub proof fn law_words(a: Seq<char>, b: Seq<char>, status: u16, length: usize)
    ensures
        ErrorView::Selector(a).words() == "failed to parse selector: "@ + a,
        ErrorView::PageTooLarge(length).words() == "page of "@ + decimal(length as int)
            + " bytes is too large"@,
        ErrorView::AllAttemptsFailed(a).words() == "FlareClient: all attempts failed for "@ + a,
        ErrorView::AllPostAttemptsFailed(a).words()
            == "FlareClient: all POST attempts failed for "@ + a,
        ErrorView::Solver(a).words() == "FlareSolverr error: "@ + a,
        ErrorView::TooManyHops(a).words() == "Too many wrapper hops while fetching image: "@ + a,
        ErrorView::ImageStatus(status, a).words() == "Image fetch failed: HTTP "@ + decimal(
            status as int,
        ) + " for "@ + a,
        ErrorView::NoImage(a).words()
            == "Expected image bytes but got HTML and no <img src=...> found for "@ + a,
        ErrorView::NoItems(a).words() == "parsed 0 items from "@ + a + " — markup change?"@,
        ErrorView::InvalidChapterPath(a).words() == "invalid Guya chapter path: "@ + a,
        ErrorView::ChapterNotFound(a, b).words() == "chapter "@ + a + " not found in series "@ + b,
        ErrorView::NoGroups(a).words() == "chapter "@ + a + " has no scanlation groups"@,
        ErrorView::NoPages(a, b).words() == "chapter "@ + a
            + " has no pages for scanlation group "@ + b,
{
}

} // verus!
