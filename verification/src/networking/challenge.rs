//! Telling a challenge page from the page that was asked for.
use crate::text::{
    contains, lemma_lower_idempotent, lower, occurs_at, text_contains, to_ascii_lowercase,
};
use vstd::prelude::*;

verus! {

/// Whether a page, in lower case, carries a marker that only challenge pages have.
pub open spec fn has_marker(page: Seq<char>) -> bool {
    ||| contains(page, "cf-browser-verification"@)
    ||| contains(page, "cf_chl_opt"@)
    ||| contains(page, "challenge-platform"@)
    ||| contains(page, "just a moment"@)
}

/// Whether a response is a challenge page. It has to name Cloudflare, in upper or lower case, and
/// beyond that to carry a marker of challenge pages or to come with a status that Cloudflare
/// answers challenged requests with.
pub open spec fn is_challenge(status: u16, body: Seq<char>) -> bool {
    &&& contains(lower(body), "cloudflare"@)
    &&& has_marker(lower(body)) || status == 403 || status == 503
}

/// Heuristic: does this response body look like a Cloudflare challenge page?
pub fn looks_like_cf_challenge(status: u16, body: &str) -> (challenge: bool)
    ensures
        challenge == is_challenge(status, body@),
{
    let page = to_ascii_lowercase(body);
    let page = page.as_str();
    let names_cloudflare = text_contains(page, "cloudflare");

    let has_cf_markers = (text_contains(page, "cf-browser-verification") || text_contains(
        page,
        "cf_chl_opt",
    ) || text_contains(page, "challenge-platform") || text_contains(page, "just a moment"))
        && names_cloudflare;
    if has_cf_markers {
        return true;
    }
    (status == 403 || status == 503) && names_cloudflare
}

/// A direct response, sorted by whether it is a challenge page.
#[derive(Debug, Clone)]
pub enum DirectResult {
    /// Normal response body.
    Success(String),
    /// Challenge page; carries the HTTP status code.
    Challenged(u16),
}

/// A [`DirectResult`] with its text as a sequence of characters.
pub enum DirectResultView {
    Success(Seq<char>),
    Challenged(u16),
}

impl View for DirectResult {
    type V = DirectResultView;

    open spec fn view(&self) -> DirectResultView {
        match self {
            DirectResult::Success(body) => DirectResultView::Success(body@),
            DirectResult::Challenged(status) => DirectResultView::Challenged(*status),
        }
    }
}

/// How a direct response with this status and body is sorted.
pub open spec fn sorted(status: u16, body: Seq<char>) -> DirectResultView {
    if is_challenge(status, body) {
        DirectResultView::Challenged(status)
    } else {
        DirectResultView::Success(body)
    }
}

/// Sorts a direct response by whether it is a challenge page.
pub fn classify_direct(status: u16, body: String) -> (result: DirectResult)
    ensures
        result@ == sorted(status, body@),
{
    if looks_like_cf_challenge(status, body.as_str()) {
        DirectResult::Challenged(status)
    } else {
        DirectResult::Success(body)
    }
}

/// A page that does not name Cloudflare is no challenge page, whatever its status: a bare 403 or
/// 503 is an ordinary refusal.
pub proof fn law_no_challenge_without_cloudflare(status: u16, body: Seq<char>)
    requires
        !contains(lower(body), "cloudflare"@),
    ensures
        !is_challenge(status, body),
{
}

/// A page that names Cloudflare but carries no marker is a challenge page with the statuses 403
/// and 503, and with no other.
pub proof fn law_mention_alone_needs_status(status: u16, body: Seq<char>)
    requires
        contains(lower(body), "cloudflare"@),
        !has_marker(lower(body)),
    ensures
        is_challenge(status, body) <==> (status == 403 || status == 503),
{
}

/// Two pages that differ in the case of ASCII letters only are both challenge pages or neither.
pub proof fn law_challenge_ignores_case(status: u16, a: Seq<char>, b: Seq<char>)
    requires
        lower(a) == lower(b),
    ensures
        is_challenge(status, a) == is_challenge(status, b),
        is_challenge(status, a) == is_challenge(status, lower(a)),
{
    lemma_lower_idempotent(a);
}

/// With any status but 403 and 503 a response is a challenge page exactly where its body, in lower
/// case, holds `cloudflare` and at least one of `cf-browser-verification`, `cf_chl_opt`,
/// `challenge-platform` and `just a moment`. With those two statuses `cloudflare` is enough.
pub proof fn law_challenge_by_body(status: u16, body: Seq<char>)
    ensures
        status != 403 && status != 503 ==> (is_challenge(status, body) <==> contains(
            lower(body),
            "cloudflare"@,
        ) && (contains(lower(body), "cf-browser-verification"@) || contains(
            lower(body),
            "cf_chl_opt"@,
        ) || contains(lower(body), "challenge-platform"@) || contains(
            lower(body),
            "just a moment"@,
        ))),
        status == 403 || status == 503 ==> (is_challenge(status, body) <==> contains(
            lower(body),
            "cloudflare"@,
        )),
{
}

/// A text that names Cloudflare and one of the markers, in upper or lower case and wherever they
/// stand, is a challenge page with any status.
pub proof fn law_marked_page_is_challenge(
    status: u16,
    body: Seq<char>,
    at: int,
    marker: Seq<char>,
    marker_at: int,
)
    requires
        occurs_at(lower(body), "cloudflare"@, at),
        marker == "cf-browser-verification"@ || marker == "cf_chl_opt"@ || marker
            == "challenge-platform"@ || marker == "just a moment"@,
        occurs_at(lower(body), marker, marker_at),
    ensures
        is_challenge(status, body),
        sorted(status, body) == DirectResultView::Challenged(status),
{
}

/// A response is sorted as a challenge, with its status, or else passed on with its body unchanged.
pub proof fn law_sorted(status: u16, body: Seq<char>)
    ensures
        is_challenge(status, body) ==> sorted(status, body) == DirectResultView::Challenged(status),
        !is_challenge(status, body) ==> sorted(status, body) == DirectResultView::Success(body),
{
}

/// What a sorted response stands for keeps its status or its body.
pub proof fn law_result_view(result: DirectResult)
    ensures
        result matches DirectResult::Success(body) ==> result@ == DirectResultView::Success(body@),
        result matches DirectResult::Challenged(status) ==> result@ == DirectResultView::Challenged(
            status,
        ),
{
}

} // verus!
