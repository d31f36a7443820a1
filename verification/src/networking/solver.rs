//! What is said to the challenge solver, and what is made of its answers.
use crate::error::{outcome, Error, ErrorView};
use crate::networking::cookie::{CookieView, FlareSolverrCookie};
use crate::networking::image::header_views;
use crate::text::{
    join, joined, lemma_push_step, lemma_split_not_empty, lower, same_text, split,
    to_ascii_lowercase, view_opt, views,
};
use crate::urls::{encode, encoded, law_encoded_is_safe, law_encoding_tells_texts_apart};
use vstd::prelude::*;

verus! {

/// How long the solver may work on a page, in milliseconds.
pub const MAX_TIMEOUT: u64 = 60000;

// ---------------------------------------------------------------------------
// Requests
// ---------------------------------------------------------------------------

/// A command for the challenge solver. The fields that are set are sent.
#[derive(Debug, Clone)]
pub struct SolverRequest {
    pub cmd: String,
    pub url: Option<String>,
    pub max_timeout: Option<u64>,
    pub session: Option<String>,
    pub post_data: Option<String>,
}

/// A [`SolverRequest`] with its texts as sequences of characters.
pub struct SolverRequestView {
    pub cmd: Seq<char>,
    pub url: Option<Seq<char>>,
    pub max_timeout: Option<u64>,
    pub session: Option<Seq<char>>,
    pub post_data: Option<Seq<char>>,
}

impl View for SolverRequest {
    type V = SolverRequestView;

    open spec fn view(&self) -> SolverRequestView {
        SolverRequestView {
            cmd: self.cmd@,
            url: view_opt(self.url),
            max_timeout: self.max_timeout,
            session: view_opt(self.session),
            post_data: view_opt(self.post_data),
        }
    }
}

/// The command to fetch a page, in a session where there is one.
pub open spec fn get_command(url: Seq<char>, session: Option<Seq<char>>) -> SolverRequestView {
    SolverRequestView {
        cmd: "request.get"@,
        url: Some(url),
        max_timeout: Some(MAX_TIMEOUT),
        session,
        post_data: None,
    }
}

/// The command to post `data` to a page, in a session where there is one.
pub open spec fn post_command(
    url: Seq<char>,
    session: Option<Seq<char>>,
    data: Seq<char>,
) -> SolverRequestView {
    SolverRequestView {
        cmd: "request.post"@,
        url: Some(url),
        max_timeout: Some(MAX_TIMEOUT),
        session,
        post_data: Some(data),
    }
}

/// A copy of an optional text.
fn copy_opt(text: Option<&str>) -> (copy: Option<String>)
    ensures
        view_opt(copy) == view_opt(text),
{
    match text {
        Some(text) => Some(text.to_owned()),
        None => None,
    }
}

/// The command to fetch a page, in a session where there is one.
pub fn request_get(url: &str, session: Option<&str>) -> (request: SolverRequest)
    ensures
        request@ == get_command(url@, view_opt(session)),
{
    SolverRequest {
        cmd: "request.get".to_owned(),
        url: Some(url.to_owned()),
        max_timeout: Some(MAX_TIMEOUT),
        session: copy_opt(session),
        post_data: None,
    }
}

/// The command to open a session.
pub open spec fn session_command() -> SolverRequestView {
    SolverRequestView {
        cmd: "sessions.create"@,
        url: None,
        max_timeout: None,
        session: None,
        post_data: None,
    }
}

/// The command to open a session.
pub fn sessions_create() -> (request: SolverRequest)
    ensures
        request@ == session_command(),
{
    SolverRequest {
        cmd: "sessions.create".to_owned(),
        url: None,
        max_timeout: None,
        session: None,
        post_data: None,
    }
}

/// What the fields of a form stand for.
pub open spec fn form_views(form: Seq<(&str, &str)>) -> Seq<(Seq<char>, Seq<char>)> {
    form.map_values(|field: (&str, &str)| (field.0@, field.1@))
}

/// A field of a form as it travels.
pub open spec fn form_field(field: (Seq<char>, Seq<char>)) -> Seq<char> {
    encoded(field.0) + "="@ + encoded(field.1)
}

/// The fields of a form as they travel.
pub open spec fn form_fields(form: Seq<(Seq<char>, Seq<char>)>) -> Seq<Seq<char>> {
    form.map_values(|field: (Seq<char>, Seq<char>)| form_field(field))
}

/// A form as it travels.
pub open spec fn form_text(form: Seq<(Seq<char>, Seq<char>)>) -> Seq<char> {
    joined(form_fields(form), "&"@)
}

/// A copy of a form.
pub fn own_form(form: &[(&str, &str)]) -> (fields: Vec<(String, String)>)
    ensures
        header_views(fields@) == form_views(form@),
{
    let mut fields: Vec<(String, String)> = Vec::new();
    let mut i: usize = 0;
    while i < form.len()
        invariant
            i <= form@.len(),
            header_views(fields@) == form_views(form@).take(i as int),
        decreases form@.len() - i,
    {
        let (name, value) = form[i];
        let ghost before = header_views(fields@);
        fields.push((name.to_owned(), value.to_owned()));
        assert(header_views(fields@) =~= before.push(form_views(form@)[i as int]));
        i += 1;
        assert(form_views(form@).take(i as int) =~= before.push(form_views(form@)[i - 1]));
    }
    assert(header_views(fields@) =~= form_views(form@));
    fields
}

/// A form as it travels.
pub fn encode_fields(form: &Vec<(String, String)>) -> (text: String)
    ensures
        text@ == form_text(header_views(form@)),
{
    let ghost all = form_fields(header_views(form@));
    let mut fields: Vec<String> = Vec::new();
    let mut i: usize = 0;
    assert(views(fields@) =~= all.take(0));
    while i < form.len()
        invariant
            i <= form@.len(),
            all == form_fields(header_views(form@)),
            views(fields@) == all.take(i as int),
        decreases form@.len() - i,
    {
        let mut field = encode(form[i].0.as_str());
        field.append("=");
        let encoded_value = encode(form[i].1.as_str());
        field.append(encoded_value.as_str());
        proof {
            lemma_push_step(fields@, field, all, i as int);
        }
        fields.push(field);
        i += 1;
    }
    assert(all.take(i as int) =~= all);
    join(&fields, "&")
}

/// The command to post `data` to a page, in a session where there is one.
pub fn request_post_data(url: &str, session: Option<&str>, data: String) -> (request: SolverRequest)
    ensures
        request@ == post_command(url@, view_opt(session), data@),
{
    SolverRequest {
        cmd: "request.post".to_owned(),
        url: Some(url.to_owned()),
        max_timeout: Some(MAX_TIMEOUT),
        session: copy_opt(session),
        post_data: Some(data),
    }
}

// ---------------------------------------------------------------------------
// Answers
// ---------------------------------------------------------------------------

/// The value of a header field in an answer of the solver.
#[derive(Debug, Clone)]
pub enum HeaderValue {
    /// A JSON string; carries its text.
    Text(String),
    /// Any other JSON value; carries it in JSON notation.
    Json(String),
}

/// A [`HeaderValue`] with its text as a sequence of characters.
pub enum HeaderValueView {
    Text(Seq<char>),
    Json(Seq<char>),
}

impl View for HeaderValue {
    type V = HeaderValueView;

    open spec fn view(&self) -> HeaderValueView {
        match self {
            HeaderValue::Text(text) => HeaderValueView::Text(text@),
            HeaderValue::Json(json) => HeaderValueView::Json(json@),
        }
    }
}

/// What the solver found behind the challenge.
#[allow(non_snake_case)]
#[derive(Debug, Clone)]
pub struct FlareSolverrSolution {
    pub url: String,
    pub status: u16,
    pub cookies: Vec<FlareSolverrCookie>,
    pub userAgent: String,
    /// The header fields, in the order in which the answer is walked; `None` where the answer holds
    /// no JSON object in their place.
    pub headers: Option<Vec<(String, HeaderValue)>>,
    pub response: String,
}

/// An answer of the challenge solver.
#[allow(non_snake_case)]
#[derive(Debug, Clone)]
pub struct FlareSolverrResponse {
    pub status: String,
    pub message: String,
    pub solution: FlareSolverrSolution,
    pub startTimestamp: u64,
    pub endTimestamp: u64,
    pub version: String,
}

/// What the header fields of an answer stand for.
pub open spec fn reported_views(headers: Seq<(String, HeaderValue)>) -> Seq<
    (Seq<char>, HeaderValueView),
> {
    headers.map_values(|h: (String, HeaderValue)| (h.0@, h.1@))
}

impl FlareSolverrSolution {
    /// The header fields of the answer; none where it holds no JSON object in their place.
    pub open spec fn reported(self) -> Seq<(Seq<char>, HeaderValueView)> {
        match self.headers {
            Some(headers) => reported_views(headers@),
            None => Seq::empty(),
        }
    }
}

/// A header field as later requests carry it: cookies travel in the jar instead.
pub open spec fn kept_header(field: (Seq<char>, HeaderValueView)) -> Seq<(Seq<char>, Seq<char>)> {
    match field.1 {
        HeaderValueView::Text(text) => if lower(field.0) == "set-cookie"@ {
            Seq::empty()
        } else {
            seq![(field.0, text)]
        },
        HeaderValueView::Json(json) => seq![(field.0, json)],
    }
}

/// The header fields that later requests carry.
pub open spec fn kept_headers(fields: Seq<(Seq<char>, HeaderValueView)>) -> Seq<
    (Seq<char>, Seq<char>),
>
    decreases fields.len(),
{
    if fields.len() == 0 {
        Seq::empty()
    } else {
        kept_headers(fields.drop_last()) + kept_header(fields.last())
    }
}

/// What is kept of a solved challenge.
#[derive(Debug, Clone)]
pub struct Solved {
    pub user_agent: String,
    pub cookies: Vec<FlareSolverrCookie>,
    pub headers: Vec<(String, String)>,
}

/// A [`Solved`] with its texts as sequences of characters.
pub struct SolvedView {
    pub user_agent: Seq<char>,
    pub cookies: Seq<CookieView>,
    pub headers: Seq<(Seq<char>, Seq<char>)>,
}

impl View for Solved {
    type V = SolvedView;

    open spec fn view(&self) -> SolvedView {
        SolvedView {
            user_agent: self.user_agent@,
            cookies: views(self.cookies@),
            headers: header_views(self.headers@),
        }
    }
}

impl FlareSolverrResponse {
    /// Whether the solver reports success.
    pub open spec fn is_ok(self) -> bool {
        self.status@ == "ok"@
    }

    /// What is kept of the answer.
    pub open spec fn solved(self) -> Result<SolvedView, ErrorView> {
        if self.is_ok() {
            Ok(
                SolvedView {
                    user_agent: self.solution.userAgent@,
                    cookies: views(self.solution.cookies@),
                    headers: kept_headers(self.solution.reported()),
                },
            )
        } else {
            Err(ErrorView::Solver(self.message@))
        }
    }

    /// The page that the answer holds.
    pub open spec fn page(self) -> Result<Seq<char>, ErrorView> {
        if self.is_ok() {
            Ok(self.solution.response@)
        } else {
            Err(ErrorView::Solver(self.message@))
        }
    }
}

/// The header fields that later requests carry.
pub fn keep_headers(fields: &Vec<(String, HeaderValue)>) -> (kept: Vec<(String, String)>)
    ensures
        header_views(kept@) == kept_headers(reported_views(fields@)),
{
    let mut kept: Vec<(String, String)> = Vec::new();
    let ghost all = reported_views(fields@);
    let mut i: usize = 0;
    assert(header_views(kept@) =~= kept_headers(all.take(0)));
    while i < fields.len()
        invariant
            i <= fields@.len(),
            all == reported_views(fields@),
            header_views(kept@) == kept_headers(all.take(i as int)),
        decreases fields@.len() - i,
    {
        let ghost before = header_views(kept@);
        assert(all.take(i + 1).drop_last() =~= all.take(i as int));
        let field = &fields[i];
        match &field.1 {
            HeaderValue::Text(text) => {
                let name = to_ascii_lowercase(field.0.as_str());
                if !same_text(name.as_str(), "set-cookie") {
                    kept.push((field.0.clone(), text.clone()));
                }
            },
            HeaderValue::Json(json) => {
                kept.push((field.0.clone(), json.clone()));
            },
        }
        assert(header_views(kept@) =~= before + kept_header(all[i as int]));
        i += 1;
    }
    assert(all.take(fields@.len() as int) =~= all);
    kept
}

/// What is kept of an answer of the solver; the solver's message where it reports a failure.
pub fn solve_with_flaresolverr(body: FlareSolverrResponse) -> (result: Result<Solved, Error>)
    ensures
        outcome(result) == body.solved(),
{
    if !same_text(body.status.as_str(), "ok") {
        return Err(Error::Solver(body.message));
    }
    let headers = match &body.solution.headers {
        Some(fields) => keep_headers(fields),
        None => Vec::new(),
    };
    proof {
        if body.solution.headers is None {
            assert(header_views(headers@) =~= kept_headers(body.solution.reported()));
        }
    }
    Ok(
        Solved {
            user_agent: body.solution.userAgent,
            cookies: body.solution.cookies,
            headers,
        },
    )
}

/// The page that an answer of the solver holds; the solver's message where it reports a failure.
pub fn proxied_page(body: FlareSolverrResponse) -> (result: Result<String, Error>)
    ensures
        outcome(result) == body.page(),
{
    if !same_text(body.status.as_str(), "ok") {
        return Err(Error::Solver(body.message));
    }
    Ok(body.solution.response)
}

/// The command to open a session, where none is set up.
pub fn open_session(configured: &Option<String>) -> (request: Option<SolverRequest>)
    ensures
        request is Some <==> configured is None,
        request matches Some(command) ==> command@ == session_command(),
{
    if configured.is_some() {
        None
    } else {
        Some(sessions_create())
    }
}

/// The session to work in: the one that is set up, or the one that the solver opened on request,
/// if it reports success.
pub open spec fn session_in_use(
    configured: Option<Seq<char>>,
    status: Option<Seq<char>>,
    opened: Option<Seq<char>>,
) -> Option<Seq<char>> {
    if configured is Some {
        configured
    } else if status == Some("ok"@) {
        opened
    } else {
        None
    }
}

/// The session to work in: the one that is set up; otherwise the one that the solver opened on
/// request, if its answer with this status reports success. `status` is `None` where no answer
/// came.
pub fn choose_session(
    configured: Option<String>,
    status: Option<String>,
    opened: Option<String>,
) -> (session: Option<String>)
    ensures
        view_opt(session) == session_in_use(
            view_opt(configured),
            view_opt(status),
            view_opt(opened),
        ),
{
    if configured.is_some() {
        return configured;
    }
    if let Some(status) = status {
        if same_text(status.as_str(), "ok") {
            return opened;
        }
    }
    None
}

// ---------------------------------------------------------------------------
// Laws
// ---------------------------------------------------------------------------

/// No text field named `Set-Cookie`, in upper or lower case, is carried on: of fields that are all
/// texts, none of that name is left.
pub proof fn law_no_cookie_header_kept(fields: Seq<(Seq<char>, HeaderValueView)>, i: int)
    requires
        forall|j: int| 0 <= j < fields.len() ==> (#[trigger] fields[j]).1 is Text,
        0 <= i < kept_headers(fields).len(),
    ensures
        lower(kept_headers(fields)[i].0) != "set-cookie"@,
    decreases fields.len(),
{
    let before = kept_headers(fields.drop_last());
    if i < before.len() {
        assert forall|j: int| 0 <= j < fields.drop_last().len() implies (
        #[trigger] fields.drop_last()[j]).1 is Text by {
            assert(fields.drop_last()[j] == fields[j]);
        }
        law_no_cookie_header_kept(fields.drop_last(), i);
    } else {
        assert(fields[fields.len() - 1].1 is Text);
    }
}

/// Of fields that are all texts under other names, every one is carried on as it is, in the same
/// order.
pub proof fn law_other_headers_kept(fields: Seq<(Seq<char>, HeaderValueView)>)
    requires
        forall|j: int|
            0 <= j < fields.len() ==> (#[trigger] fields[j]).1 is Text && lower(fields[j].0)
                != "set-cookie"@,
    ensures
        kept_headers(fields) == fields.map_values(
            |field: (Seq<char>, HeaderValueView)| (field.0, field.1->Text_0),
        ),
    decreases fields.len(),
{
    let plain = |field: (Seq<char>, HeaderValueView)| (field.0, field.1->Text_0);
    if fields.len() > 0 {
        let before = fields.drop_last();
        assert forall|j: int| 0 <= j < before.len() implies (#[trigger] before[j]).1 is Text
            && lower(before[j].0) != "set-cookie"@ by {
            assert(before[j] == fields[j]);
        }
        law_other_headers_kept(before);
        assert(fields[fields.len() - 1].1 is Text);
        assert(fields.map_values(plain) =~= before.map_values(plain).push(plain(fields.last())));
    }
    assert(kept_headers(fields) =~= fields.map_values(plain));
}

/// A form arrives as it was sent: between the characters `&` stand its fields, one by one, whatever
/// their names and values hold.
pub proof fn law_form_splits_into_fields(form: Seq<(Seq<char>, Seq<char>)>)
    requires
        form.len() > 0,
    ensures
        split(form_text(form), '&') == form_fields(form),
{
    assert forall|i: int, k: int|
        0 <= i < form_fields(form).len() && 0 <= k < form_fields(form)[i].len() implies (
    #[trigger] form_fields(form)[i][k]) != '&' by {
        lemma_field_has_no_ampersand(form[i], k);
    }
    lemma_split_of_joined(form_fields(form));
}

/// The name of a field is what stands before its first `=`, whatever its value holds.
pub proof fn law_field_splits_into_name_and_value(field: (Seq<char>, Seq<char>))
    ensures
        split(form_field(field), '=') == seq![encoded(field.0), encoded(field.1)],
{
    reveal_strlit("=");
    let name = encoded(field.0);
    let value = encoded(field.1);
    assert forall|k: int| 0 <= k < name.len() implies name[k] != '=' by {
        law_encoded_is_safe(field.0, k);
    }
    assert forall|k: int| 0 <= k < value.len() implies value[k] != '=' by {
        law_encoded_is_safe(field.1, k);
    }
    lemma_split_plain(name, '=');
    assert((name + "="@).drop_last() =~= name);
    assert(split(name + "="@, '=') =~= seq![name].push(Seq::empty()));
    lemma_split_tail(name + "="@, value, '=');
    assert(Seq::<char>::empty() + value =~= value);
    assert(split(form_field(field), '=') =~= seq![name, value]);
}

/// What a form says can be read from what is sent: different forms are sent differently.
pub proof fn law_forms_are_told_apart(
    a: Seq<(Seq<char>, Seq<char>)>,
    b: Seq<(Seq<char>, Seq<char>)>,
)
    requires
        form_text(a) == form_text(b),
    ensures
        a == b,
{
    reveal_strlit("=");
    if a.len() == 0 || b.len() == 0 {
        if a.len() > 0 {
            lemma_form_not_empty(a);
        }
        if b.len() > 0 {
            lemma_form_not_empty(b);
        }
        assert(a =~= b);
    } else {
        law_form_splits_into_fields(a);
        law_form_splits_into_fields(b);
        assert(form_fields(a).len() == a.len() && form_fields(b).len() == b.len());
        assert forall|i: int| 0 <= i < a.len() implies a[i] == b[i] by {
            assert(form_fields(a)[i] == form_field(a[i]));
            assert(form_fields(b)[i] == form_field(b[i]));
            law_field_splits_into_name_and_value(a[i]);
            law_field_splits_into_name_and_value(b[i]);
            let parts = seq![encoded(a[i].0), encoded(a[i].1)];
            let others = seq![encoded(b[i].0), encoded(b[i].1)];
            assert(parts[0] == others[0] && parts[1] == others[1]);
            law_encoding_tells_texts_apart(a[i].0, b[i].0);
            law_encoding_tells_texts_apart(a[i].1, b[i].1);
        }
        assert(a =~= b);
    }
}

proof fn lemma_form_not_empty(form: Seq<(Seq<char>, Seq<char>)>)
    requires
        form.len() > 0,
    ensures
        form_text(form).len() > 0,
{
    reveal_strlit("=");
    assert(form_fields(form).last() == form_field(form.last()));
    assert(form_field(form.last()).len() > 0);
}

proof fn lemma_field_has_no_ampersand(field: (Seq<char>, Seq<char>), k: int)
    requires
        0 <= k < form_field(field).len(),
    ensures
        form_field(field)[k] != '&',
{
    reveal_strlit("=");
    let name = encoded(field.0);
    if k < name.len() {
        law_encoded_is_safe(field.0, k);
    } else if k > name.len() {
        law_encoded_is_safe(field.1, k - name.len() - 1);
    }
}

/// A text without the separator is one piece.
proof fn lemma_split_plain(s: Seq<char>, sep: char)
    requires
        forall|k: int| 0 <= k < s.len() ==> s[k] != sep,
    ensures
        split(s, sep) == seq![s],
    decreases s.len(),
{
    if s.len() > 0 {
        lemma_split_plain(s.drop_last(), sep);
        assert(s.drop_last().push(s.last()) =~= s);
        assert(split(s, sep) =~= seq![s]);
    } else {
        assert(s =~= Seq::empty());
    }
}

/// A tail without the separator lengthens the last piece.
proof fn lemma_split_tail(s: Seq<char>, tail: Seq<char>, sep: char)
    requires
        forall|k: int| 0 <= k < tail.len() ==> tail[k] != sep,
    ensures
        split(s + tail, sep) == split(s, sep).drop_last().push(split(s, sep).last() + tail),
    decreases tail.len(),
{
    lemma_split_not_empty(s, sep);
    if tail.len() == 0 {
        assert(s + tail =~= s);
        assert(split(s, sep).last() + tail =~= split(s, sep).last());
        assert(split(s, sep) =~= split(s, sep).drop_last().push(split(s, sep).last()));
    } else {
        lemma_split_tail(s, tail.drop_last(), sep);
        assert((s + tail).drop_last() =~= s + tail.drop_last());
        assert((split(s, sep).last() + tail.drop_last()).push(tail.last()) =~= split(s, sep).last()
            + tail);
        let before = split(s + tail.drop_last(), sep);
        assert(before.drop_last() =~= split(s, sep).drop_last());
    }
}

/// Joined with `&`, texts without `&` split into themselves.
proof fn lemma_split_of_joined(parts: Seq<Seq<char>>)
    requires
        parts.len() > 0,
        forall|i: int, k: int|
            0 <= i < parts.len() && 0 <= k < parts[i].len() ==> (#[trigger] parts[i][k]) != '&',
    ensures
        split(joined(parts, "&"@), '&') == parts,
    decreases parts.len(),
{
    reveal_strlit("&");
    if parts.len() == 1 {
        assert forall|k: int| 0 <= k < parts[0].len() implies parts[0][k] != '&' by {
            assert(parts[0][k] != '&');
        }
        lemma_split_plain(parts[0], '&');
        assert(parts =~= seq![parts[0]]);
    } else {
        let front = parts.drop_last();
        assert forall|i: int, k: int| 0 <= i < front.len() && 0 <= k < front[i].len() implies (
        #[trigger] front[i][k]) != '&' by {
            assert(parts[i][k] != '&');
        }
        lemma_split_of_joined(front);
        let start = joined(front, "&"@) + "&"@;
        assert(start.drop_last() =~= joined(front, "&"@));
        assert(split(start, '&') =~= front.push(Seq::empty()));
        let last = parts.last();
        assert forall|k: int| 0 <= k < last.len() implies last[k] != '&' by {
            assert(parts[parts.len() - 1][k] != '&');
        }
        lemma_split_tail(start, last, '&');
        assert(Seq::<char>::empty() + last =~= last);
        assert(split(start, '&').drop_last() =~= front);
        assert(front.push(last) =~= parts);
    }
}

/// The solver is told to fetch the address, to post the data to it, or to open a session; for a page
/// it has a minute, and works in the session where there is one.
pub proof fn law_commands(url: Seq<char>, session: Option<Seq<char>>, data: Seq<char>)
    ensures
        get_command(url, session).cmd == "request.get"@,
        get_command(url, session).url == Some(url),
        get_command(url, session).max_timeout == Some(60000u64),
        get_command(url, session).session == session,
        get_command(url, session).post_data is None,
        post_command(url, session, data).cmd == "request.post"@,
        post_command(url, session, data).url == Some(url),
        post_command(url, session, data).max_timeout == Some(60000u64),
        post_command(url, session, data).session == session,
        post_command(url, session, data).post_data == Some(data),
        session_command().cmd == "sessions.create"@,
        session_command().url is None,
        session_command().max_timeout is None,
        session_command().session is None,
        session_command().post_data is None,
{
}

/// A form travels field by field, in order: the encoded name, an equals sign and the encoded value,
/// with `&` between two fields.
pub proof fn law_form_travels(
    form: Seq<(Seq<char>, Seq<char>)>,
    name: Seq<char>,
    value: Seq<char>,
    given: Seq<(&str, &str)>,
)
    ensures
        form_field((name, value)) == encoded(name) + "="@ + encoded(value),
        form_text(Seq::empty()) == Seq::<char>::empty(),
        form_text(seq![(name, value)]) == encoded(name) + "="@ + encoded(value),
        form.len() > 0 ==> form_text(form.push((name, value))) == form_text(form) + "&"@ + encoded(
            name,
        ) + "="@ + encoded(value),
        form_views(given).len() == given.len(),
        forall|i: int|
            0 <= i < given.len() ==> #[trigger] form_views(given)[i] == (given[i].0@, given[i].1@),
{
    let one = form_fields(seq![(name, value)]);
    assert(one =~= seq![form_field((name, value))]);
    assert(form_fields(Seq::empty()) =~= Seq::empty());
    let more = form.push((name, value));
    assert(form_fields(more).drop_last() =~= form_fields(form));
    assert(form_fields(more).last() == form_field((name, value)));
    if form.len() > 0 {
        assert(form_text(more) =~= form_text(form) + "&"@ + encoded(name) + "="@ + encoded(value));
    }
}

/// The header fields that are kept of two runs are those of the one, and then those of the other. A
/// text field is kept as it is unless it is called `set-cookie`, in upper or lower case; any other
/// field is kept in JSON notation, whatever it is called.
pub proof fn law_kept_headers(
    a: Seq<(Seq<char>, HeaderValueView)>,
    b: Seq<(Seq<char>, HeaderValueView)>,
    name: Seq<char>,
    text: Seq<char>,
)
    ensures
        kept_headers(a + b) == kept_headers(a) + kept_headers(b),
        kept_headers(Seq::empty()) == Seq::<(Seq<char>, Seq<char>)>::empty(),
        lower(name) == "set-cookie"@ ==> kept_headers(seq![(name, HeaderValueView::Text(text))])
            == Seq::<(Seq<char>, Seq<char>)>::empty(),
        lower(name) != "set-cookie"@ ==> kept_headers(seq![(name, HeaderValueView::Text(text))])
            == seq![(name, text)],
        kept_headers(seq![(name, HeaderValueView::Json(text))]) == seq![(name, text)],
    decreases b.len(),
{
    lemma_one_header((name, HeaderValueView::Text(text)));
    lemma_one_header((name, HeaderValueView::Json(text)));
    if b.len() > 0 {
        law_kept_headers(a, b.drop_last(), name, text);
        assert((a + b).drop_last() =~= a + b.drop_last());
        assert((a + b).last() == b.last());
        assert(kept_headers(a + b) =~= kept_headers(a) + kept_headers(b));
    } else {
        assert(a + b =~= a);
        assert(kept_headers(a + b) =~= kept_headers(a) + kept_headers(b));
    }
}

proof fn lemma_one_header(field: (Seq<char>, HeaderValueView))
    ensures
        kept_headers(seq![field]) == kept_header(field),
{
    let one = seq![field];
    assert(one.drop_last() =~= Seq::empty());
    assert(kept_headers(one.drop_last()) =~= Seq::empty());
    assert(one.last() == field);
    assert(kept_headers(one) =~= kept_header(field));
}

/// An answer of the solver is a success exactly where its status is `ok`. Of a success the user
/// agent, the cookies and the header fields are kept, and the page is what the solver found; of a
/// failure the solver's message.
pub proof fn law_answer(answer: FlareSolverrResponse)
    ensures
        answer.is_ok() <==> answer.status@ == "ok"@,
        answer.status@ == "ok"@ ==> (answer.solved() matches Ok(solved) && solved.user_agent
            == answer.solution.userAgent@ && solved.cookies == views(answer.solution.cookies@)
            && solved.headers == kept_headers(answer.solution.reported())),
        answer.status@ == "ok"@ ==> answer.page() == Ok::<Seq<char>, ErrorView>(
            answer.solution.response@,
        ),
        answer.status@ != "ok"@ ==> answer.solved() == Err::<SolvedView, ErrorView>(
            ErrorView::Solver(answer.message@),
        ),
        answer.status@ != "ok"@ ==> answer.page() == Err::<Seq<char>, ErrorView>(
            ErrorView::Solver(answer.message@),
        ),
        answer.solution.headers is None ==> answer.solution.reported().len() == 0,
        answer.solution.headers matches Some(fields) ==> answer.solution.reported()
            == reported_views(fields@),
{
}

/// The header fields of an answer are told one by one, in order.
pub proof fn law_reported_views(fields: Seq<(String, HeaderValue)>)
    ensures
        reported_views(fields).len() == fields.len(),
        forall|i: int|
            0 <= i < fields.len() ==> {
                &&& (#[trigger] reported_views(fields)[i]).0 == fields[i].0@
                &&& fields[i].1 matches HeaderValue::Text(text) ==> reported_views(fields)[i].1
                    == HeaderValueView::Text(text@)
                &&& fields[i].1 matches HeaderValue::Json(json) ==> reported_views(fields)[i].1
                    == HeaderValueView::Json(json@)
            },
{
}

/// The session that is set up is used; otherwise the one that the solver opened, but only where its
/// answer has the status `ok`.
pub proof fn law_session_in_use(
    configured: Seq<char>,
    status: Option<Seq<char>>,
    opened: Option<Seq<char>>,
)
    ensures
        session_in_use(Some(configured), status, opened) == Some(configured),
        session_in_use(None, Some("ok"@), opened) == opened,
        status != Some("ok"@) ==> session_in_use(None, status, opened) is None,
{
}

/// Commands and what is kept of answers are told field by field.
pub proof fn law_solver_field_by_field(request: SolverRequest, solved: Solved)
    ensures
        request@.cmd == request.cmd@,
        request@.url == view_opt(request.url),
        request@.max_timeout == request.max_timeout,
        request@.session == view_opt(request.session),
        request@.post_data == view_opt(request.post_data),
        solved@.user_agent == solved.user_agent@,
        solved@.cookies == views(solved.cookies@),
        solved@.headers == header_views(solved.headers@),
{
}

} // verus!
