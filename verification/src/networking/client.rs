//! A client that goes to a site directly while that works, and through the challenge solver when
//! it does not.
use crate::dates::{FIRST_SECOND, LAST_SECOND};
use crate::error::{outcome, Error, ErrorView};
use crate::networking::challenge::{classify_direct, is_challenge, DirectResult};
use crate::networking::cookie::{
    add_entry, is_cookie_from, jar_entry, CookieView, FlareSolverrCookie, JarEntry, JarEntryView,
};
use crate::networking::image::{build_image_get, header_views, image_fields, site_root};
use crate::networking::ratelimit::{after_acquire, RateLimiter};
use crate::networking::solver::{
    choose_session, encode_fields, form_text, form_views, get_command, kept_headers, open_session,
    own_form, post_command, proxied_page, request_get, request_post_data, session_command,
    session_in_use, sessions_create, solve_with_flaresolverr, FlareSolverrResponse, Solved,
    SolvedView, SolverRequest, SolverRequestView,
};
use crate::text::{view_opt, views};
use crate::urls::{is_uri, url_parts};
use vstd::prelude::*;

verus! {

// ---------------------------------------------------------------------------
// Agents
// ---------------------------------------------------------------------------

/// How many redirects an agent follows.
pub const MAX_REDIRECTS: u32 = 5;

/// What an HTTP agent is set up with.
#[derive(Debug, Clone)]
pub struct AgentSetup {
    /// The user agent to pose as; the default of the HTTP library where it is `None`.
    pub user_agent: Option<String>,
    pub max_redirects: u32,
    /// The cookies to begin with, in the order in which they go into the jar.
    pub jar: Vec<JarEntry>,
}

/// An [`AgentSetup`] with its texts as sequences of characters.
pub struct AgentSetupView {
    pub user_agent: Option<Seq<char>>,
    pub max_redirects: u32,
    pub jar: Seq<JarEntryView>,
}

impl View for AgentSetup {
    type V = AgentSetupView;

    open spec fn view(&self) -> AgentSetupView {
        AgentSetupView {
            user_agent: view_opt(self.user_agent),
            max_redirects: self.max_redirects,
            jar: views(self.jar@),
        }
    }
}

/// An agent with an empty jar, that poses as this user agent.
pub open spec fn bare_agent(user_agent: Option<Seq<char>>) -> AgentSetupView {
    AgentSetupView {
        user_agent: if user_agent is Some && user_agent->0.len() > 0 {
            user_agent
        } else {
            None
        },
        max_redirects: MAX_REDIRECTS,
        jar: Seq::empty(),
    }
}

/// The entries of cookies in a jar, at the Unix time `now`: of those that a jar takes.
pub open spec fn entries(cookies: Seq<CookieView>, now: i64) -> Seq<JarEntryView>
    decreases cookies.len(),
{
    if cookies.len() == 0 {
        Seq::empty()
    } else {
        let before = entries(cookies.drop_last(), now);
        let entry = cookies.last().entry(now);
        if entry.fits() {
            before.push(entry)
        } else {
            before
        }
    }
}

impl AgentSetupView {
    /// The agent with these cookies added to its jar.
    pub open spec fn with_cookies(self, cookies: Seq<CookieView>, now: i64) -> AgentSetupView {
        AgentSetupView {
            user_agent: self.user_agent,
            max_redirects: self.max_redirects,
            jar: self.jar + entries(cookies, now),
        }
    }
}

/// An agent with an empty jar. It poses as `user_agent`, unless that is empty.
pub fn build_ureq_agent(user_agent: Option<&str>) -> (agent: AgentSetup)
    ensures
        agent@ == bare_agent(view_opt(user_agent)),
{
    let mut name: Option<String> = None;
    if let Some(ua) = user_agent {
        if !ua.is_empty() {
            name = Some(ua.to_owned());
        }
    }
    let agent = AgentSetup { user_agent: name, max_redirects: MAX_REDIRECTS, jar: Vec::new() };
    assert(views(agent.jar@) =~= Seq::empty());
    agent
}

/// Adds cookies to the jar of an agent, at the Unix time `now`. Those that no jar takes are left
/// out.
pub fn insert_flaresolverr_cookies_into_agent(
    agent: &mut AgentSetup,
    cookies: &Vec<FlareSolverrCookie>,
    now: i64,
)
    requires
        FIRST_SECOND <= now <= LAST_SECOND,
    ensures
        final(agent)@ == old(agent)@.with_cookies(views(cookies@), now),
{
    let ghost before = agent@;
    let ghost all = views(cookies@);
    let mut i: usize = 0;
    assert(all.take(0) =~= Seq::empty());
    assert(before.jar + entries(all.take(0), now) =~= before.jar);
    while i < cookies.len()
        invariant
            i <= cookies@.len(),
            FIRST_SECOND <= now <= LAST_SECOND,
            all == views(cookies@),
            agent.user_agent == old(agent).user_agent,
            agent.max_redirects == old(agent).max_redirects,
            before == old(agent)@,
            views(agent.jar@) == before.jar + entries(all.take(i as int), now),
        decreases cookies@.len() - i,
    {
        let ghost next = all.take(i + 1);
        let entry = jar_entry(&cookies[i], now);
        let fits = entry.fits();
        assert(next.drop_last() =~= all.take(i as int));
        assert(next.last() == cookies@[i as int]@);
        add_entry(&mut agent.jar, entry, fits);
        i += 1;
        assert(views(agent.jar@) =~= before.jar + entries(all.take(i as int), now));
    }
    assert(all.take(i as int) =~= all);
}

// ---------------------------------------------------------------------------
// The client
// ---------------------------------------------------------------------------

/// A client for one site. A copy is a client of its own, which learns nothing from the other; users
/// that are to learn from each other share one client.
#[derive(Debug, Clone)]
pub struct FlareClient {
    pub agent: AgentSetup,
    pub origin_url: String,
    pub flaresolverr_url: Option<String>,
    pub session_id: Option<String>,
    pub default_headers: Vec<(String, String)>,
    pub limiter: Option<RateLimiter>,
    /// Whether direct requests work for this site. Starts `true`, and becomes `false` when direct
    /// requests have failed even after the solver has helped, so that later requests go straight
    /// through the solver.
    pub direct_works: bool,
}

/// A [`FlareClient`] with its texts as sequences of characters.
pub struct FlareClientView {
    pub agent: AgentSetupView,
    pub origin_url: Seq<char>,
    pub flaresolverr_url: Option<Seq<char>>,
    pub session_id: Option<Seq<char>>,
    pub default_headers: Seq<(Seq<char>, Seq<char>)>,
    pub limiter: Option<RateLimiter>,
    pub direct_works: bool,
}

impl View for FlareClient {
    type V = FlareClientView;

    open spec fn view(&self) -> FlareClientView {
        FlareClientView {
            agent: self.agent@,
            origin_url: self.origin_url@,
            flaresolverr_url: view_opt(self.flaresolverr_url),
            session_id: view_opt(self.session_id),
            default_headers: header_views(self.default_headers@),
            limiter: self.limiter,
            direct_works: self.direct_works,
        }
    }
}

/// A client without a solver, for the site at this address.
pub open spec fn plain_client(
    origin_url: Seq<char>,
    limiter: Option<RateLimiter>,
) -> FlareClientView {
    FlareClientView {
        agent: bare_agent(None),
        origin_url,
        flaresolverr_url: None,
        session_id: None,
        default_headers: Seq::empty(),
        limiter,
        direct_works: true,
    }
}

/// A client for the site at this address that has not solved any challenge: with the solver and
/// the session, or a plain one where there is no solver.
pub open spec fn unsolved_client(
    origin_url: Seq<char>,
    flaresolverr_url: Option<Seq<char>>,
    session_id: Option<Seq<char>>,
    limiter: Option<RateLimiter>,
) -> FlareClientView {
    match flaresolverr_url {
        Some(_) => FlareClientView {
            flaresolverr_url,
            session_id,
            ..plain_client(origin_url, limiter)
        },
        None => plain_client(origin_url, limiter),
    }
}

/// The agent of a client whose challenge the solver has solved.
pub open spec fn solved_agent(solved: SolvedView, now: i64) -> AgentSetupView {
    bare_agent(Some(solved.user_agent)).with_cookies(solved.cookies, now)
}

impl FlareClientView {
    /// A client without a solver never gives up on direct requests.
    pub open spec fn well_formed(self) -> bool {
        self.direct_works || self.flaresolverr_url is Some
    }

    /// Whether there is a solver to ask.
    pub open spec fn has_solver(self) -> bool {
        self.flaresolverr_url is Some
    }

    /// The client with what the solver found: a new agent, and other header fields.
    pub open spec fn with_solution(self, solved: SolvedView, now: i64) -> FlareClientView {
        FlareClientView {
            agent: solved_agent(solved, now),
            default_headers: solved.headers,
            ..self
        }
    }

    /// The client, with direct requests given up.
    pub open spec fn without_direct(self) -> FlareClientView {
        FlareClientView { direct_works: false, ..self }
    }

    /// The client after the solver has answered.
    pub open spec fn after_answer(self, answer: FlareSolverrResponse, now: i64) -> FlareClientView {
        match answer.solved() {
            Ok(solved) => self.with_solution(solved, now),
            Err(_) => self,
        }
    }
}

/// A call of the challenge solver: its address, and the command.
#[derive(Debug, Clone)]
pub struct SolverCall {
    pub solver_url: String,
    pub request: SolverRequest,
}

/// A [`SolverCall`] with its texts as sequences of characters.
pub struct SolverCallView {
    pub solver_url: Seq<char>,
    pub request: SolverRequestView,
}

impl View for SolverCall {
    type V = SolverCallView;

    open spec fn view(&self) -> SolverCallView {
        SolverCallView { solver_url: self.solver_url@, request: self.request@ }
    }
}

/// The agent that the solver's findings make.
fn agent_for(solved: &Solved, now: i64) -> (agent: AgentSetup)
    requires
        FIRST_SECOND <= now <= LAST_SECOND,
    ensures
        agent@ == solved_agent(solved@, now),
{
    let mut agent = build_ureq_agent(Some(solved.user_agent.as_str()));
    insert_flaresolverr_cookies_into_agent(&mut agent, &solved.cookies, now);
    agent
}

/// The agent that an answer of the solver makes: it poses as the solver's browser and has its
/// cookies. The solver's message where it reports a failure.
pub fn build_flaresolverr_client(answer: FlareSolverrResponse, now: i64) -> (result: Result<
    AgentSetup,
    Error,
>)
    requires
        FIRST_SECOND <= now <= LAST_SECOND,
    ensures
        outcome(result) == match answer.solved() {
            Ok(solved) => Ok(solved_agent(solved, now)),
            Err(error) => Err(error),
        },
{
    match solve_with_flaresolverr(answer) {
        Ok(solved) => Ok(agent_for(&solved, now)),
        Err(error) => Err(error),
    }
}

/// A copy of header fields, or of the fields of a form.
fn copy_headers(headers: &Vec<(String, String)>) -> (copy: Vec<(String, String)>)
    ensures
        header_views(copy@) == header_views(headers@),
{
    let mut copy: Vec<(String, String)> = Vec::new();
    let mut i: usize = 0;
    while i < headers.len()
        invariant
            i <= headers@.len(),
            header_views(copy@) == header_views(headers@).take(i as int),
        decreases headers@.len() - i,
    {
        let ghost before = header_views(copy@);
        copy.push((headers[i].0.clone(), headers[i].1.clone()));
        assert(header_views(copy@) =~= before.push((headers@[i as int].0@, headers@[i as int].1@)));
        i += 1;
        assert(header_views(headers@).take(i as int) =~= header_views(headers@).take(i - 1).push(
            header_views(headers@)[i - 1],
        ));
    }
    assert(header_views(headers@).take(headers@.len() as int) =~= header_views(headers@));
    copy
}

impl FlareClient {
    /// A client without a solver that keeps to the limit, for no site in particular.
    pub fn plain_with_rps(limiter: Option<RateLimiter>) -> (client: FlareClient)
        ensures
            client@ == plain_client(Seq::empty(), limiter),
            client@.well_formed(),
    {
        proof {
            reveal_strlit("");
            assert(""@ =~= Seq::empty());
        }
        Self::without_solver("", limiter)
    }

    /// Plain client (no solver, no limit), safe default.
    pub fn plain() -> (client: FlareClient)
        ensures
            client@ == plain_client(Seq::empty(), None),
            client@.well_formed(),
    {
        Self::plain_with_rps(None)
    }

    /// A client without a solver, for the site at this address.
    pub fn without_solver(origin_url: &str, limiter: Option<RateLimiter>) -> (client: FlareClient)
        ensures
            client@ == plain_client(origin_url@, limiter),
            client@.well_formed(),
    {
        let client = FlareClient {
            agent: build_ureq_agent(None),
            origin_url: origin_url.to_owned(),
            flaresolverr_url: None,
            session_id: None,
            default_headers: Vec::new(),
            limiter,
            direct_works: true,
        };
        assert(client@.default_headers =~= Seq::empty());
        client
    }

    /// The client for the site at `origin_url`, where the environment names the solver at
    /// `flaresolverr_url` and the session is `session_id`, before any challenge is solved.
    pub fn from_env_with_rps(
        origin_url: &str,
        flaresolverr_url: Option<String>,
        session_id: Option<String>,
        limiter: Option<RateLimiter>,
    ) -> (client: FlareClient)
        ensures
            client@ == unsolved_client(
                origin_url@,
                view_opt(flaresolverr_url),
                view_opt(session_id),
                limiter,
            ),
            client@.well_formed(),
    {
        let mut client = Self::without_solver(origin_url, limiter);
        if flaresolverr_url.is_some() {
            client.flaresolverr_url = flaresolverr_url;
            client.session_id = session_id;
        }
        client
    }

    /// The call that asks the solver to solve the site's challenge; `None` where there is no
    /// solver.
    pub fn re_solve(&self) -> (call: Option<SolverCall>)
        ensures
            view_opt(call) == match self@.flaresolverr_url {
                Some(solver_url) => Some(
                    SolverCallView {
                        solver_url,
                        request: get_command(self@.origin_url, self@.session_id),
                    },
                ),
                None => None,
            },
    {
        match &self.flaresolverr_url {
            Some(solver_url) => {
                let session = match &self.session_id {
                    Some(session) => Some(session.as_str()),
                    None => None,
                };
                Some(
                    SolverCall {
                        solver_url: solver_url.clone(),
                        request: request_get(self.origin_url.as_str(), session),
                    },
                )
            },
            None => None,
        }
    }

    /// Takes over what the solver found: a new agent, and other header fields. `false`, and nothing
    /// is changed, where the solver reports a failure.
    pub fn finish_re_solve(&mut self, answer: FlareSolverrResponse, now: i64) -> (solved: bool)
        requires
            FIRST_SECOND <= now <= LAST_SECOND,
        ensures
            solved == answer.is_ok(),
            final(self)@ == old(self)@.after_answer(answer, now),
    {
        match solve_with_flaresolverr(answer) {
            Ok(solved) => {
                self.agent = agent_for(&solved, now);
                self.default_headers = solved.headers;
                true
            },
            Err(_) => false,
        }
    }

    /// Asks the limiter for a request at the time `now`, in nanoseconds. `None` lets it through;
    /// otherwise the request has to wait for the time that is returned, and ask again.
    pub fn throttle(&mut self, now: u128) -> (wait: Option<u128>)
        requires
            old(self).limiter matches Some(l) ==> now + l.interval <= u128::MAX,
        ensures
            match old(self).limiter {
                Some(limiter) => {
                    &&& wait is None <==> limiter.allows(now)
                    &&& wait matches Some(duration) ==> now + duration == limiter.next_allowed
                    &&& final(self)@ == (FlareClientView {
                        limiter: Some(after_acquire(limiter, now)),
                        ..old(self)@
                    })
                },
                None => wait is None && final(self)@ == old(self)@,
            },
    {
        if let Some(limiter) = self.limiter {
            let mut limiter = limiter;
            let wait = limiter.acquire(now);
            self.limiter = Some(limiter);
            wait
        } else {
            None
        }
    }

    /// The header fields of a direct request: those that the solver found, and then `extra`.
    pub fn request_headers(&self, extra: &Vec<(String, String)>) -> (headers: Vec<(String, String)>)
        ensures
            header_views(headers@) == self@.default_headers + header_views(extra@),
    {
        let mut headers = copy_headers(&self.default_headers);
        let mut more = copy_headers(extra);
        let ghost first = headers@;
        let ghost second = more@;
        headers.append(&mut more);
        assert(header_views(headers@) =~= header_views(first) + header_views(second));
        headers
    }

    /// The header fields of a request for the image at `url`.
    pub fn image_request_headers(&self, url: &str) -> (headers: Vec<(String, String)>)
        ensures
            header_views(headers@) == self@.default_headers + image_fields(
                site_root(url_parts(url@)),
            ),
    {
        let extra = build_image_get(url);
        self.request_headers(&extra)
    }
}

// ---------------------------------------------------------------------------
// Setting a client up
// ---------------------------------------------------------------------------

/// What the setup of a client does next.
#[derive(Debug, Clone, Copy, PartialEq, Eq, Structural)]
pub enum SetupStage {
    /// Has the solver open a session.
    OpenSession,
    /// Has the solver solve the site's challenge for the first time.
    FirstSolve,
    /// Nothing more: the client is ready.
    Ready,
}

/// What happened to the setup of a client.
#[derive(Debug, Clone)]
pub enum SetupEvent {
    /// The solver answered the command to open a session with this status and session.
    Session(String, Option<String>),
    /// The solver answered the command to solve the challenge.
    Answer(FlareSolverrResponse),
    /// A request failed, or its answer could not be read.
    Failure,
}

/// The setup of a client.
#[derive(Debug, Clone)]
pub struct Setup {
    pub client: FlareClient,
    pub stage: SetupStage,
}

/// A [`Setup`] with its texts as sequences of characters.
pub struct SetupView {
    pub client: FlareClientView,
    pub stage: SetupStage,
}

impl View for Setup {
    type V = SetupView;

    open spec fn view(&self) -> SetupView {
        SetupView { client: self.client@, stage: self.stage }
    }
}

/// How the setup begins: without a solver there is nothing to do, and a session is opened only
/// where none is set up.
pub open spec fn first_setup(
    origin_url: Seq<char>,
    flaresolverr_url: Option<Seq<char>>,
    configured: Option<Seq<char>>,
    limiter: Option<RateLimiter>,
) -> SetupView {
    SetupView {
        client: unsolved_client(origin_url, flaresolverr_url, configured, limiter),
        stage: if flaresolverr_url is None {
            SetupStage::Ready
        } else if configured is None {
            SetupStage::OpenSession
        } else {
            SetupStage::FirstSolve
        },
    }
}

impl SetupView {
    /// The call of the solver that is to be made.
    pub open spec fn call(self) -> Option<SolverCallView> {
        match (self.stage, self.client.flaresolverr_url) {
            (SetupStage::OpenSession, Some(solver_url)) => Some(
                SolverCallView { solver_url, request: session_command() },
            ),
            (SetupStage::FirstSolve, Some(solver_url)) => Some(
                SolverCallView {
                    solver_url,
                    request: get_command(self.client.origin_url, self.client.session_id),
                },
            ),
            _ => None,
        }
    }

    /// The setup after an event: the session that the solver opened is taken where it reports
    /// success, and what it found is taken over; a failure leaves the client as it is.
    pub open spec fn after(self, event: SetupEvent, now: i64) -> SetupView {
        match self.stage {
            SetupStage::OpenSession => SetupView {
                client: FlareClientView {
                    session_id: match event {
                        SetupEvent::Session(status, opened) => session_in_use(
                            None,
                            Some(status@),
                            view_opt(opened),
                        ),
                        _ => None,
                    },
                    ..self.client
                },
                stage: SetupStage::FirstSolve,
            },
            SetupStage::FirstSolve => SetupView {
                client: match event {
                    SetupEvent::Answer(answer) => self.client.after_answer(answer, now),
                    _ => self.client,
                },
                stage: SetupStage::Ready,
            },
            SetupStage::Ready => self,
        }
    }
}

impl Setup {
    /// How the setup of the client for the site at `origin_url` begins, where the environment names
    /// the solver at `flaresolverr_url` and sets the session `configured` up.
    pub fn start(
        origin_url: &str,
        flaresolverr_url: Option<String>,
        configured: Option<String>,
        limiter: Option<RateLimiter>,
    ) -> (setup: Setup)
        ensures
            setup@ == first_setup(
                origin_url@,
                view_opt(flaresolverr_url),
                view_opt(configured),
                limiter,
            ),
            setup@.client.well_formed(),
    {
        let stage = if flaresolverr_url.is_none() {
            SetupStage::Ready
        } else if open_session(&configured).is_some() {
            SetupStage::OpenSession
        } else {
            SetupStage::FirstSolve
        };
        let client = FlareClient::from_env_with_rps(
            origin_url,
            flaresolverr_url,
            configured,
            limiter,
        );
        Setup { client, stage }
    }

    /// The call of the solver that is to be made.
    pub fn call(&self) -> (call: Option<SolverCall>)
        ensures
            view_opt(call) == self@.call(),
    {
        match self.stage {
            SetupStage::OpenSession => match &self.client.flaresolverr_url {
                Some(solver_url) => Some(
                    SolverCall { solver_url: solver_url.clone(), request: sessions_create() },
                ),
                None => None,
            },
            SetupStage::FirstSolve => self.client.re_solve(),
            SetupStage::Ready => None,
        }
    }

    /// The setup after an event, at the Unix time `now`.
    pub fn advance(self, event: SetupEvent, now: i64) -> (next: Setup)
        requires
            FIRST_SECOND <= now <= LAST_SECOND,
        ensures
            next@ == self@.after(event, now),
            self@.client.well_formed() ==> next@.client.well_formed(),
    {
        let mut client = self.client;
        match self.stage {
            SetupStage::OpenSession => {
                client.session_id = match event {
                    SetupEvent::Session(status, opened) => choose_session(
                        None,
                        Some(status),
                        opened,
                    ),
                    _ => None,
                };
                Setup { client, stage: SetupStage::FirstSolve }
            },
            SetupStage::FirstSolve => {
                if let SetupEvent::Answer(answer) = event {
                    client.finish_re_solve(answer, now);
                }
                Setup { client, stage: SetupStage::Ready }
            },
            SetupStage::Ready => Setup { client, stage: SetupStage::Ready },
        }
    }
}

// ---------------------------------------------------------------------------
// Fetching a page
// ---------------------------------------------------------------------------

/// What a fetch does next.
#[derive(Debug, Clone)]
pub enum FetchStage {
    /// Requests the page directly.
    FirstDirect,
    /// Asks the solver to solve the site's challenge.
    ReSolve,
    /// Requests the page directly once more.
    SecondDirect,
    /// Requests the page through the solver.
    Proxy,
    /// Ends with this page.
    Done(String),
    /// Ends without a page.
    Failed,
}

/// A [`FetchStage`] with its text as a sequence of characters.
pub enum FetchStageView {
    FirstDirect,
    ReSolve,
    SecondDirect,
    Proxy,
    Done(Seq<char>),
    Failed,
}

impl View for FetchStage {
    type V = FetchStageView;

    open spec fn view(&self) -> FetchStageView {
        match self {
            FetchStage::FirstDirect => FetchStageView::FirstDirect,
            FetchStage::ReSolve => FetchStageView::ReSolve,
            FetchStage::SecondDirect => FetchStageView::SecondDirect,
            FetchStage::Proxy => FetchStageView::Proxy,
            FetchStage::Done(page) => FetchStageView::Done(page@),
            FetchStage::Failed => FetchStageView::Failed,
        }
    }
}

/// What happened to a fetch.
#[derive(Debug, Clone)]
pub enum FetchEvent {
    /// A direct response came with this status and body.
    Direct(u16, String),
    /// The solver answered.
    Answer(FlareSolverrResponse),
    /// A request failed, or its answer could not be read.
    Failure,
}

/// The fetch of a page: by GET, or by POST where there is a form to post.
#[derive(Debug, Clone)]
pub struct Fetch {
    pub url: String,
    pub form: Option<Vec<(String, String)>>,
    pub stage: FetchStage,
}

/// What an optional form stands for.
pub open spec fn form_view(form: Option<Vec<(String, String)>>) -> Option<
    Seq<(Seq<char>, Seq<char>)>,
> {
    match form {
        Some(fields) => Some(header_views(fields@)),
        None => None,
    }
}

/// A [`Fetch`] with its texts as sequences of characters.
pub struct FetchView {
    pub url: Seq<char>,
    pub form: Option<Seq<(Seq<char>, Seq<char>)>>,
    pub stage: FetchStageView,
}

impl View for Fetch {
    type V = FetchView;

    open spec fn view(&self) -> FetchView {
        FetchView {
            url: self.url@,
            form: form_view(self.form),
            stage: self.stage@,
        }
    }
}

impl FetchEvent {
    /// The page that a direct response holds, if it is no challenge page.
    pub open spec fn direct_page(self) -> Option<Seq<char>> {
        match self {
            FetchEvent::Direct(status, body) => if is_challenge(status, body@) {
                None
            } else {
                Some(body@)
            },
            _ => None,
        }
    }

    /// The page that an answer of the solver holds, if the solver reports success.
    pub open spec fn proxied_page(self) -> Option<Seq<char>> {
        match self {
            FetchEvent::Answer(answer) => if answer.is_ok() {
                Some(answer.solution.response@)
            } else {
                None
            },
            _ => None,
        }
    }

    /// Whether the solver reports that it has solved the challenge.
    pub open spec fn solves(self) -> bool {
        self matches FetchEvent::Answer(answer) && answer.is_ok()
    }
}

/// How a fetch begins: directly while direct requests work, otherwise through the solver.
pub open spec fn first_stage(client: FlareClientView) -> FetchStageView {
    if client.direct_works {
        FetchStageView::FirstDirect
    } else {
        proxy_stage(client)
    }
}

/// How a fetch goes on when direct requests are not, or no longer, to be tried.
pub open spec fn proxy_stage(client: FlareClientView) -> FetchStageView {
    if client.has_solver() {
        FetchStageView::Proxy
    } else {
        FetchStageView::Failed
    }
}

/// What a fetch at this stage does after an event.
pub open spec fn next_stage(
    client: FlareClientView,
    stage: FetchStageView,
    event: FetchEvent,
) -> FetchStageView {
    match stage {
        FetchStageView::FirstDirect => match event.direct_page() {
            Some(page) => FetchStageView::Done(page),
            None => if client.has_solver() {
                FetchStageView::ReSolve
            } else {
                FetchStageView::Failed
            },
        },
        FetchStageView::ReSolve => if event.solves() {
            FetchStageView::SecondDirect
        } else {
            proxy_stage(client)
        },
        FetchStageView::SecondDirect => match event.direct_page() {
            Some(page) => FetchStageView::Done(page),
            None => proxy_stage(client),
        },
        FetchStageView::Proxy => match event.proxied_page() {
            Some(page) => FetchStageView::Done(page),
            None => FetchStageView::Failed,
        },
        FetchStageView::Done(page) => FetchStageView::Done(page),
        FetchStageView::Failed => FetchStageView::Failed,
    }
}

/// What a fetch at this stage makes of the client after an event: what the solver found is taken
/// over, and direct requests are given up when they have failed even then.
pub open spec fn next_client(
    client: FlareClientView,
    stage: FetchStageView,
    event: FetchEvent,
    now: i64,
) -> FlareClientView {
    match stage {
        FetchStageView::ReSolve => if event.solves() {
            client.after_answer(event->Answer_0, now)
        } else if client.has_solver() {
            client.without_direct()
        } else {
            client
        },
        FetchStageView::SecondDirect => if event.direct_page() is None && client.has_solver() {
            client.without_direct()
        } else {
            client
        },
        _ => client,
    }
}

/// A direct request: by GET, or by POST with a form where there is one.
#[derive(Debug, Clone)]
pub struct DirectRequest {
    pub url: String,
    pub headers: Vec<(String, String)>,
    pub form: Option<Vec<(String, String)>>,
}

/// A [`DirectRequest`] with its texts as sequences of characters.
pub struct DirectRequestView {
    pub url: Seq<char>,
    pub headers: Seq<(Seq<char>, Seq<char>)>,
    pub form: Option<Seq<(Seq<char>, Seq<char>)>>,
}

impl View for DirectRequest {
    type V = DirectRequestView;

    open spec fn view(&self) -> DirectRequestView {
        DirectRequestView {
            url: self.url@,
            headers: header_views(self.headers@),
            form: form_view(self.form),
        }
    }
}

/// What is to be done for a fetch.
#[derive(Debug)]
pub enum FetchAction {
    /// Request the page directly.
    Direct(DirectRequest),
    /// Ask the solver to solve the site's challenge.
    Solve(SolverCall),
    /// Request the page through the solver.
    Proxy(SolverCall),
    /// Nothing more: this is the result.
    Finished(Result<String, Error>),
}

/// A [`FetchAction`] with its texts as sequences of characters.
pub enum FetchActionView {
    Direct(DirectRequestView),
    Solve(SolverCallView),
    Proxy(SolverCallView),
    Finished(Result<Seq<char>, ErrorView>),
}

impl View for FetchAction {
    type V = FetchActionView;

    open spec fn view(&self) -> FetchActionView {
        match self {
            FetchAction::Direct(request) => FetchActionView::Direct(request@),
            FetchAction::Solve(call) => FetchActionView::Solve(call@),
            FetchAction::Proxy(call) => FetchActionView::Proxy(call@),
            FetchAction::Finished(result) => FetchActionView::Finished(outcome(*result)),
        }
    }
}

impl FetchActionView {
    /// Whether the limiter is to be asked first: for every request for a page, directly or through
    /// the solver, but not for solving the site's challenge.
    pub open spec fn is_limited(self) -> bool {
        self is Direct || self is Proxy
    }
}

impl FetchAction {
    /// Whether the limiter is to be asked first.
    pub fn is_limited(&self) -> (limited: bool)
        ensures
            limited == self@.is_limited(),
    {
        match self {
            FetchAction::Direct(_) => true,
            FetchAction::Solve(_) => false,
            FetchAction::Proxy(_) => true,
            FetchAction::Finished(_) => false,
        }
    }
}

impl FetchView {
    /// The error of a fetch that ends without a page.
    pub open spec fn error(self) -> ErrorView {
        if self.form is Some {
            ErrorView::AllPostAttemptsFailed(self.url)
        } else {
            ErrorView::AllAttemptsFailed(self.url)
        }
    }

    /// The command that has the solver request the page.
    pub open spec fn proxy_command(self, session: Option<Seq<char>>) -> SolverRequestView {
        match self.form {
            Some(form) => post_command(self.url, session, form_text(form)),
            None => get_command(self.url, session),
        }
    }

    /// The direct request for the page: with the header fields that the solver found.
    pub open spec fn direct(self, client: FlareClientView) -> DirectRequestView {
        DirectRequestView { url: self.url, headers: client.default_headers, form: self.form }
    }

    /// What is to be done for the fetch.
    pub open spec fn action(self, client: FlareClientView) -> FetchActionView {
        match self.stage {
            FetchStageView::FirstDirect => FetchActionView::Direct(self.direct(client)),
            FetchStageView::SecondDirect => FetchActionView::Direct(self.direct(client)),
            FetchStageView::ReSolve => match client.flaresolverr_url {
                Some(solver_url) => FetchActionView::Solve(
                    SolverCallView {
                        solver_url,
                        request: get_command(client.origin_url, client.session_id),
                    },
                ),
                None => FetchActionView::Finished(Err(self.error())),
            },
            FetchStageView::Proxy => match client.flaresolverr_url {
                Some(solver_url) => FetchActionView::Proxy(
                    SolverCallView {
                        solver_url,
                        request: self.proxy_command(client.session_id),
                    },
                ),
                None => FetchActionView::Finished(Err(self.error())),
            },
            FetchStageView::Done(page) => FetchActionView::Finished(Ok(page)),
            FetchStageView::Failed => FetchActionView::Finished(Err(self.error())),
        }
    }
}

impl Fetch {
    /// The error of a fetch that ends without a page.
    fn error(&self) -> (error: Error)
        ensures
            error@ == self@.error(),
    {
        if self.form.is_some() {
            Error::AllPostAttemptsFailed(self.url.clone())
        } else {
            Error::AllAttemptsFailed(self.url.clone())
        }
    }
}

impl FlareClient {
    /// How a fetch begins.
    fn begin(&self) -> (stage: FetchStage)
        ensures
            stage@ == first_stage(self@),
    {
        if self.direct_works {
            FetchStage::FirstDirect
        } else {
            self.proxy()
        }
    }

    /// How a fetch goes on when direct requests are not, or no longer, to be tried.
    fn proxy(&self) -> (stage: FetchStage)
        ensures
            stage@ == proxy_stage(self@),
    {
        if self.flaresolverr_url.is_some() {
            FetchStage::Proxy
        } else {
            FetchStage::Failed
        }
    }

    /// Direct requests are given up for the future where there is a solver, and the fetch goes
    /// through it.
    fn exhaust_direct(&mut self) -> (stage: FetchStage)
        ensures
            stage@ == proxy_stage(old(self)@),
            final(self)@ == (if old(self)@.has_solver() {
                old(self)@.without_direct()
            } else {
                old(self)@
            }),
    {
        if self.flaresolverr_url.is_some() {
            self.direct_works = false;
        }
        self.proxy()
    }

    /// The fetch of the page at `url`.
    ///
    /// Strategy: direct first, through the solver on failure, and learning from it.
    ///   1. While direct requests work, or have not been tried, request the page directly.
    ///   2. If challenged, have the solver solve the challenge and request it directly once more.
    ///   3. If that fails too, remember it, and request the page through the solver.
    ///   4. From then on, request pages through the solver at once.
    pub fn fetch_text(&self, url: &str) -> (fetch: Fetch)
        ensures
            fetch@ == (FetchView { url: url@, form: None, stage: first_stage(self@) }),
    {
        Fetch { url: url.to_owned(), form: None, stage: self.begin() }
    }

    /// Same strategy as [`FlareClient::fetch_text`], but for POST with a form.
    pub fn post_form_text(&self, url: &str, form: &[(&str, &str)]) -> (fetch: Fetch)
        ensures
            fetch@ == (FetchView {
                url: url@,
                form: Some(form_views(form@)),
                stage: first_stage(self@),
            }),
    {
        Fetch { url: url.to_owned(), form: Some(own_form(form)), stage: self.begin() }
    }

    /// The direct request for the page.
    fn direct(&self, fetch: &Fetch) -> (request: DirectRequest)
        ensures
            request@ == fetch@.direct(self@),
    {
        let form = match &fetch.form {
            Some(fields) => Some(copy_headers(fields)),
            None => None,
        };
        DirectRequest {
            url: fetch.url.clone(),
            headers: copy_headers(&self.default_headers),
            form,
        }
    }

    /// What is to be done for the fetch.
    pub fn action(&self, fetch: &Fetch) -> (action: FetchAction)
        ensures
            action@ == fetch@.action(self@),
    {
        match &fetch.stage {
            FetchStage::FirstDirect => FetchAction::Direct(self.direct(fetch)),
            FetchStage::SecondDirect => FetchAction::Direct(self.direct(fetch)),
            FetchStage::ReSolve => match self.re_solve() {
                Some(call) => FetchAction::Solve(call),
                None => FetchAction::Finished(Err(fetch.error())),
            },
            FetchStage::Proxy => match &self.flaresolverr_url {
                Some(solver_url) => {
                    let session = match &self.session_id {
                        Some(session) => Some(session.as_str()),
                        None => None,
                    };
                    let request = match &fetch.form {
                        Some(form) => request_post_data(
                            fetch.url.as_str(),
                            session,
                            encode_fields(form),
                        ),
                        None => request_get(fetch.url.as_str(), session),
                    };
                    FetchAction::Proxy(SolverCall { solver_url: solver_url.clone(), request })
                },
                None => FetchAction::Finished(Err(fetch.error())),
            },
            FetchStage::Done(page) => FetchAction::Finished(Ok(page.clone())),
            FetchStage::Failed => FetchAction::Finished(Err(fetch.error())),
        }
    }

    /// The fetch after an event, at the Unix time `now`.
    pub fn advance(&mut self, fetch: Fetch, event: FetchEvent, now: i64) -> (next: Fetch)
        requires
            FIRST_SECOND <= now <= LAST_SECOND,
        ensures
            next@ == (FetchView { stage: next_stage(old(self)@, fetch@.stage, event), ..fetch@ }),
            final(self)@ == next_client(old(self)@, fetch@.stage, event, now),
            old(self)@.well_formed() ==> final(self)@.well_formed(),
    {
        let stage = match fetch.stage {
            FetchStage::FirstDirect => match unchallenged(event) {
                Some(page) => FetchStage::Done(page),
                None => if self.flaresolverr_url.is_some() {
                    FetchStage::ReSolve
                } else {
                    FetchStage::Failed
                },
            },
            FetchStage::ReSolve => match event {
                FetchEvent::Answer(answer) => if self.finish_re_solve(answer, now) {
                    FetchStage::SecondDirect
                } else {
                    self.exhaust_direct()
                },
                _ => self.exhaust_direct(),
            },
            FetchStage::SecondDirect => match unchallenged(event) {
                Some(page) => FetchStage::Done(page),
                None => self.exhaust_direct(),
            },
            FetchStage::Proxy => match event {
                FetchEvent::Answer(answer) => match proxied_page(answer) {
                    Ok(page) => FetchStage::Done(page),
                    Err(_) => FetchStage::Failed,
                },
                _ => FetchStage::Failed,
            },
            FetchStage::Done(page) => FetchStage::Done(page),
            FetchStage::Failed => FetchStage::Failed,
        };
        Fetch { url: fetch.url, form: fetch.form, stage }
    }
}

/// The page that a direct response holds, if it is no challenge page.
fn unchallenged(event: FetchEvent) -> (page: Option<String>)
    ensures
        view_opt(page) == event.direct_page(),
{
    match event {
        FetchEvent::Direct(status, body) => match classify_direct(status, body) {
            DirectResult::Success(page) => Some(page),
            DirectResult::Challenged(_) => None,
        },
        _ => None,
    }
}

// ---------------------------------------------------------------------------
// Laws
// ---------------------------------------------------------------------------

/// How far a fetch is from its end.
pub open spec fn rank(stage: FetchStageView) -> nat {
    match stage {
        FetchStageView::FirstDirect => 4,
        FetchStageView::ReSolve => 3,
        FetchStageView::SecondDirect => 2,
        FetchStageView::Proxy => 1,
        FetchStageView::Done(_) => 0,
        FetchStageView::Failed => 0,
    }
}

/// Client and fetch after a run of events, each with the Unix time at which it came.
pub open spec fn after_events(
    client: FlareClientView,
    stage: FetchStageView,
    events: Seq<(FetchEvent, i64)>,
) -> (FlareClientView, FetchStageView)
    decreases events.len(),
{
    if events.len() == 0 {
        (client, stage)
    } else {
        let (before, at) = after_events(client, stage, events.drop_last());
        let (event, now) = events.last();
        (next_client(before, at, event, now), next_stage(before, at, event))
    }
}

/// Every event brings a fetch nearer to its end, so that no stage comes twice: at most two direct
/// requests, one attempt to solve the challenge and one request through the solver.
pub proof fn law_fetch_advances(client: FlareClientView, stage: FetchStageView, event: FetchEvent)
    requires
        rank(stage) > 0,
    ensures
        rank(next_stage(client, stage, event)) < rank(stage),
{
}

/// Whatever happens, a fetch has ended after four events.
pub proof fn law_fetch_ends(
    client: FlareClientView,
    stage: FetchStageView,
    events: Seq<(FetchEvent, i64)>,
)
    requires
        events.len() >= 4,
    ensures
        rank(after_events(client, stage, events).1) == 0,
{
    lemma_rank_bound(client, stage, events);
}

proof fn lemma_rank_bound(
    client: FlareClientView,
    stage: FetchStageView,
    events: Seq<(FetchEvent, i64)>,
)
    ensures
        rank(after_events(client, stage, events).1) == 0 || rank(
            after_events(client, stage, events).1,
        ) + events.len() <= 4,
    decreases events.len(),
{
    if events.len() > 0 {
        lemma_rank_bound(client, stage, events.drop_last());
        let (before, at) = after_events(client, stage, events.drop_last());
        if rank(at) > 0 {
            law_fetch_advances(before, at, events.last().0);
        }
    }
}

/// The first response decides alone where it is no challenge page: it is the result, and the client
/// stays as it was.
pub proof fn law_direct_first(client: FlareClientView, event: FetchEvent, now: i64)
    requires
        client.direct_works,
        event.direct_page() is Some,
    ensures
        first_stage(client) is FirstDirect,
        next_stage(client, first_stage(client), event) == FetchStageView::Done(
            event.direct_page()->0,
        ),
        next_client(client, first_stage(client), event, now) == client,
{
}

/// A fetch never hands out a direct response that is a challenge page: its result is the body of an
/// unchallenged direct response, or a page that the solver reports with success.
pub proof fn law_result_was_received(
    client: FlareClientView,
    events: Seq<(FetchEvent, i64)>,
    page: Seq<char>,
)
    requires
        after_events(client, first_stage(client), events).1 == FetchStageView::Done(page),
    ensures
        exists|i: int|
            0 <= i < events.len() && {
                ||| (#[trigger] events[i]).0.direct_page() == Some(page)
                ||| events[i].0.proxied_page() == Some(page)
            },
    decreases events.len(),
{
    if events.len() > 0 {
        let front = events.drop_last();
        let (before, at) = after_events(client, first_stage(client), front);
        if at == FetchStageView::Done(page) {
            law_result_was_received(client, front, page);
            let i = choose|i: int|
                0 <= i < front.len() && {
                    ||| (#[trigger] front[i]).0.direct_page() == Some(page)
                    ||| front[i].0.proxied_page() == Some(page)
                };
            assert(events[i] == front[i]);
        } else {
            assert(events[events.len() - 1] == events.last());
        }
    }
}

/// Without a solver there is one direct request and no more, and a failure teaches nothing: the
/// client stays as it was.
pub proof fn law_no_solver_one_request(client: FlareClientView, event: FetchEvent, now: i64)
    requires
        client.well_formed(),
        !client.has_solver(),
    ensures
        first_stage(client) is FirstDirect,
        rank(next_stage(client, first_stage(client), event)) == 0,
        next_stage(client, first_stage(client), event) is Failed <==> event.direct_page() is None,
        next_client(client, first_stage(client), event, now) == client,
{
}

/// With a solver no fetch fails before the page was requested through the solver.
pub proof fn law_solver_is_last_resort(
    client: FlareClientView,
    stage: FetchStageView,
    event: FetchEvent,
)
    requires
        client.has_solver(),
        rank(stage) > 0,
        next_stage(client, stage, event) is Failed,
    ensures
        stage is Proxy,
        event.proxied_page() is None,
{
}

/// The lesson of a failure: when direct requests fail although the solver was asked for help, this
/// fetch goes on through the solver, and so does every fetch that begins later, at once.
pub proof fn law_client_learns(
    client: FlareClientView,
    stage: FetchStageView,
    event: FetchEvent,
    now: i64,
)
    requires
        client.has_solver(),
        stage is ReSolve && !event.solves() || stage is SecondDirect
            && event.direct_page() is None,
    ensures
        next_stage(client, stage, event) is Proxy,
        !next_client(client, stage, event, now).direct_works,
        first_stage(next_client(client, stage, event, now)) is Proxy,
{
}

/// What a fetch learns is never unlearned, and nothing else about the site changes: whatever the
/// events, direct requests that were given up stay given up, and the site, the solver and the
/// session stay the same.
pub proof fn law_lessons_last(
    client: FlareClientView,
    stage: FetchStageView,
    events: Seq<(FetchEvent, i64)>,
)
    ensures
        ({
            let later = after_events(client, stage, events).0;
            &&& later.direct_works ==> client.direct_works
            &&& later.origin_url == client.origin_url
            &&& later.flaresolverr_url == client.flaresolverr_url
            &&& later.session_id == client.session_id
            &&& later.limiter == client.limiter
            &&& client.well_formed() ==> later.well_formed()
        }),
    decreases events.len(),
{
    if events.len() > 0 {
        law_lessons_last(client, stage, events.drop_last());
    }
}

/// A solved challenge changes how later requests look: they pose as the solver's browser, with its
/// cookies and the header fields it found.
pub proof fn law_solution_is_taken_over(
    client: FlareClientView,
    answer: FlareSolverrResponse,
    now: i64,
)
    requires
        answer.is_ok(),
    ensures
        ({
            let later = next_client(
                client,
                FetchStageView::ReSolve,
                FetchEvent::Answer(answer),
                now,
            );
            &&& later.default_headers == answer.solved()->Ok_0.headers
            &&& later.agent.jar == entries(views(answer.solution.cookies@), now)
            &&& answer.solution.userAgent@.len() > 0 ==> later.agent.user_agent == Some(
                answer.solution.userAgent@,
            )
            &&& later.direct_works == client.direct_works
        }),
{
    assert(Seq::<JarEntryView>::empty() + entries(views(answer.solution.cookies@), now) =~= entries(
        views(answer.solution.cookies@),
        now,
    ));
}

/// The setup of a client with a solver: a session is opened only where none is set up, with one
/// command and before anything else; the first solve is for the site itself, in the session that
/// the client then has; and after it the client is ready, whatever came back. It keeps the site and
/// the solver, and it begins with direct requests.
pub proof fn law_setup(
    origin_url: Seq<char>,
    solver_url: Seq<char>,
    configured: Option<Seq<char>>,
    limiter: Option<RateLimiter>,
    session: SetupEvent,
    answer: SetupEvent,
    now: i64,
)
    ensures
        ({
            let start = first_setup(origin_url, Some(solver_url), configured, limiter);
            let opened = if configured is Some {
                start
            } else {
                start.after(session, now)
            };
            let done = opened.after(answer, now);
            &&& configured is None ==> start.call() == Some(
                SolverCallView { solver_url, request: session_command() },
            )
            &&& configured is Some ==> opened.client.session_id == configured
            &&& opened.call() == Some(
                SolverCallView {
                    solver_url,
                    request: get_command(origin_url, opened.client.session_id),
                },
            )
            &&& done.stage is Ready
            &&& done.call() is None
            &&& done.client.session_id == opened.client.session_id
            &&& done.client.origin_url == origin_url
            &&& done.client.flaresolverr_url == Some(solver_url)
            &&& done.client.limiter == limiter
            &&& done.client.direct_works
        }),
{
}

/// Without a solver nobody is asked, and the client is a plain one.
pub proof fn law_setup_without_solver(
    origin_url: Seq<char>,
    configured: Option<Seq<char>>,
    limiter: Option<RateLimiter>,
)
    ensures
        ({
            let start = first_setup(origin_url, None, configured, limiter);
            &&& start.stage is Ready
            &&& start.call() is None
            &&& start.client == plain_client(origin_url, limiter)
        }),
{
}

/// A client after steps of whichever fetches: each step is the stage of its fetch, the event that
/// came, and the time.
pub open spec fn after_steps(
    client: FlareClientView,
    steps: Seq<(FetchStageView, FetchEvent, i64)>,
) -> FlareClientView
    decreases steps.len(),
{
    if steps.len() == 0 {
        client
    } else {
        let (stage, event, now) = steps.last();
        next_client(after_steps(client, steps.drop_last()), stage, event, now)
    }
}

/// The lesson is shared by all who use the client, by GET and by POST alike: once direct requests
/// are given up, whatever fetches go on and however their steps mix, every fetch that begins is at
/// once one request through the solver, in the same session, and its answer decides.
pub proof fn law_lesson_is_shared(
    client: FlareClientView,
    steps: Seq<(FetchStageView, FetchEvent, i64)>,
    url: Seq<char>,
    form: Option<Seq<(Seq<char>, Seq<char>)>>,
    event: FetchEvent,
    now: i64,
)
    requires
        client.has_solver(),
        !client.direct_works,
    ensures
        ({
            let later = after_steps(client, steps);
            let fetch = FetchView { url, form, stage: first_stage(later) };
            let end = FetchView { stage: next_stage(later, fetch.stage, event), ..fetch };
            &&& later.session_id == client.session_id
            &&& fetch.action(later) == FetchActionView::Proxy(
                SolverCallView {
                    solver_url: client.flaresolverr_url->0,
                    request: match form {
                        Some(fields) => post_command(url, client.session_id, form_text(fields)),
                        None => get_command(url, client.session_id),
                    },
                },
            )
            &&& end.action(later) == FetchActionView::Finished(
                match event.proxied_page() {
                    Some(page) => Ok(page),
                    None => Err(fetch.error()),
                },
            )
            &&& next_client(later, fetch.stage, event, now) == later
        }),
{
    lemma_given_up(client, steps);
}

proof fn lemma_given_up(client: FlareClientView, steps: Seq<(FetchStageView, FetchEvent, i64)>)
    requires
        !client.direct_works,
    ensures
        ({
            let later = after_steps(client, steps);
            &&& !later.direct_works
            &&& later.flaresolverr_url == client.flaresolverr_url
            &&& later.session_id == client.session_id
        }),
    decreases steps.len(),
{
    if steps.len() > 0 {
        lemma_given_up(client, steps.drop_last());
    }
}

/// An agent poses as the user agent that it is given, unless that is empty; it follows five
/// redirects, and its jar is empty.
pub proof fn law_bare_agent(name: Seq<char>)
    ensures
        name.len() > 0 ==> bare_agent(Some(name)).user_agent == Some(name),
        name.len() == 0 ==> bare_agent(Some(name)).user_agent is None,
        bare_agent(None).user_agent is None,
        bare_agent(Some(name)).max_redirects == 5,
        bare_agent(None).max_redirects == 5,
        bare_agent(Some(name)).jar.len() == 0,
        bare_agent(None).jar.len() == 0,
{
}

/// Cookies go into a jar one by one, in order: each as its own line, from its own address, and only
/// where that is an address and the line is a cookie from there.
pub proof fn law_entries(a: Seq<CookieView>, b: Seq<CookieView>, cookie: CookieView, now: i64)
    ensures
        entries(a + b, now) == entries(a, now) + entries(b, now),
        entries(Seq::empty(), now) == Seq::<JarEntryView>::empty(),
        ({
            let line = cookie.set_cookie(now);
            let uri = if is_uri(cookie.address()) {
                cookie.address()
            } else {
                "https://example.com"@
            };
            entries(seq![cookie], now) == if url_parts(uri) is Some && is_cookie_from(line, uri) {
                seq![JarEntryView { set_cookie: line, uri }]
            } else {
                Seq::empty()
            }
        }),
    decreases b.len(),
{
    let one = seq![cookie];
    assert(one.drop_last() =~= Seq::empty());
    assert(entries(one.drop_last(), now) =~= Seq::empty());
    assert(one.last() == cookie);
    if cookie.entry(now).fits() {
        assert(entries(one, now) =~= seq![cookie.entry(now)]);
    }
    if b.len() > 0 {
        law_entries(a, b.drop_last(), cookie, now);
        assert((a + b).drop_last() =~= a + b.drop_last());
        assert((a + b).last() == b.last());
        assert(entries(a + b, now) =~= entries(a, now) + entries(b, now));
    } else {
        assert(a + b =~= a);
        assert(entries(a + b, now) =~= entries(a, now) + entries(b, now));
    }
}

/// New cookies go behind those in the jar, and change nothing else about an agent.
pub proof fn law_with_cookies(agent: AgentSetupView, cookies: Seq<CookieView>, now: i64)
    ensures
        agent.with_cookies(cookies, now).user_agent == agent.user_agent,
        agent.with_cookies(cookies, now).max_redirects == agent.max_redirects,
        agent.with_cookies(cookies, now).jar == agent.jar + entries(cookies, now),
{
}

/// The agent that a solved challenge makes poses as the solver's browser and has its cookies, and
/// no others.
pub proof fn law_solved_agent(solved: SolvedView, now: i64)
    ensures
        solved.user_agent.len() > 0 ==> solved_agent(solved, now).user_agent == Some(
            solved.user_agent,
        ),
        solved.user_agent.len() == 0 ==> solved_agent(solved, now).user_agent is None,
        solved_agent(solved, now).max_redirects == 5,
        solved_agent(solved, now).jar == entries(solved.cookies, now),
{
    assert(Seq::<JarEntryView>::empty() + entries(solved.cookies, now) =~= entries(
        solved.cookies,
        now,
    ));
}

/// A new client goes to its site directly, without header fields of its own and with a bare agent.
/// It has the solver and the session that it is given; without a solver it has no session either.
pub proof fn law_new_client(
    origin_url: Seq<char>,
    solver_url: Seq<char>,
    session_id: Option<Seq<char>>,
    limiter: Option<RateLimiter>,
)
    ensures
        ({
            let client = unsolved_client(origin_url, Some(solver_url), session_id, limiter);
            &&& client.agent == bare_agent(None)
            &&& client.origin_url == origin_url
            &&& client.flaresolverr_url == Some(solver_url)
            &&& client.session_id == session_id
            &&& client.default_headers.len() == 0
            &&& client.limiter == limiter
            &&& client.direct_works
        }),
        ({
            let client = plain_client(origin_url, limiter);
            &&& unsolved_client(origin_url, None, session_id, limiter) == client
            &&& client.agent == bare_agent(None)
            &&& client.origin_url == origin_url
            &&& client.flaresolverr_url is None
            &&& client.session_id is None
            &&& client.default_headers.len() == 0
            &&& client.limiter == limiter
            &&& client.direct_works
        }),
{
}

/// An answer of the solver changes the agent and the header fields of a client, and nothing else;
/// an answer whose status is not `ok` changes nothing.
pub proof fn law_after_answer(client: FlareClientView, answer: FlareSolverrResponse, now: i64)
    ensures
        answer.status@ != "ok"@ ==> client.after_answer(answer, now) == client,
        answer.status@ == "ok"@ ==> {
            let later = client.after_answer(answer, now);
            &&& later.agent.jar == entries(views(answer.solution.cookies@), now)
            &&& later.agent.max_redirects == 5
            &&& answer.solution.userAgent@.len() > 0 ==> later.agent.user_agent == Some(
                answer.solution.userAgent@,
            )
            &&& answer.solution.userAgent@.len() == 0 ==> later.agent.user_agent is None
            &&& later.default_headers == kept_headers(answer.solution.reported())
            &&& later.origin_url == client.origin_url
            &&& later.flaresolverr_url == client.flaresolverr_url
            &&& later.session_id == client.session_id
            &&& later.limiter == client.limiter
            &&& later.direct_works == client.direct_works
        },
{
    if answer.status@ == "ok"@ {
        law_solved_agent(answer.solved()->Ok_0, now);
    }
}

/// The session that the solver opens is used where its answer has the status `ok`; whatever else
/// happens, there is none. Then the first solve comes, and its answer is taken over where its status
/// is `ok`; anything else leaves the client as it is, and it is ready.
pub proof fn law_setup_steps(
    setup: SetupView,
    status: String,
    opened: Option<String>,
    answer: FlareSolverrResponse,
    now: i64,
)
    ensures
        setup.stage is OpenSession ==> {
            let after = setup.after(SetupEvent::Session(status, opened), now);
            &&& after.stage is FirstSolve
            &&& status@ == "ok"@ ==> after.client.session_id == view_opt(opened)
            &&& status@ != "ok"@ ==> after.client.session_id is None
            &&& after.client.agent == setup.client.agent
            &&& after.client.default_headers == setup.client.default_headers
            &&& after.client.origin_url == setup.client.origin_url
            &&& after.client.flaresolverr_url == setup.client.flaresolverr_url
            &&& after.client.direct_works == setup.client.direct_works
            &&& setup.after(SetupEvent::Failure, now).client.session_id is None
            &&& setup.after(SetupEvent::Failure, now).stage is FirstSolve
            &&& setup.after(SetupEvent::Answer(answer), now).client.session_id is None
            &&& setup.after(SetupEvent::Answer(answer), now).stage is FirstSolve
        },
        setup.stage is FirstSolve ==> {
            &&& setup.after(SetupEvent::Answer(answer), now).client == setup.client.after_answer(
                answer,
                now,
            )
            &&& setup.after(SetupEvent::Answer(answer), now).stage is Ready
            &&& setup.after(SetupEvent::Failure, now).client == setup.client
            &&& setup.after(SetupEvent::Failure, now).stage is Ready
            &&& setup.after(SetupEvent::Session(status, opened), now).client == setup.client
            &&& setup.after(SetupEvent::Session(status, opened), now).stage is Ready
        },
        setup.stage is Ready ==> {
            &&& setup.after(SetupEvent::Answer(answer), now) == setup
            &&& setup.after(SetupEvent::Failure, now) == setup
            &&& setup.after(SetupEvent::Session(status, opened), now) == setup
            &&& setup.call() is None
        },
{
}

/// What an event means to a fetch: a direct response gives its body unless it is a challenge page,
/// an answer of the solver gives its page and counts as a solution where its status is `ok`, and
/// nothing else gives anything.
pub proof fn law_events(status: u16, body: String, answer: FlareSolverrResponse)
    ensures
        is_challenge(status, body@) ==> FetchEvent::Direct(status, body).direct_page() is None,
        !is_challenge(status, body@) ==> FetchEvent::Direct(status, body).direct_page() == Some(
            body@,
        ),
        FetchEvent::Answer(answer).direct_page() is None,
        FetchEvent::Failure.direct_page() is None,
        answer.status@ == "ok"@ ==> FetchEvent::Answer(answer).proxied_page() == Some(
            answer.solution.response@,
        ),
        answer.status@ != "ok"@ ==> FetchEvent::Answer(answer).proxied_page() is None,
        FetchEvent::Direct(status, body).proxied_page() is None,
        FetchEvent::Failure.proxied_page() is None,
        FetchEvent::Answer(answer).solves() <==> answer.status@ == "ok"@,
        !FetchEvent::Direct(status, body).solves(),
        !FetchEvent::Failure.solves(),
{
}

/// How a fetch goes on. Directly: an unchallenged response is the result; else the solver is asked
/// for help, and without one the fetch fails. With its help the page is requested directly once
/// more, without it through the solver. What the solver answers is the result, if it is a success.
pub proof fn law_stages(client: FlareClientView, event: FetchEvent, page: Seq<char>)
    ensures
        client.direct_works ==> first_stage(client) is FirstDirect,
        !client.direct_works && client.flaresolverr_url is Some ==> first_stage(client) is Proxy,
        !client.direct_works && client.flaresolverr_url is None ==> first_stage(client) is Failed,
        event.direct_page() matches Some(body) ==> {
            &&& next_stage(client, FetchStageView::FirstDirect, event) == FetchStageView::Done(body)
            &&& next_stage(client, FetchStageView::SecondDirect, event) == FetchStageView::Done(
                body,
            )
        },
        event.direct_page() is None && client.flaresolverr_url is Some ==> {
            &&& next_stage(client, FetchStageView::FirstDirect, event) is ReSolve
            &&& next_stage(client, FetchStageView::SecondDirect, event) is Proxy
        },
        event.direct_page() is None && client.flaresolverr_url is None ==> {
            &&& next_stage(client, FetchStageView::FirstDirect, event) is Failed
            &&& next_stage(client, FetchStageView::SecondDirect, event) is Failed
        },
        event.solves() ==> next_stage(client, FetchStageView::ReSolve, event) is SecondDirect,
        !event.solves() && client.flaresolverr_url is Some ==> next_stage(
            client,
            FetchStageView::ReSolve,
            event,
        ) is Proxy,
        !event.solves() && client.flaresolverr_url is None ==> next_stage(
            client,
            FetchStageView::ReSolve,
            event,
        ) is Failed,
        event.proxied_page() matches Some(body) ==> next_stage(client, FetchStageView::Proxy, event)
            == FetchStageView::Done(body),
        event.proxied_page() is None ==> next_stage(client, FetchStageView::Proxy, event) is Failed,
        next_stage(client, FetchStageView::Done(page), event) == FetchStageView::Done(page),
        next_stage(client, FetchStageView::Failed, event) is Failed,
{
}

/// What a fetch makes of the client: the solver's findings when they come, and no more direct
/// requests when the solver could not help or its help was not enough. All else leaves it as it is.
pub proof fn law_what_client_learns(
    client: FlareClientView,
    stage: FetchStageView,
    event: FetchEvent,
    now: i64,
)
    ensures
        ({
            let later = next_client(client, stage, event, now);
            let given_up = FlareClientView { direct_works: false, ..client };
            &&& !(stage is ReSolve) && !(stage is SecondDirect) ==> later == client
            &&& stage is ReSolve && !event.solves() && client.flaresolverr_url is Some ==> later
                == given_up
            &&& stage is ReSolve && !event.solves() && client.flaresolverr_url is None ==> later
                == client
            &&& stage is SecondDirect && event.direct_page() is Some ==> later == client
            &&& stage is SecondDirect && event.direct_page() is None
                && client.flaresolverr_url is Some ==> later == given_up
            &&& stage is SecondDirect && event.direct_page() is None
                && client.flaresolverr_url is None ==> later == client
            &&& stage is ReSolve ==> (event matches FetchEvent::Answer(answer) ==> answer.status@
                == "ok"@ ==> later == client.after_answer(answer, now))
        }),
{
}

/// What is to be done at each stage: a direct request goes to the page, with the client's header
/// fields and the form; the solver is asked to solve the challenge of the site; through the solver
/// the page itself is fetched, or the form is posted to it, in the client's session.
pub proof fn law_actions(client: FlareClientView, fetch: FetchView, solver_url: Seq<char>)
    requires
        client.flaresolverr_url == Some(solver_url),
    ensures
        fetch.stage is FirstDirect || fetch.stage is SecondDirect ==> (fetch.action(
            client,
        ) matches FetchActionView::Direct(request) && request.url == fetch.url && request.headers
            == client.default_headers && request.form == fetch.form),
        fetch.stage is ReSolve ==> (fetch.action(client) matches FetchActionView::Solve(call)
            && call.solver_url == solver_url && call.request == get_command(
            client.origin_url,
            client.session_id,
        )),
        fetch.stage is Proxy && fetch.form is None ==> (fetch.action(
            client,
        ) matches FetchActionView::Proxy(call) && call.solver_url == solver_url && call.request
            == get_command(fetch.url, client.session_id)),
        fetch.stage is Proxy && fetch.form is Some ==> (fetch.action(
            client,
        ) matches FetchActionView::Proxy(call) && call.solver_url == solver_url && call.request
            == post_command(fetch.url, client.session_id, form_text(fetch.form->0))),
{
}

/// A fetch that has ended with a page gives it; one that has failed, or that would need a solver
/// where there is none, gives an error that names the page, and whether a form was posted to it.
pub proof fn law_results_of_fetch(client: FlareClientView, fetch: FetchView)
    ensures
        fetch.stage matches FetchStageView::Done(page) ==> fetch.action(client)
            == FetchActionView::Finished(Ok(page)),
        fetch.stage is Failed || (client.flaresolverr_url is None && (fetch.stage is ReSolve
            || fetch.stage is Proxy)) ==> fetch.action(client) == FetchActionView::Finished(
            Err(
                if fetch.form is Some {
                    ErrorView::AllPostAttemptsFailed(fetch.url)
                } else {
                    ErrorView::AllAttemptsFailed(fetch.url)
                },
            ),
        ),
        client.flaresolverr_url is None && (fetch.stage is FirstDirect || fetch.stage is SecondDirect)
            ==> (fetch.action(client) matches FetchActionView::Direct(request) && request.url
            == fetch.url && request.headers == client.default_headers && request.form == fetch.form),
{
}

/// The limiter is asked before every request for a page, directly or through the solver, and before
/// nothing else.
pub proof fn law_fetch_limits(client: FlareClientView, fetch: FetchView)
    ensures
        fetch.action(client).is_limited() <==> fetch.stage is FirstDirect
            || fetch.stage is SecondDirect || (fetch.stage is Proxy
            && client.flaresolverr_url is Some),
{
}

/// Clients, agents and fetches are told field by field.
pub proof fn law_client_field_by_field(client: FlareClient, setup: Setup, fetch: Fetch)
    ensures
        client@.agent.user_agent == view_opt(client.agent.user_agent),
        client@.agent.max_redirects == client.agent.max_redirects,
        client@.agent.jar == views(client.agent.jar@),
        client@.origin_url == client.origin_url@,
        client@.flaresolverr_url == view_opt(client.flaresolverr_url),
        client@.session_id == view_opt(client.session_id),
        client@.default_headers == header_views(client.default_headers@),
        client@.limiter == client.limiter,
        client@.direct_works == client.direct_works,
        setup@.client == setup.client@,
        setup@.stage == setup.stage,
        fetch@.url == fetch.url@,
        fetch.form is None ==> fetch@.form is None,
        fetch.form matches Some(fields) ==> fetch@.form == Some(header_views(fields@)),
        fetch.stage is FirstDirect <==> fetch@.stage is FirstDirect,
        fetch.stage is ReSolve <==> fetch@.stage is ReSolve,
        fetch.stage is SecondDirect <==> fetch@.stage is SecondDirect,
        fetch.stage is Proxy <==> fetch@.stage is Proxy,
        fetch.stage is Failed <==> fetch@.stage is Failed,
        fetch.stage matches FetchStage::Done(page) ==> fetch@.stage == FetchStageView::Done(page@),
{
}

/// Requests, calls and actions are told field by field.
pub proof fn law_action_field_by_field(
    action: FetchAction,
    request: DirectRequest,
    call: SolverCall,
)
    ensures
        request@.url == request.url@,
        request@.headers == header_views(request.headers@),
        request.form is None ==> request@.form is None,
        request.form matches Some(fields) ==> request@.form == Some(header_views(fields@)),
        call@.solver_url == call.solver_url@,
        call@.request == call.request@,
        action matches FetchAction::Direct(direct) ==> action@ == FetchActionView::Direct(direct@),
        action matches FetchAction::Solve(solve) ==> action@ == FetchActionView::Solve(solve@),
        action matches FetchAction::Proxy(proxy) ==> action@ == FetchActionView::Proxy(proxy@),
        action matches FetchAction::Finished(result) ==> action@ == FetchActionView::Finished(
            outcome(result),
        ),
{
}

} // verus!
