use manga_sources::error::Error;
use manga_sources::networking::client::{
    build_flaresolverr_client, build_ureq_agent, insert_flaresolverr_cookies_into_agent, Fetch,
    FetchAction, FetchEvent, FetchStage, FlareClient, Setup, SetupEvent, SetupStage,
};
use manga_sources::networking::cookie::{jar_entry, FlareSolverrCookie};
use manga_sources::networking::ratelimit::RateLimiter;
use manga_sources::networking::solver::{
    FlareSolverrResponse, FlareSolverrSolution, HeaderValue,
};

const NOW: i64 = 1_700_000_000;

fn mock_cookie(name: &str, value: &str, domain: &str) -> FlareSolverrCookie {
    FlareSolverrCookie {
        domain: domain.to_string(),
        expiry: Some((NOW + 3600) as u64),
        httpOnly: true,
        name: name.to_string(),
        path: "/".to_string(),
        sameSite: "Lax".to_string(),
        secure: true,
        value: value.to_string(),
    }
}

fn answer(status: &str, page: &str) -> FlareSolverrResponse {
    FlareSolverrResponse {
        status: status.to_string(),
        message: "what the solver says".to_string(),
        solution: FlareSolverrSolution {
            url: "https://example.com".to_string(),
            status: 200,
            cookies: vec![mock_cookie("cf_clearance", "abc123", ".example.com")],
            userAgent: "Mozilla/5.0 Test Agent".to_string(),
            headers: Some(vec![
                ("Set-Cookie".to_string(), HeaderValue::Text("a=b".to_string())),
                ("X-Text".to_string(), HeaderValue::Text("text".to_string())),
                ("X-Number".to_string(), HeaderValue::Json("12".to_string())),
            ]),
            response: page.to_string(),
        },
        startTimestamp: 0,
        endTimestamp: 0,
        version: "3.3.21".to_string(),
    }
}

fn solver_client() -> FlareClient {
    FlareClient::from_env_with_rps(
        "https://example.com",
        Some("http://localhost:8191/v1".to_string()),
        Some("session".to_string()),
        None,
    )
}

const CHALLENGE: &str = "<title>Just a moment...</title> Cloudflare";

#[test]
fn test_insert_cookies_into_agent() {
    let mut agent = build_ureq_agent(Some("TestUA"));
    let cookies = vec![
        mock_cookie("cf_clearance", "test_value", ".example.com"),
        mock_cookie("session_id", "sess_abc", ".example.com"),
    ];

    insert_flaresolverr_cookies_into_agent(&mut agent, &cookies, NOW);
    assert_eq!(agent.jar.len(), 2);
    assert_eq!(
        agent.jar[0].set_cookie,
        "cf_clearance=test_value; Path=/; Domain=.example.com; Secure; HttpOnly; SameSite=Lax; Max-Age=3600"
    );
    assert_eq!(agent.jar[0].uri, "https://.example.com");

    let cookies2 = vec![mock_cookie("cf_clearance", "new_value", ".example.com")];
    insert_flaresolverr_cookies_into_agent(&mut agent, &cookies2, NOW);
    assert_eq!(agent.jar.len(), 3);
    assert!(agent.jar[2].set_cookie.starts_with("cf_clearance=new_value; "));
    assert_eq!(agent.user_agent.as_deref(), Some("TestUA"));
}

#[test]
fn test_insert_cookies_domain_with_https_prefix() {
    let mut agent = build_ureq_agent(None);
    let cookies = vec![FlareSolverrCookie {
        domain: "https://cdn.example.com".to_string(),
        expiry: None,
        httpOnly: false,
        name: "token".to_string(),
        path: "/".to_string(),
        sameSite: "".to_string(),
        secure: false,
        value: "abc".to_string(),
    }];

    insert_flaresolverr_cookies_into_agent(&mut agent, &cookies, NOW);
    let entry = jar_entry(&cookies[0], NOW);
    assert_eq!(
        entry.set_cookie,
        "token=abc; Path=/; Domain=https://cdn.example.com"
    );
    assert_eq!(entry.uri, "https://cdn.example.com");
    // No jar takes a domain with a scheme.
    assert!(agent.jar.is_empty());
}

#[test]
fn test_insert_cookies_empty_domain_fallback() {
    let mut agent = build_ureq_agent(None);
    let cookies = vec![FlareSolverrCookie {
        domain: "".to_string(),
        expiry: None,
        httpOnly: false,
        name: "x".to_string(),
        path: "/".to_string(),
        sameSite: "".to_string(),
        secure: false,
        value: "y".to_string(),
    }];

    // Falls back to https://example.com
    insert_flaresolverr_cookies_into_agent(&mut agent, &cookies, NOW);
    assert_eq!(agent.jar[0].set_cookie, "x=y; Path=/");
    assert_eq!(agent.jar[0].uri, "https://example.com");
}

#[test]
fn test_build_ureq_agent_with_ua() {
    let agent = build_ureq_agent(Some("CustomUA/1.0"));
    assert_eq!(agent.user_agent.as_deref(), Some("CustomUA/1.0"));
    assert_eq!(agent.max_redirects, 5);
    assert!(agent.jar.is_empty());
}

#[test]
fn test_build_ureq_agent_no_ua() {
    let agent = build_ureq_agent(None);
    assert!(agent.user_agent.is_none());
}

#[test]
fn test_build_ureq_agent_empty_ua() {
    // Empty string should be skipped, not set.
    let agent = build_ureq_agent(Some(""));
    assert!(agent.user_agent.is_none());
}

#[test]
fn test_plain_client_no_flaresolverr() {
    let client = FlareClient::plain();
    assert!(client.flaresolverr_url.is_none());
    assert!(client.session_id.is_none());
    assert!(client.default_headers.is_empty());
    assert!(client.origin_url.is_empty());
    assert!(client.limiter.is_none());
    assert!(client.direct_works);
}

#[test]
fn test_direct_works_starts_true() {
    let client = FlareClient::plain_with_rps(Some(RateLimiter::new(1_000_000_000, 0)));
    assert!(client.direct_works, "direct_works should start as true");
}

#[test]
fn test_plain_client_with_rps() {
    let client = FlareClient::plain_with_rps(Some(RateLimiter::new(500_000_000, 0)));
    assert!(client.flaresolverr_url.is_none());
    assert!(client.limiter.is_some());
}

#[test]
fn test_from_env_no_env_var_is_plain() {
    let client =
        FlareClient::from_env_with_rps("https://example.com", None, None, None);
    assert!(client.flaresolverr_url.is_none());
    assert_eq!(client.origin_url, "https://example.com");
}

#[test]
fn test_re_solve_returns_false_without_flaresolverr() {
    let client = FlareClient::plain();
    assert!(
        client.re_solve().is_none(),
        "re_solve should ask nobody when no FS configured"
    );
}

#[test]
fn test_flare_client_is_clone_send_sync() {
    fn assert_send_sync<T: Send + Sync + Clone>() {}
    assert_send_sync::<FlareClient>();
}

#[test]
fn re_solve_asks_for_the_site_in_the_session() {
    let call = solver_client().re_solve().unwrap();
    assert_eq!(call.solver_url, "http://localhost:8191/v1");
    assert_eq!(call.request.cmd, "request.get");
    assert_eq!(call.request.url.as_deref(), Some("https://example.com"));
    assert_eq!(call.request.max_timeout, Some(60000));
    assert_eq!(call.request.session.as_deref(), Some("session"));
    assert!(call.request.post_data.is_none());
}

fn setup(configured: Option<&str>) -> Setup {
    Setup::start(
        "https://example.com",
        Some("http://localhost:8191/v1".to_string()),
        configured.map(|s| s.to_string()),
        None,
    )
}

#[test]
fn solution_is_taken_over_at_the_start() {
    let setup = setup(Some("mine"));
    // A session is set up, so that none is opened.
    let call = setup.call().unwrap();
    assert_eq!(call.solver_url, "http://localhost:8191/v1");
    assert_eq!(call.request.cmd, "request.get");
    assert_eq!(call.request.url.as_deref(), Some("https://example.com"));
    assert_eq!(call.request.session.as_deref(), Some("mine"));
    let setup = setup.advance(SetupEvent::Answer(answer("ok", "")), NOW);
    assert_eq!(setup.stage, SetupStage::Ready);
    assert!(setup.call().is_none());
    let client = setup.client;
    assert_eq!(client.session_id.as_deref(), Some("mine"));
    assert_eq!(client.agent.user_agent.as_deref(), Some("Mozilla/5.0 Test Agent"));
    assert_eq!(client.agent.jar.len(), 1);
    assert_eq!(
        client.default_headers,
        vec![
            ("X-Text".to_string(), "text".to_string()),
            ("X-Number".to_string(), "12".to_string())
        ]
    );
    assert!(client.direct_works);
}

#[test]
fn session_is_opened_where_none_is_set_up() {
    let start = setup(None);
    let call = start.call().unwrap();
    assert_eq!(call.solver_url, "http://localhost:8191/v1");
    assert_eq!(call.request.cmd, "sessions.create");
    assert!(call.request.url.is_none());

    let opened = |status: &str| {
        let event = SetupEvent::Session(status.to_string(), Some("new".to_string()));
        setup(None).advance(event, NOW)
    };
    assert_eq!(opened("ok").client.session_id.as_deref(), Some("new"));
    assert_eq!(
        opened("ok").call().unwrap().request.session.as_deref(),
        Some("new")
    );
    assert_eq!(opened("error").client.session_id, None);
    assert_eq!(opened("error").call().unwrap().request.cmd, "request.get");
    assert_eq!(start.advance(SetupEvent::Failure, NOW).client.session_id, None);
}

#[test]
fn failed_first_solve_leaves_a_plain_agent() {
    for event in [SetupEvent::Answer(answer("error", "")), SetupEvent::Failure] {
        let done = setup(Some("mine")).advance(event, NOW);
        assert_eq!(done.stage, SetupStage::Ready);
        assert!(done.client.agent.user_agent.is_none());
        assert!(done.client.agent.jar.is_empty());
        assert!(done.client.flaresolverr_url.is_some());
        assert!(done.client.direct_works);
    }
}

#[test]
fn without_solver_the_client_is_ready_at_once() {
    let setup = Setup::start("https://example.com", None, Some("mine".to_string()), None);
    assert_eq!(setup.stage, SetupStage::Ready);
    assert!(setup.call().is_none());
    assert!(setup.client.session_id.is_none());
    assert_eq!(setup.client.origin_url, "https://example.com");
}

#[test]
fn lesson_of_a_get_holds_for_a_post() {
    let mut client = solver_client();
    let fetch = client.fetch_text("https://example.com/page");
    // Another fetch is under way on the same client.
    let other = client.fetch_text("https://example.com/other");
    let fetch = client.advance(fetch, FetchEvent::Failure, NOW);
    client.advance(fetch, FetchEvent::Failure, NOW);
    client.advance(other, FetchEvent::Direct(200, "other page".to_string()), NOW);
    let post = client.post_form_text("https://example.com/post", &[("k", "v")]);
    assert!(matches!(client.action(&post), FetchAction::Proxy(_)));
    let post = client.advance(post, FetchEvent::Answer(answer("ok", "posted")), NOW);
    assert_eq!(finished(&client, &post).unwrap().unwrap(), "posted");
}

#[test]
fn failed_re_solve_changes_nothing() {
    let mut client = solver_client();
    assert!(!client.finish_re_solve(answer("error", ""), NOW));
    assert!(client.agent.user_agent.is_none());
    assert!(client.agent.jar.is_empty());
    assert!(client.default_headers.is_empty());
    assert!(client.finish_re_solve(answer("ok", ""), NOW));
    assert_eq!(client.agent.jar.len(), 1);
}

#[test]
fn flaresolverr_client_has_agent_and_cookies() {
    let agent = build_flaresolverr_client(answer("ok", ""), NOW).unwrap();
    assert_eq!(agent.user_agent.as_deref(), Some("Mozilla/5.0 Test Agent"));
    assert_eq!(
        agent.jar[0].set_cookie,
        "cf_clearance=abc123; Path=/; Domain=.example.com; Secure; HttpOnly; SameSite=Lax; Max-Age=3600"
    );
    let error = build_flaresolverr_client(answer("error", ""), NOW).unwrap_err();
    assert_eq!(error.message(), "FlareSolverr error: what the solver says");
}

#[test]
fn request_headers_come_in_order() {
    let mut client = FlareClient::plain();
    client.default_headers = vec![("A".to_string(), "1".to_string())];
    let headers = client.request_headers(&vec![("X-Custom".to_string(), "hello".to_string())]);
    assert_eq!(
        headers,
        vec![
            ("A".to_string(), "1".to_string()),
            ("X-Custom".to_string(), "hello".to_string())
        ]
    );
    let headers = client.image_request_headers("https://cdn.example.com/image.png");
    assert_eq!(headers.len(), 3);
    assert_eq!(headers[0].0, "A");
    assert_eq!(
        headers[2],
        ("Referer".to_string(), "https://cdn.example.com/".to_string())
    );
}

#[test]
fn throttle_waits_for_the_limiter() {
    let mut client = FlareClient::plain_with_rps(Some(RateLimiter::new(100, 1000)));
    assert_eq!(client.throttle(1000), None);
    assert_eq!(client.throttle(1040), Some(60));
    assert_eq!(client.throttle(1100), None);
    let mut unlimited = FlareClient::plain();
    assert_eq!(unlimited.throttle(0), None);
    assert_eq!(unlimited.throttle(0), None);
}

fn finished(client: &FlareClient, fetch: &Fetch) -> Option<Result<String, Error>> {
    match client.action(fetch) {
        FetchAction::Finished(result) => Some(result),
        _ => None,
    }
}

#[test]
fn unchallenged_response_is_the_result() {
    let mut client = solver_client();
    let fetch = client.fetch_text("https://example.com/page");
    assert!(matches!(client.action(&fetch), FetchAction::Direct(_)));
    let fetch = client.advance(fetch, FetchEvent::Direct(200, "the page".to_string()), NOW);
    assert_eq!(finished(&client, &fetch).unwrap().unwrap(), "the page");
    assert!(client.direct_works);
    // A plain refusal is no challenge: what the site says is the result.
    let fetch = client.fetch_text("https://example.com/page");
    let fetch = client.advance(fetch, FetchEvent::Direct(403, "Forbidden".to_string()), NOW);
    assert_eq!(finished(&client, &fetch).unwrap().unwrap(), "Forbidden");
}

#[test]
fn solved_challenge_leads_to_a_second_direct_request() {
    let mut client = solver_client();
    let fetch = client.fetch_text("https://example.com/page");
    let fetch = client.advance(fetch, FetchEvent::Direct(200, CHALLENGE.to_string()), NOW);
    match client.action(&fetch) {
        FetchAction::Solve(call) => {
            assert_eq!(call.request.url.as_deref(), Some("https://example.com"))
        }
        other => panic!("{:?}", other),
    }
    let fetch = client.advance(fetch, FetchEvent::Answer(answer("ok", "ignored")), NOW);
    match client.action(&fetch) {
        FetchAction::Direct(request) => {
            assert_eq!(request.url, "https://example.com/page");
            assert_eq!(request.headers.len(), 2);
            assert!(request.form.is_none());
        }
        other => panic!("{:?}", other),
    }
    assert_eq!(client.agent.user_agent.as_deref(), Some("Mozilla/5.0 Test Agent"));
    let fetch = client.advance(fetch, FetchEvent::Direct(200, "the page".to_string()), NOW);
    assert_eq!(finished(&client, &fetch).unwrap().unwrap(), "the page");
    assert!(client.direct_works);
}

#[test]
fn failure_is_remembered_and_the_solver_fetches() {
    let mut client = solver_client();
    let fetch = client.fetch_text("https://example.com/page");
    let fetch = client.advance(fetch, FetchEvent::Failure, NOW);
    let fetch = client.advance(fetch, FetchEvent::Answer(answer("ok", "")), NOW);
    let fetch = client.advance(fetch, FetchEvent::Direct(503, CHALLENGE.to_string()), NOW);
    assert!(!client.direct_works);
    match client.action(&fetch) {
        FetchAction::Proxy(call) => {
            assert_eq!(call.solver_url, "http://localhost:8191/v1");
            assert_eq!(call.request.cmd, "request.get");
            assert_eq!(call.request.url.as_deref(), Some("https://example.com/page"));
            assert_eq!(call.request.session.as_deref(), Some("session"));
        }
        other => panic!("{:?}", other),
    }
    let fetch = client.advance(fetch, FetchEvent::Answer(answer("ok", "proxied page")), NOW);
    assert_eq!(finished(&client, &fetch).unwrap().unwrap(), "proxied page");

    // The next fetch goes straight through the solver.
    let next = client.fetch_text("https://example.com/other");
    assert!(matches!(next.stage, FetchStage::Proxy));
    let next = client.advance(next, FetchEvent::Failure, NOW);
    let error = finished(&client, &next).unwrap().unwrap_err();
    assert_eq!(
        error.message(),
        "FlareClient: all attempts failed for https://example.com/other"
    );
}

#[test]
fn unsolved_challenge_goes_to_the_proxy_at_once() {
    let mut client = solver_client();
    let fetch = client.fetch_text("https://example.com/page");
    let fetch = client.advance(fetch, FetchEvent::Failure, NOW);
    let fetch = client.advance(fetch, FetchEvent::Answer(answer("error", "")), NOW);
    assert!(matches!(fetch.stage, FetchStage::Proxy));
    assert!(!client.direct_works);
    assert!(client.agent.jar.is_empty());
    let fetch = client.advance(fetch, FetchEvent::Answer(answer("error", "page")), NOW);
    assert!(finished(&client, &fetch).unwrap().is_err());
}

#[test]
fn without_solver_one_request_decides() {
    let mut client = FlareClient::plain();
    let fetch = client.fetch_text("https://example.com");
    let fetch = client.advance(fetch, FetchEvent::Failure, NOW);
    let error = finished(&client, &fetch).unwrap().unwrap_err();
    assert!(matches!(error, Error::AllAttemptsFailed(_)));
    assert!(client.direct_works);
}

#[test]
fn post_goes_through_the_solver_with_its_form() {
    let mut client = solver_client();
    client.direct_works = false;
    let fetch = client.post_form_text(
        "https://example.com/post",
        &[("key", "value"), ("foo", "b&r =ä")],
    );
    match client.action(&fetch) {
        FetchAction::Proxy(call) => {
            assert_eq!(call.request.cmd, "request.post");
            assert_eq!(
                call.request.post_data.as_deref(),
                Some("key=value&foo=b%26r%20%3D%C3%A4")
            );
            assert_eq!(call.request.max_timeout, Some(60000));
        }
        other => panic!("{:?}", other),
    }
    let fetch = client.advance(fetch, FetchEvent::Failure, NOW);
    let error = finished(&client, &fetch).unwrap().unwrap_err();
    assert_eq!(
        error.message(),
        "FlareClient: all POST attempts failed for https://example.com/post"
    );
}

#[test]
fn direct_post_sends_its_form() {
    let client = solver_client();
    let fetch = client.post_form_text("https://example.com/post", &[("k", "a b"), ("", "ä")]);
    let action = client.action(&fetch);
    assert!(action.is_limited());
    match action {
        FetchAction::Direct(request) => {
            assert_eq!(request.url, "https://example.com/post");
            assert_eq!(
                request.form.unwrap(),
                vec![
                    ("k".to_string(), "a b".to_string()),
                    ("".to_string(), "ä".to_string())
                ]
            );
        }
        other => panic!("{:?}", other),
    }
}

#[test]
fn limiter_is_asked_for_pages_and_not_for_solving() {
    let mut client = solver_client();
    let fetch = client.fetch_text("https://example.com/page");
    assert!(client.action(&fetch).is_limited());
    let fetch = client.advance(fetch, FetchEvent::Failure, NOW);
    assert!(!client.action(&fetch).is_limited());
    let fetch = client.advance(fetch, FetchEvent::Failure, NOW);
    assert!(client.action(&fetch).is_limited());
    let fetch = client.advance(fetch, FetchEvent::Failure, NOW);
    assert!(!client.action(&fetch).is_limited());
}

#[test]
fn fetch_ends_within_four_events() {
    let mut client = solver_client();
    let mut fetch = client.fetch_text("https://example.com");
    for _ in 0..4 {
        assert!(finished(&client, &fetch).is_none() || !client.direct_works);
        let event = match fetch.stage {
            FetchStage::ReSolve => FetchEvent::Answer(answer("ok", "")),
            _ => FetchEvent::Failure,
        };
        fetch = client.advance(fetch, event, NOW);
    }
    assert!(finished(&client, &fetch).is_some());
}
