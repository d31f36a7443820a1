use manga_sources::networking::cookie::{
    add_entry, cookie_address, cookie_origin, jar_entry, max_age, set_cookie, FlareSolverrCookie,
    JarEntry,
};
use manga_sources::networking::solver::{
    choose_session, encode_fields, keep_headers, open_session, own_form, proxied_page, request_get, request_post_data,
    sessions_create, solve_with_flaresolverr, FlareSolverrResponse, FlareSolverrSolution,
    HeaderValue,
};

fn encode_form(form: &[(&str, &str)]) -> String {
    encode_fields(&own_form(form))
}

fn cookie() -> FlareSolverrCookie {
    FlareSolverrCookie {
        domain: "example.com".to_string(),
        expiry: None,
        httpOnly: false,
        name: "n".to_string(),
        path: "".to_string(),
        sameSite: "".to_string(),
        secure: false,
        value: "v".to_string(),
    }
}

fn response(status: &str, headers: Option<Vec<(String, HeaderValue)>>) -> FlareSolverrResponse {
    FlareSolverrResponse {
        status: status.to_string(),
        message: "no luck".to_string(),
        solution: FlareSolverrSolution {
            url: "https://example.com".to_string(),
            status: 200,
            cookies: vec![cookie()],
            userAgent: "UA".to_string(),
            headers,
            response: "<html>solved page</html>".to_string(),
        },
        startTimestamp: 1,
        endTimestamp: 2,
        version: "3.3.21".to_string(),
    }
}

#[test]
fn commands_hold_what_the_solver_needs() {
    let get = request_get("https://a", None);
    assert_eq!(get.cmd, "request.get");
    assert_eq!(get.url.as_deref(), Some("https://a"));
    assert_eq!(get.max_timeout, Some(60000));
    assert!(get.session.is_none() && get.post_data.is_none());

    let post = request_post_data("https://a", Some("s"), "k=v".to_string());
    assert_eq!(post.cmd, "request.post");
    assert_eq!(post.session.as_deref(), Some("s"));
    assert_eq!(post.post_data.as_deref(), Some("k=v"));

    let create = sessions_create();
    assert_eq!(create.cmd, "sessions.create");
    assert!(create.url.is_none() && create.max_timeout.is_none() && create.session.is_none());
}

#[test]
fn forms_are_percent_encoded() {
    assert_eq!(encode_form(&[]), "");
    assert_eq!(encode_form(&[("a", "1")]), "a=1");
    assert_eq!(
        encode_form(&[("a b", "x=y&z"), ("ü", "-._~")]),
        "a%20b=x%3Dy%26z&%C3%BC=-._~"
    );
}

#[test]
fn form_splits_back_into_its_fields() {
    let form = [("key&=", "1=2&3"), ("", ""), ("foo", "bar")];
    let text = encode_form(&form);
    let fields: Vec<&str> = text.split('&').collect();
    assert_eq!(fields.len(), 3);
    for (field, (name, value)) in fields.iter().zip(form.iter()) {
        let (n, v) = field.split_once('=').unwrap();
        assert_eq!(urlencoding::decode(n).unwrap(), *name);
        assert_eq!(urlencoding::decode(v).unwrap(), *value);
    }
}

#[test]
fn set_cookie_headers_are_dropped_in_any_case() {
    let fields = vec![
        ("set-cookie".to_string(), HeaderValue::Text("a".to_string())),
        ("SET-Cookie".to_string(), HeaderValue::Text("b".to_string())),
        ("Server".to_string(), HeaderValue::Text("cloudflare".to_string())),
        ("set-cookie".to_string(), HeaderValue::Json("[1]".to_string())),
    ];
    assert_eq!(
        keep_headers(&fields),
        vec![
            ("Server".to_string(), "cloudflare".to_string()),
            ("set-cookie".to_string(), "[1]".to_string())
        ]
    );
}

#[test]
fn solver_answers_are_read() {
    let solved = solve_with_flaresolverr(response("ok", None)).unwrap();
    assert_eq!(solved.user_agent, "UA");
    assert_eq!(solved.cookies.len(), 1);
    assert!(solved.headers.is_empty());
    assert_eq!(
        proxied_page(response("ok", None)).unwrap(),
        "<html>solved page</html>"
    );
    assert_eq!(
        solve_with_flaresolverr(response("error", None))
            .err()
            .unwrap()
            .message(),
        "FlareSolverr error: no luck"
    );
    assert_eq!(
        proxied_page(response("OK", None)).unwrap_err().message(),
        "FlareSolverr error: no luck"
    );
}

#[test]
fn sessions_are_configured_or_opened() {
    let some = |s: &str| Some(s.to_string());
    assert_eq!(choose_session(some("mine"), some("ok"), some("new")), some("mine"));
    assert_eq!(choose_session(None, some("ok"), some("new")), some("new"));
    assert_eq!(choose_session(None, some("error"), some("new")), None);
    assert_eq!(choose_session(None, None, some("new")), None);
    assert_eq!(choose_session(None, some("ok"), None), None);
    assert!(open_session(&some("mine")).is_none());
    assert_eq!(open_session(&None).unwrap().cmd, "sessions.create");
}

#[test]
fn cookies_live_as_long_as_the_calendar_says() {
    let mut c = cookie();
    assert_eq!(max_age(&c, 1000), None);
    c.expiry = Some(1500);
    assert_eq!(max_age(&c, 1000), Some(500));
    assert_eq!(max_age(&c, 1500), None);
    assert_eq!(max_age(&c, 2000), None);
    // The last second of the year 9999, and the one after it.
    c.expiry = Some(253402300799);
    assert_eq!(max_age(&c, 0), Some(253402300799));
    c.expiry = Some(253402300800);
    assert_eq!(max_age(&c, 0), None);
    // A number that is negative as a time.
    c.expiry = Some(u64::MAX);
    assert_eq!(max_age(&c, -10), Some(9));
    assert_eq!(max_age(&c, 0), None);
    // The first second of the year -9999, and the one before it.
    c.expiry = Some((-377705116800i64) as u64);
    assert_eq!(max_age(&c, -377705116800), None);
    c.expiry = Some((-377705116801i64) as u64);
    assert_eq!(max_age(&c, -377705116800), None);
}

#[test]
fn cookie_lines_hold_what_is_set() {
    let mut c = cookie();
    assert_eq!(set_cookie(&c, 0), "n=v; Domain=example.com");
    c.sameSite = "Strict".to_string();
    assert_eq!(set_cookie(&c, 0), "n=v; Domain=example.com; SameSite=Strict");
    c.sameSite = "strict".to_string();
    c.path = "/sub".to_string();
    c.secure = true;
    assert_eq!(set_cookie(&c, 0), "n=v; Path=/sub; Domain=example.com; Secure");
    c.domain = "".to_string();
    c.httpOnly = true;
    c.sameSite = "None".to_string();
    c.expiry = Some(60);
    assert_eq!(
        set_cookie(&c, 0),
        "n=v; Path=/sub; Secure; HttpOnly; SameSite=None; Max-Age=60"
    );
}

#[test]
fn cookie_addresses() {
    let mut c = cookie();
    assert_eq!(cookie_address(&c), "https://example.com");
    assert_eq!(jar_entry(&c, 0).uri, "https://example.com");
    c.domain = "http://plain.example.com".to_string();
    assert_eq!(cookie_address(&c), "http://plain.example.com");
    assert_eq!(cookie_origin(&c, true), "http://plain.example.com");
    assert_eq!(cookie_origin(&c, false), "https://example.com");
    // No address holds a space.
    c.domain = "two words".to_string();
    assert_eq!(jar_entry(&c, 0).uri, "https://example.com");
}

#[test]
fn different_forms_are_sent_differently() {
    let texts = [
        encode_form(&[("a", "b&c=")]),
        encode_form(&[("a", "b"), ("c", "")]),
        encode_form(&[("a=b", ""), ("c", "")]),
        encode_form(&[("", "")]),
        encode_form(&[]),
        encode_form(&[("%41", "")]),
        encode_form(&[("A", "")]),
    ];
    for (i, a) in texts.iter().enumerate() {
        for b in &texts[i + 1..] {
            assert_ne!(a, b);
        }
    }
}

#[test]
fn jars_take_cookies_of_their_site_only() {
    let mut c = cookie();
    assert!(jar_entry(&c, 0).fits());
    c.domain = "".to_string();
    assert!(jar_entry(&c, 0).fits());
    // A line without a name is no cookie.
    c.name = "".to_string();
    assert!(!jar_entry(&c, 0).fits());
    let entry = |set_cookie: &str, uri: &str| JarEntry {
        set_cookie: set_cookie.to_string(),
        uri: uri.to_string(),
    };
    assert!(entry("a=b", "https://example.com").fits());
    assert!(entry("a=b; Domain=example.com", "https://www.example.com").fits());
    assert!(!entry("a=b; Domain=other.com", "https://example.com").fits());
    assert!(!entry("a", "https://example.com").fits());
    assert!(!entry("a=b", "no address").fits());
    assert!(!entry("a=b", "ftp://example.com").fits());
    // An address that `http` takes and `url` does not.
    assert!(!entry("a=b", "https://xn--a").fits());

    let mut jar = vec![];
    add_entry(&mut jar, entry("a=b", "u"), false);
    assert!(jar.is_empty());
    add_entry(&mut jar, entry("a=b", "u"), true);
    assert_eq!(jar[0].set_cookie, "a=b");
}
