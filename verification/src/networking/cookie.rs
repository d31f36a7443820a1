//! Cookies that the challenge solver obtained, as a cookie jar takes them.
use crate::dates::{calendar_time, FIRST_SECOND, LAST_SECOND};
use crate::text::{
    begins_with, concat, decimal, join, joined, same_text, starts_with, to_decimal, views,
};
use crate::urls::{accepts_uri, is_uri, parse_url, url_parts};
use vstd::prelude::*;

verus! {

/// A cookie as the challenge solver reports it.
#[allow(non_snake_case)]
#[derive(Debug, Clone)]
pub struct FlareSolverrCookie {
    pub domain: String,
    pub expiry: Option<u64>,
    pub httpOnly: bool,
    pub name: String,
    pub path: String,
    pub sameSite: String,
    pub secure: bool,
    pub value: String,
}

/// A [`FlareSolverrCookie`] with its texts as sequences of characters.
pub struct CookieView {
    pub domain: Seq<char>,
    pub expiry: Option<u64>,
    pub http_only: bool,
    pub name: Seq<char>,
    pub path: Seq<char>,
    pub same_site: Seq<char>,
    pub secure: bool,
    pub value: Seq<char>,
}

impl View for FlareSolverrCookie {
    type V = CookieView;

    open spec fn view(&self) -> CookieView {
        CookieView {
            domain: self.domain@,
            expiry: self.expiry,
            http_only: self.httpOnly,
            name: self.name@,
            path: self.path@,
            same_site: self.sameSite@,
            secure: self.secure,
            value: self.value@,
        }
    }
}

/// One entry of a cookie jar: a `Set-Cookie` line, and the address that it is taken to come from.
#[derive(Debug, Clone)]
pub struct JarEntry {
    pub set_cookie: String,
    pub uri: String,
}

/// A [`JarEntry`] with its texts as sequences of characters.
pub struct JarEntryView {
    pub set_cookie: Seq<char>,
    pub uri: Seq<char>,
}

impl View for JarEntry {
    type V = JarEntryView;

    open spec fn view(&self) -> JarEntryView {
        JarEntryView { set_cookie: self.set_cookie@, uri: self.uri@ }
    }
}

/// Whether `ureq::Cookie::parse` takes a `Set-Cookie` line as a cookie from an address.
pub uninterp spec fn is_cookie_from(set_cookie: Seq<char>, uri: Seq<char>) -> bool;

/// `ureq::Cookie::parse` on the line and on the address as an `http::Uri`: whether it takes the
/// line, or the address is no such `Uri`. That depends on the two texts alone; the clock is read for
/// the lifetime of the cookie, which is not told here. It panics on a `Uri` that `url::Url::parse`
/// refuses, so that the address has to be one that is not refused.
#[verifier::external_body]
pub(crate) fn takes_cookie(set_cookie: &str, uri: &str) -> (taken: bool)
    requires
        url_parts(uri@) is Some,
    ensures
        taken == is_cookie_from(set_cookie@, uri@),
{
    match ureq::http::Uri::try_from(uri) {
        Ok(uri) => ureq::Cookie::parse(set_cookie, &uri).is_ok(),
        Err(_) => false,
    }
}

impl JarEntryView {
    /// Whether the entry is one that a jar takes: its address is one, and its line is a cookie from
    /// there.
    pub open spec fn fits(self) -> bool {
        url_parts(self.uri) is Some && is_cookie_from(self.set_cookie, self.uri)
    }
}

impl JarEntry {
    /// Whether the entry is one that a jar takes.
    pub fn fits(&self) -> (fits: bool)
        ensures
            fits == self@.fits(),
    {
        parse_url(self.uri.as_str()).is_some() && takes_cookie(
            self.set_cookie.as_str(),
            self.uri.as_str(),
        )
    }
}

/// Adds an entry to a jar, if it fits.
pub fn add_entry(jar: &mut Vec<JarEntry>, entry: JarEntry, fits: bool)
    ensures
        views(final(jar)@) == (if fits {
            views(old(jar)@).push(entry@)
        } else {
            views(old(jar)@)
        }),
{
    if fits {
        jar.push(entry);
        assert(views(jar@) =~= views(old(jar)@).push(entry@));
    }
}

/// The list of one element, where there is one.
pub open spec fn if_so<T>(condition: bool, element: T) -> Seq<T> {
    if condition {
        seq![element]
    } else {
        Seq::empty()
    }
}

/// The same bits as a signed number.
pub open spec fn signed(n: u64) -> int {
    if n <= i64::MAX {
        n as int
    } else {
        n - 0x1_0000_0000_0000_0000
    }
}

impl CookieView {
    /// The seconds that the cookie has left to live at the Unix time `now`. `None` for a cookie
    /// without an expiry date, one that has expired, and one whose date no calendar holds.
    pub open spec fn max_age(self, now: i64) -> Option<int> {
        match self.expiry {
            Some(expiry) => if FIRST_SECOND <= signed(expiry) <= LAST_SECOND && signed(expiry)
                > now {
                Some(signed(expiry) - now)
            } else {
                None
            },
            None => None,
        }
    }

    /// Whether the solver reports a `SameSite` value that browsers know.
    pub open spec fn knows_same_site(self) -> bool {
        self.same_site == "Strict"@ || self.same_site == "Lax"@ || self.same_site == "None"@
    }

    /// The parts of the `Set-Cookie` line: the cookie itself, and the attributes that are set.
    pub open spec fn parts(self, now: i64) -> Seq<Seq<char>> {
        seq![self.name + "="@ + self.value] + if_so(self.path.len() > 0, "Path="@ + self.path)
            + if_so(self.domain.len() > 0, "Domain="@ + self.domain) + if_so(
            self.secure,
            "Secure"@,
        ) + if_so(self.http_only, "HttpOnly"@) + if_so(
            self.knows_same_site(),
            "SameSite="@ + self.same_site,
        ) + match self.max_age(now) {
            Some(age) => seq!["Max-Age="@ + decimal(age)],
            None => Seq::empty(),
        }
    }

    /// The `Set-Cookie` line.
    pub open spec fn set_cookie(self, now: i64) -> Seq<char> {
        joined(self.parts(now), "; "@)
    }

    /// The address that the domain of the cookie stands for, if it has the form of one.
    pub open spec fn address(self) -> Seq<char> {
        if begins_with(self.domain, "http://"@) || begins_with(self.domain, "https://"@) {
            self.domain
        } else {
            "https://"@ + self.domain
        }
    }

    /// The address that the cookie is taken to come from; `accepted` says whether
    /// [`CookieView::address`] can be one.
    pub open spec fn origin(self, accepted: bool) -> Seq<char> {
        if accepted {
            self.address()
        } else {
            "https://example.com"@
        }
    }

    /// The cookie as an entry of a jar.
    pub open spec fn entry(self, now: i64) -> JarEntryView {
        JarEntryView { set_cookie: self.set_cookie(now), uri: self.origin(is_uri(self.address())) }
    }
}

/// The seconds that the cookie has left to live at the Unix time `now`, where it is to be kept for
/// a limited time.
pub fn max_age(cookie: &FlareSolverrCookie, now: i64) -> (age: Option<i64>)
    requires
        FIRST_SECOND <= now <= LAST_SECOND,
    ensures
        match age {
            Some(a) => cookie@.max_age(now) == Some(a as int),
            None => cookie@.max_age(now) is None,
        },
{
    if let Some(expiry) = cookie.expiry {
        let time: i64 = expiry as i64;
        assert(time == signed(expiry)) by {
            assert(expiry <= 0x7fff_ffff_ffff_ffff ==> (expiry as i64) == expiry) by (bit_vector);
            assert(expiry > 0x7fff_ffff_ffff_ffff ==> (expiry as i64) == expiry
                - 0x1_0000_0000_0000_0000) by (bit_vector);
        }
        if let Some(date) = calendar_time(time) {
            let age: i64 = date - now;
            if age > 0 {
                return Some(age);
            }
        }
    }
    None
}

/// The `Set-Cookie` line of a cookie at the Unix time `now`.
pub fn set_cookie(cookie: &FlareSolverrCookie, now: i64) -> (line: String)
    requires
        FIRST_SECOND <= now <= LAST_SECOND,
    ensures
        line@ == cookie@.set_cookie(now),
{
    let mut first = concat(cookie.name.as_str(), "=");
    first.append(cookie.value.as_str());
    let mut parts: Vec<String> = Vec::new();
    parts.push(first);
    let ghost c = cookie@;
    let ghost line0 = seq![c.name + "="@ + c.value];
    assert(views(parts@) =~= line0);
    if !cookie.path.as_str().is_empty() {
        parts.push(concat("Path=", cookie.path.as_str()));
    }
    let ghost line1 = line0 + if_so(c.path.len() > 0, "Path="@ + c.path);
    assert(views(parts@) =~= line1);
    if !cookie.domain.as_str().is_empty() {
        parts.push(concat("Domain=", cookie.domain.as_str()));
    }
    let ghost line2 = line1 + if_so(c.domain.len() > 0, "Domain="@ + c.domain);
    assert(views(parts@) =~= line2);
    if cookie.secure {
        parts.push("Secure".to_owned());
    }
    let ghost line3 = line2 + if_so(c.secure, "Secure"@);
    assert(views(parts@) =~= line3);
    if cookie.httpOnly {
        parts.push("HttpOnly".to_owned());
    }
    let ghost line4 = line3 + if_so(c.http_only, "HttpOnly"@);
    assert(views(parts@) =~= line4);
    let same_site = cookie.sameSite.as_str();
    if same_text(same_site, "Strict") || same_text(same_site, "Lax") || same_text(
        same_site,
        "None",
    ) {
        parts.push(concat("SameSite=", same_site));
    }
    let ghost line5 = line4 + if_so(c.knows_same_site(), "SameSite="@ + c.same_site);
    assert(views(parts@) =~= line5);
    if let Some(age) = max_age(cookie, now) {
        let number = to_decimal(age);
        parts.push(concat("Max-Age=", number.as_str()));
    }
    assert(views(parts@) =~= c.parts(now));
    join(&parts, "; ")
}

/// The address that the domain of a cookie stands for, if it has the form of one.
pub fn cookie_address(cookie: &FlareSolverrCookie) -> (address: String)
    ensures
        address@ == cookie@.address(),
{
    let domain = cookie.domain.as_str();
    if starts_with(domain, "http://") || starts_with(domain, "https://") {
        domain.to_owned()
    } else {
        concat("https://", domain)
    }
}

/// The address that a cookie is taken to come from; `accepted` says whether
/// [`cookie_address`] can be one.
pub fn cookie_origin(cookie: &FlareSolverrCookie, accepted: bool) -> (origin: String)
    ensures
        origin@ == cookie@.origin(accepted),
{
    if accepted {
        cookie_address(cookie)
    } else {
        "https://example.com".to_owned()
    }
}

/// A cookie as an entry of a jar, at the Unix time `now`.
pub fn jar_entry(cookie: &FlareSolverrCookie, now: i64) -> (entry: JarEntry)
    requires
        FIRST_SECOND <= now <= LAST_SECOND,
    ensures
        entry@ == cookie@.entry(now),
{
    let address = cookie_address(cookie);
    let accepted = accepts_uri(address.as_str());
    JarEntry { set_cookie: set_cookie(cookie, now), uri: cookie_origin(cookie, accepted) }
}

/// A cookie never gets a lifetime that has already passed.
pub proof fn law_max_age_positive(cookie: CookieView, now: i64)
    ensures
        cookie.max_age(now) matches Some(age) ==> age > 0,
{
}

/// A cookie lives until its expiry date, taken as a signed number: from a moment before it, as many
/// seconds as lie between. It has no lifetime at that date or later, without a date, and with one
/// outside the years -9999 to 9999.
pub proof fn law_max_age(cookie: CookieView, now: i64)
    requires
        -377705116800 <= now <= 253402300799,
    ensures
        cookie.expiry is None ==> cookie.max_age(now) is None,
        cookie.expiry matches Some(expiry) ==> now < expiry <= 253402300799 ==> cookie.max_age(now)
            == Some(expiry - now),
        cookie.expiry matches Some(expiry) ==> expiry <= 0x7fff_ffff_ffff_ffff && expiry <= now
            ==> cookie.max_age(now) is None,
        cookie.expiry matches Some(expiry) ==> 253402300799 < expiry <= 0x7fff_ffff_ffff_ffff
            ==> cookie.max_age(now) is None,
        cookie.expiry matches Some(expiry) ==> expiry > 0x7fff_ffff_ffff_ffff && expiry
            - 0x1_0000_0000_0000_0000 < -377705116800 ==> cookie.max_age(now) is None,
        cookie.expiry matches Some(expiry) ==> expiry > 0x7fff_ffff_ffff_ffff && expiry
            - 0x1_0000_0000_0000_0000 <= now ==> cookie.max_age(now) is None,
        cookie.expiry matches Some(expiry) ==> expiry > 0x7fff_ffff_ffff_ffff && -377705116800
            <= expiry - 0x1_0000_0000_0000_0000 && now < expiry - 0x1_0000_0000_0000_0000
            ==> cookie.max_age(now) == Some(expiry - 0x1_0000_0000_0000_0000 - now),
{
}

/// The `Set-Cookie` line is the name, an equals sign and the value, and behind them, each after a
/// semicolon and a space, the attributes that are set: the path and the domain where they are not
/// empty, `Secure` and `HttpOnly`, a `SameSite` value that browsers know, and a lifetime.
pub proof fn law_set_cookie(cookie: CookieView, now: i64)
    ensures
        cookie.set_cookie(now) == cookie.name + "="@ + cookie.value + (if cookie.path.len() > 0 {
            "; Path="@ + cookie.path
        } else {
            Seq::empty()
        }) + (if cookie.domain.len() > 0 {
            "; Domain="@ + cookie.domain
        } else {
            Seq::empty()
        }) + (if cookie.secure {
            "; Secure"@
        } else {
            Seq::empty()
        }) + (if cookie.http_only {
            "; HttpOnly"@
        } else {
            Seq::empty()
        }) + (if cookie.same_site == "Strict"@ || cookie.same_site == "Lax"@ || cookie.same_site
            == "None"@ {
            "; SameSite="@ + cookie.same_site
        } else {
            Seq::empty()
        }) + (match cookie.max_age(now) {
            Some(age) => "; Max-Age="@ + decimal(age),
            None => Seq::empty(),
        }),
{
    lemma_attribute_names();
    let c = cookie;
    let none = Seq::<char>::empty();
    let line0 = seq![c.name + "="@ + c.value];
    assert(joined(line0, "; "@) == c.name + "="@ + c.value);
    let line1 = lemma_more(line0, c.path.len() > 0, "Path="@, "; Path="@, c.path);
    let line2 = lemma_more(line1, c.domain.len() > 0, "Domain="@, "; Domain="@, c.domain);
    assert("Secure"@ + none =~= "Secure"@);
    assert("; Secure"@ + none =~= "; Secure"@);
    let line3 = lemma_more(line2, c.secure, "Secure"@, "; Secure"@, none);
    assert("HttpOnly"@ + none =~= "HttpOnly"@);
    assert("; HttpOnly"@ + none =~= "; HttpOnly"@);
    let line4 = lemma_more(line3, c.http_only, "HttpOnly"@, "; HttpOnly"@, none);
    let line5 = lemma_more(
        line4,
        c.knows_same_site(),
        "SameSite="@,
        "; SameSite="@,
        c.same_site,
    );
    let age = match c.max_age(now) {
        Some(age) => decimal(age),
        None => none,
    };
    let line6 = lemma_more(line5, c.max_age(now) is Some, "Max-Age="@, "; Max-Age="@, age);
    assert(c.parts(now) =~= line6);
}

/// The names of the attributes, behind a semicolon and a space.
proof fn lemma_attribute_names()
    ensures
        "; Path="@ == "; "@ + "Path="@,
        "; Domain="@ == "; "@ + "Domain="@,
        "; Secure"@ == "; "@ + "Secure"@,
        "; HttpOnly"@ == "; "@ + "HttpOnly"@,
        "; SameSite="@ == "; "@ + "SameSite="@,
        "; Max-Age="@ == "; "@ + "Max-Age="@,
{
    reveal_strlit("; ");
    reveal_strlit("Path=");
    reveal_strlit("; Path=");
    reveal_strlit("Domain=");
    reveal_strlit("; Domain=");
    reveal_strlit("Secure");
    reveal_strlit("; Secure");
    reveal_strlit("HttpOnly");
    reveal_strlit("; HttpOnly");
    reveal_strlit("SameSite=");
    reveal_strlit("; SameSite=");
    reveal_strlit("Max-Age=");
    reveal_strlit("; Max-Age=");
    assert("; Path="@ =~= "; "@ + "Path="@);
    assert("; Domain="@ =~= "; "@ + "Domain="@);
    assert("; Secure"@ =~= "; "@ + "Secure"@);
    assert("; HttpOnly"@ =~= "; "@ + "HttpOnly"@);
    assert("; SameSite="@ =~= "; "@ + "SameSite="@);
    assert("; Max-Age="@ =~= "; "@ + "Max-Age="@);
}

/// One more attribute, where it is set, stands behind a semicolon and a space.
proof fn lemma_more(
    parts: Seq<Seq<char>>,
    condition: bool,
    name: Seq<char>,
    separated: Seq<char>,
    value: Seq<char>,
) -> (more: Seq<Seq<char>>)
    requires
        parts.len() > 0,
        separated == "; "@ + name,
    ensures
        more == parts + if_so(condition, name + value),
        more.len() > 0,
        joined(more, "; "@) == joined(parts, "; "@) + if condition {
            separated + value
        } else {
            Seq::empty()
        },
{
    let more = parts + if_so(condition, name + value);
    if condition {
        assert(more.drop_last() =~= parts);
        assert(more.last() == name + value);
        assert(joined(parts, "; "@) + "; "@ + (name + value) =~= joined(parts, "; "@) + (separated
            + value));
    } else {
        assert(more =~= parts);
        assert(joined(parts, "; "@) + Seq::empty() =~= joined(parts, "; "@));
    }
    more
}

/// A cookie is taken to come from its domain: as it stands where it names `http://` or `https://`,
/// and else behind `https://`. Where that is no address, it comes from `https://example.com`.
pub proof fn law_cookie_origin(cookie: CookieView, now: i64)
    ensures
        begins_with(cookie.domain, "http://"@) ==> cookie.address() == cookie.domain,
        begins_with(cookie.domain, "https://"@) ==> cookie.address() == cookie.domain,
        !begins_with(cookie.domain, "http://"@) && !begins_with(cookie.domain, "https://"@)
            ==> cookie.address() == "https://"@ + cookie.domain,
        cookie.origin(true) == cookie.address(),
        cookie.origin(false) == "https://example.com"@,
        cookie.entry(now).set_cookie == cookie.set_cookie(now),
        is_uri(cookie.address()) ==> cookie.entry(now).uri == cookie.address(),
        !is_uri(cookie.address()) ==> cookie.entry(now).uri == "https://example.com"@,
{
}

/// A jar takes an entry where its address is one and its line is a cookie from there.
pub proof fn law_fits(entry: JarEntryView)
    ensures
        entry.fits() <==> url_parts(entry.uri) is Some && is_cookie_from(
            entry.set_cookie,
            entry.uri,
        ),
{
}

/// Cookies and entries of a jar are told field by field.
pub proof fn law_cookie_field_by_field(cookie: FlareSolverrCookie, entry: JarEntry)
    ensures
        cookie@.domain == cookie.domain@,
        cookie@.expiry == cookie.expiry,
        cookie@.http_only == cookie.httpOnly,
        cookie@.name == cookie.name@,
        cookie@.path == cookie.path@,
        cookie@.same_site == cookie.sameSite@,
        cookie@.secure == cookie.secure,
        cookie@.value == cookie.value@,
        entry@.set_cookie == entry.set_cookie@,
        entry@.uri == entry.uri@,
{
}

} // verus!
