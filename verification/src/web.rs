//! The HTTP tool's rules: which URLs and addresses may be reached, the
//! timeout, the method, which response headers are shown, how much of the
//! body is kept, and how the answer is written.
use vstd::prelude::*;

use crate::models::opt_view;
use crate::text::{chars_to_string, str_to_chars, decimal, sort_strings, sorted_lex, strs, u64_to_string};

verus! {

/// Seconds a request may take when the call gives none.
pub const DEFAULT_TIMEOUT_SECS: u64 = 30;

/// Longest timeout a call may ask for.
pub const MAX_TIMEOUT_SECS: u64 = 60;

/// Bytes of a response body that are kept (1 MB).
pub const MAX_RESPONSE_BODY: usize = 1048576;

/// The timeout used: the one asked for (30 s when none) within 1 to 60 s.
pub open spec fn timeout_of(t: Option<u64>) -> u64 {
    let v = match t {
        Some(v) => v,
        None => 30u64,
    };
    if v < 1 {
        1
    } else if v > 60 {
        60
    } else {
        v
    }
}

pub fn clamp_timeout(t: Option<u64>) -> (r: u64)
    ensures
        r == timeout_of(t),
        1 <= r <= 60,
{
    let v = match t {
        Some(v) => v,
        None => DEFAULT_TIMEOUT_SECS,
    };
    if v < 1 {
        1
    } else if v > MAX_TIMEOUT_SECS {
        MAX_TIMEOUT_SECS
    } else {
        v
    }
}

/// An IP address: four octets, or eight 16-bit segments.
#[derive(Debug, Clone, Copy, PartialEq, Eq, Structural)]
pub enum IpAddress {
    V4(u8, u8, u8, u8),
    V6(u16, u16, u16, u16, u16, u16, u16, u16),
}

/// An IPv4 address that is private (10/8, 172.16/12, 192.168/16), loopback
/// (127/8), link-local (169.254/16), unspecified, broadcast, or in 0/8.
pub open spec fn private_v4(a: u8, b: u8, c: u8, d: u8) -> bool {
    ||| a == 10
    ||| (a == 172 && 16 <= b <= 31)
    ||| (a == 192 && b == 168)
    ||| a == 127
    ||| (a == 169 && b == 254)
    ||| (a == 0 && b == 0 && c == 0 && d == 0)
    ||| (a == 255 && b == 255 && c == 255 && d == 255)
    ||| a == 0
}

/// An IPv6 address that is loopback (`::1`), unspecified (`::`), unique
/// local (fc00::/7) or link-local (fe80::/10).
pub open spec fn private_v6(s: (u16, u16, u16, u16, u16, u16, u16, u16)) -> bool {
    let zero_head = s.0 == 0 && s.1 == 0 && s.2 == 0 && s.3 == 0 && s.4 == 0 && s.5 == 0 && s.6 == 0;
    ||| (zero_head && s.7 == 1)
    ||| (zero_head && s.7 == 0)
    ||| (0xfc00 <= s.0 <= 0xfdff)
    ||| (0xfe80 <= s.0 <= 0xfebf)
}

pub open spec fn private_ip(ip: IpAddress) -> bool {
    match ip {
        IpAddress::V4(a, b, c, d) => private_v4(a, b, c, d),
        IpAddress::V6(s0, s1, s2, s3, s4, s5, s6, s7) => private_v6(
            (s0, s1, s2, s3, s4, s5, s6, s7),
        ),
    }
}

/// Whether an address is private, internal or reserved (and so blocked).
pub fn is_private_ip(ip: IpAddress) -> (r: bool)
    ensures
        r == private_ip(ip),
{
    match ip {
        IpAddress::V4(a, b, c, d) => {
            a == 10 || (a == 172 && 16 <= b && b <= 31) || (a == 192 && b == 168) || a == 127 || (a
                == 169 && b == 254) || (a == 0 && b == 0 && c == 0 && d == 0) || (a == 255 && b
                == 255 && c == 255 && d == 255) || a == 0
        },
        IpAddress::V6(s0, s1, s2, s3, s4, s5, s6, s7) => {
            let zero_head = s0 == 0 && s1 == 0 && s2 == 0 && s3 == 0 && s4 == 0 && s5 == 0 && s6
                == 0;
            (zero_head && s7 == 1) || (zero_head && s7 == 0) || (0xfc00 <= s0 && s0 <= 0xfdff) || (
            0xfe80 <= s0 && s0 <= 0xfebf)
        },
    }
}

/// Only `http` and `https` may be used.
pub fn check_scheme(scheme: &str) -> (r: Result<(), String>)
    ensures
        (scheme@ == "http"@ || scheme@ == "https"@) ==> r is Ok,
        !(scheme@ == "http"@ || scheme@ == "https"@) ==> (r matches Err(m) && m@
            == "Blocked: URL scheme '"@ + scheme@
            + "' is not allowed. Only http:// and https:// are supported."@),
{
    let s = String::from_str(scheme);
    if s == String::from_str("http") || s == String::from_str("https") {
        Ok(())
    } else {
        let mut m = String::from_str("Blocked: URL scheme '");
        m.append(scheme);
        m.append("' is not allowed. Only http:// and https:// are supported.");
        Err(m)
    }
}

/// What a URL that does not parse is answered with.
pub fn invalid_url(url: &str, err: &str) -> (r: String)
    ensures
        r@ == "Invalid URL '"@ + url@ + "': "@ + err@,
{
    let mut m = String::from_str("Invalid URL '");
    m.append(url);
    m.append("': ");
    m.append(err);
    m
}

/// What a URL without a host is answered with.
pub fn missing_host(url: &str) -> (r: String)
    ensures
        r@ == "Could not extract host from URL: "@ + url@,
{
    let mut m = String::from_str("Could not extract host from URL: ");
    m.append(url);
    m
}

/// What `reqwest::Url::parse` makes of `text`: on success the URL's scheme
/// (`scheme`), its host (`host_str`) and its serialization (`as_str`), on
/// failure the text of the parse error.
pub uninterp spec fn url_parse(text: Seq<char>) -> Result<
    (Seq<char>, Option<Seq<char>>, Seq<char>),
    Seq<char>,
>;

/// Calls `reqwest::Url::parse` (the `url` crate's parser) on `text` and reads
/// the scheme, the host and the serialization of the URL, or the error's
/// `Display` text.  Claimed: the outcome is a function of the text alone
/// (named `url_parse`).
#[verifier::external_body]
fn parse_url(text: &str) -> (r: Result<(String, Option<String>, String), String>)
    ensures
        match r {
            Ok((scheme, host, serial)) => url_parse(text@) == Ok::<
                (Seq<char>, Option<Seq<char>>, Seq<char>),
                Seq<char>,
            >((scheme@, opt_view(host), serial@)),
            Err(e) => url_parse(text@) == Err::<(Seq<char>, Option<Seq<char>>, Seq<char>), Seq<char>>(
                e@,
            ),
        },
{
    match reqwest::Url::parse(text) {
        Ok(u) => Ok((u.scheme().to_string(), u.host_str().map(|h| h.to_string()), u.as_str().to_string())),
        Err(e) => Err(e.to_string()),
    }
}

/// What a request for `url` is refused with before any address is looked
/// at, if anything: a URL that does not parse, a scheme other than `http`
/// and `https`, a URL without a host.
pub open spec fn url_check(url: Seq<char>) -> Result<(Seq<char>, Seq<char>), Seq<char>> {
    match url_parse(url) {
        Err(e) => Err("Invalid URL '"@ + url + "': "@ + e),
        Ok((scheme, host, serial)) => if !(scheme == "http"@ || scheme == "https"@) {
            Err(
                "Blocked: URL scheme '"@ + scheme
                    + "' is not allowed. Only http:// and https:// are supported."@,
            )
        } else {
            match host {
                None => Err("Could not extract host from URL: "@ + url),
                Some(h) => Ok((h, serial)),
            }
        },
    }
}

/// Parses the URL a request is for and checks its scheme and host: on
/// success the host and the URL as the parser writes it back, else the
/// answer the request gets.
pub fn check_url(url: &str) -> (r: Result<(String, String), String>)
    ensures
        match (r, url_check(url@)) {
            (Ok((host, serial)), Ok((h, s))) => host@ == h && serial@ == s,
            (Err(m), Err(e)) => m@ == e,
            _ => false,
        },
{
    match parse_url(url) {
        Err(e) => Err(invalid_url(url, e.as_str())),
        Ok((scheme, host, serial)) => match check_scheme(scheme.as_str()) {
            Err(m) => Err(m),
            Ok(()) => match host {
                None => Err(missing_host(url)),
                Some(h) => Ok((h, serial)),
            },
        },
    }
}

/// Redirects followed at most.
pub const MAX_REDIRECTS: usize = 5;

/// What `reqwest::Url::join` makes of the redirect location `location` read
/// against the URL written `base`: the joined URL's serialization, or the text
/// of the parse error.
pub uninterp spec fn url_join(base: Seq<char>, location: Seq<char>) -> Result<Seq<char>, Seq<char>>;

/// Parses `base` with `reqwest::Url::parse` and joins `location` to it with
/// `Url::join`, giving the result's `as_str` or the error's `Display` text.
/// Claimed: the outcome is a function of the two texts alone (named
/// `url_join`).
#[verifier::external_body]
fn join_url(base: &str, location: &str) -> (r: Result<String, String>)
    ensures
        match r {
            Ok(t) => url_join(base@, location@) == Ok::<Seq<char>, Seq<char>>(t@),
            Err(e) => url_join(base@, location@) == Err::<Seq<char>, Seq<char>>(e@),
        },
{
    match reqwest::Url::parse(base).and_then(|b| b.join(location)) {
        Ok(u) => Ok(u.as_str().to_string()),
        Err(e) => Err(e.to_string()),
    }
}

/// Where the `hops`-th redirect (counted from 0), from the URL `base` to the
/// location `location`, may lead: refused past five redirects, or when the
/// location does not make a URL; otherwise the checks of a first URL
/// (`url_check`), which give the host to look up and the URL to request.
pub open spec fn redirect_check(hops: usize, base: Seq<char>, location: Seq<char>) -> Result<
    (Seq<char>, Seq<char>),
    Seq<char>,
> {
    if hops >= MAX_REDIRECTS {
        Err("HTTP request failed: too many redirects"@)
    } else {
        match url_join(base, location) {
            Err(e) => Err("Invalid redirect location '"@ + location + "': "@ + e),
            Ok(t) => url_check(t),
        }
    }
}

/// The target of a redirect, checked as a first URL is: the host to look up
/// (which must then pass the address checks) and the URL to request next,
/// else the answer the request gets.
pub fn redirect_target(hops: usize, base: &str, location: &str) -> (r: Result<(String, String), String>)
    ensures
        match (r, redirect_check(hops, base@, location@)) {
            (Ok((host, next)), Ok((h, n))) => host@ == h && next@ == n,
            (Err(m), Err(e)) => m@ == e,
            _ => false,
        },
{
    if hops >= MAX_REDIRECTS {
        return Err(String::from_str("HTTP request failed: too many redirects"));
    }
    match join_url(base, location) {
        Err(e) => {
            let mut m = String::from_str("Invalid redirect location '");
            m.append(location);
            m.append("': ");
            m.append(e.as_str());
            Err(m)
        },
        Ok(t) => check_url(t.as_str()),
    }
}

/// What a response status asks of the request that follows it.
pub enum RedirectStep {
    /// The response is the answer.
    Answer,
    /// Follow the redirect with `method`, sending the body again only when
    /// `keep_body`.
    Follow { method: Method, keep_body: bool },
}

/// The step after a response of status `status` to a request sent with
/// `method`: 301 and 302 turn a POST into a bodiless GET, 303 turns any
/// method into a bodiless GET, 307 and 308 repeat the request as it was,
/// and any other status is the answer.
pub open spec fn redirect_step_of(status: u16, method: Method) -> RedirectStep {
    if status == 301 || status == 302 {
        if method == Method::Post {
            RedirectStep::Follow { method: Method::Get, keep_body: false }
        } else {
            RedirectStep::Follow { method, keep_body: true }
        }
    } else if status == 303 {
        RedirectStep::Follow { method: Method::Get, keep_body: false }
    } else if status == 307 || status == 308 {
        RedirectStep::Follow { method, keep_body: true }
    } else {
        RedirectStep::Answer
    }
}

/// The step after a response (see [`redirect_step_of`]).
pub fn redirect_step(status: u16, method: Method) -> (r: RedirectStep)
    ensures
        r == redirect_step_of(status, method),
{
    if status == 301 || status == 302 {
        if method == Method::Post {
            RedirectStep::Follow { method: Method::Get, keep_body: false }
        } else {
            RedirectStep::Follow { method, keep_body: true }
        }
    } else if status == 303 {
        RedirectStep::Follow { method: Method::Get, keep_body: false }
    } else if status == 307 || status == 308 {
        RedirectStep::Follow { method, keep_body: true }
    } else {
        RedirectStep::Answer
    }
}

/// A header that is not sent on to another host: credentials and cookies
/// (names compared in ASCII lower case).
pub open spec fn credential_header(name: Seq<char>) -> bool {
    let n = ascii_lower(name);
    n == "authorization"@ || n == "cookie"@ || n == "cookie2"@ || n == "proxy-authorization"@
        || n == "www-authenticate"@
}

/// A character in ASCII lower case.
pub open spec fn lower_char(c: char) -> char {
    if 'A' <= c && c <= 'Z' {
        ((c as int) + 32) as char
    } else {
        c
    }
}

/// A text in ASCII lower case.
pub open spec fn ascii_lower(s: Seq<char>) -> Seq<char> {
    Seq::new(s.len(), |i: int| lower_char(s[i]))
}

fn lower_text(s: &str) -> (r: String)
    ensures
        r@ == ascii_lower(s@),
{
    let v = str_to_chars(s);
    let mut out: Vec<char> = Vec::new();
    let mut i: usize = 0;
    while i < v.len()
        invariant
            i <= v@.len(),
            v@ == s@,
            out@ == ascii_lower(s@).take(i as int),
        decreases v.len() - i,
    {
        let c = v[i];
        let l = if 'A' <= c && c <= 'Z' {
            char_add_32(c)
        } else {
            c
        };
        out.push(l);
        assert(ascii_lower(s@).take(i + 1) =~= ascii_lower(s@).take(i as int).push(l));
        i = i + 1;
    }
    assert(ascii_lower(s@).take(v@.len() as int) =~= ascii_lower(s@));
    chars_to_string(&out)
}

/// The upper-case ASCII letter `c` in lower case.
fn char_add_32(c: char) -> (r: char)
    requires
        'A' <= c && c <= 'Z',
    ensures
        r == lower_char(c),
{
    let u: u8 = c as u8;
    assert(u as int == c as int);
    let l: u8 = u + 32;
    l as char
}

/// The headers sent with a redirected request: all of them to the same host,
/// all but credentials and cookies to another host.
pub open spec fn forwarded_of(hs: Seq<(Seq<char>, Seq<char>)>, cross_host: bool) -> Seq<
    (Seq<char>, Seq<char>),
> {
    if cross_host {
        hs.filter(|h: (Seq<char>, Seq<char>)| !credential_header(h.0))
    } else {
        hs
    }
}

/// The headers a redirected request carries (see [`forwarded_of`]).
pub fn forwarded_headers(headers: &Vec<(String, String)>, cross_host: bool) -> (r: Vec<(String, String)>)
    ensures
        pairs_view(r@) == forwarded_of(pairs_view(headers@), cross_host),
{
    let ghost hs = pairs_view(headers@);
    let mut out: Vec<(String, String)> = Vec::new();
    let mut i: usize = 0;
    while i < headers.len()
        invariant
            i <= headers@.len(),
            hs == pairs_view(headers@),
            pairs_view(out@) == forwarded_of(hs.take(i as int), cross_host),
        decreases headers.len() - i,
    {
        let (name, value) = &headers[i];
        let ghost before = pairs_view(out@);
        proof {
            assert(hs.take(i + 1).drop_last() =~= hs.take(i as int));
            assert(hs.take(i + 1).last() == hs[i as int]);
        }
        let drop = cross_host && is_credential(name.as_str());
        if !drop {
            out.push((name.clone(), value.clone()));
            assert(pairs_view(out@) =~= before.push(hs[i as int]));
        }
        proof {
            assert(hs.take(i + 1) =~= hs.take(i as int).push(hs[i as int]));
            hs.take(i as int).lemma_filter_push(
                hs[i as int],
                |h: (Seq<char>, Seq<char>)| !credential_header(h.0),
            );
        }
        i = i + 1;
    }
    assert(hs.take(headers@.len() as int) =~= hs);
    out
}

fn is_credential(name: &str) -> (r: bool)
    ensures
        r == credential_header(name@),
{
    let n = lower_text(name);
    n == String::from_str("authorization") || n == String::from_str("cookie") || n
        == String::from_str("cookie2") || n == String::from_str("proxy-authorization") || n
        == String::from_str("www-authenticate")
}

/// Header pairs by their texts.
pub open spec fn pairs_view(v: Seq<(String, String)>) -> Seq<(Seq<char>, Seq<char>)> {
    Seq::new(v.len(), |i: int| (v[i].0@, v[i].1@))
}

/// A host written as an IP address may be reached unless that address is
/// private.
pub fn check_literal_host(host: &str, ip: IpAddress) -> (r: Result<(), String>)
    ensures
        !private_ip(ip) ==> r is Ok,
        private_ip(ip) ==> (r matches Err(m) && m@ == "Blocked: "@ + host@
            + " is a private/internal IP address. Only public URLs are allowed."@),
{
    if is_private_ip(ip) {
        let mut m = String::from_str("Blocked: ");
        m.append(host);
        m.append(" is a private/internal IP address. Only public URLs are allowed.");
        Err(m)
    } else {
        Ok(())
    }
}

/// The refusal for a host that resolves to the private address written `ip`.
pub open spec fn resolved_refusal(host: Seq<char>, ip: Seq<char>) -> Seq<char> {
    "Blocked: host '"@ + host + "' resolves to private/internal IP "@ + ip
        + ". Only public URLs are allowed."@
}

/// The refusal for the first private address among `addrs`, if any.
pub open spec fn first_refusal(host: Seq<char>, addrs: Seq<(IpAddress, Seq<char>)>) -> Option<
    Seq<char>,
>
    decreases addrs.len(),
{
    if addrs.len() == 0 {
        None
    } else if private_ip(addrs[0].0) {
        Some(resolved_refusal(host, addrs[0].1))
    } else {
        first_refusal(host, addrs.drop_first())
    }
}

pub open spec fn addrs_view(a: Seq<(IpAddress, String)>) -> Seq<(IpAddress, Seq<char>)> {
    Seq::new(a.len(), |i: int| (a[i].0, a[i].1@))
}

/// A named host may be reached when it resolves and no address it resolves
/// to is private; the first private address (by its text) is reported.
pub fn check_resolved_host(host: &str, resolved: Result<Vec<(IpAddress, String)>, String>) -> (r:
    Result<(), String>)
    ensures
        match resolved {
            Err(e) => r matches Err(m) && m@ == "Failed to resolve host '"@ + host@ + "': "@ + e@,
            Ok(addrs) => match first_refusal(host@, addrs_view(addrs@)) {
                None => r is Ok,
                Some(t) => r matches Err(m) && m@ == t,
            },
        },
{
    match resolved {
        Err(e) => {
            let mut m = String::from_str("Failed to resolve host '");
            m.append(host);
            m.append("': ");
            m.append(e.as_str());
            Err(m)
        },
        Ok(addrs) => {
            let ghost all = addrs_view(addrs@);
            let mut i: usize = 0;
            assert(all.skip(0) =~= all);
            while i < addrs.len()
                invariant
                    i <= addrs@.len(),
                    all == addrs_view(addrs@),
                    resolved matches Ok(a) && a@ == addrs@,
                    first_refusal(host@, all) == first_refusal(host@, all.skip(i as int)),
                decreases addrs.len() - i,
            {
                assert(all.skip(i as int)[0] == all[i as int]);
                assert(all.skip(i as int).drop_first() =~= all.skip(i + 1));
                if is_private_ip(addrs[i].0) {
                    let mut m = String::from_str("Blocked: host '");
                    m.append(host);
                    m.append("' resolves to private/internal IP ");
                    m.append(addrs[i].1.as_str());
                    m.append(". Only public URLs are allowed.");
                    return Err(m);
                }
                i = i + 1;
            }
            assert(all.skip(i as int).len() == 0);
            Ok(())
        },
    }
}

/// The HTTP methods the tool sends.
#[derive(Debug, Clone, Copy, PartialEq, Eq, Structural)]
pub enum Method {
    Get,
    Post,
    Put,
    Delete,
}

/// What `str::to_uppercase` gives for `s`.
pub uninterp spec fn uppercase(s: Seq<char>) -> Seq<char>;

/// `str::to_uppercase`.  Claimed: the result depends on the text alone.
#[verifier::external_body]
fn to_upper(s: &str) -> (r: String)
    ensures
        r@ == uppercase(s@),
{
    s.to_uppercase()
}

/// The method a name asks for, upper-cased: `POST`, `PUT` and `DELETE`, and
/// `GET` for anything else.
pub open spec fn method_of(upper: Seq<char>) -> Method {
    if upper == "POST"@ {
        Method::Post
    } else if upper == "PUT"@ {
        Method::Put
    } else if upper == "DELETE"@ {
        Method::Delete
    } else {
        Method::Get
    }
}

/// The method a call asks for.
pub fn parse_method(method: &str) -> (r: Method)
    ensures
        r == method_of(uppercase(method@)),
{
    let u = to_upper(method);
    if u == String::from_str("POST") {
        Method::Post
    } else if u == String::from_str("PUT") {
        Method::Put
    } else if u == String::from_str("DELETE") {
        Method::Delete
    } else {
        Method::Get
    }
}

pub open spec fn method_name(m: Method) -> Seq<char> {
    match m {
        Method::Get => "GET"@,
        Method::Post => "POST"@,
        Method::Put => "PUT"@,
        Method::Delete => "DELETE"@,
    }
}

impl Method {
    /// The method as it is written on the wire.
    pub fn as_str(&self) -> (r: &'static str)
        ensures
            r@ == method_name(*self),
    {
        match self {
            Method::Get => "GET",
            Method::Post => "POST",
            Method::Put => "PUT",
            Method::Delete => "DELETE",
        }
    }
}

/// Response headers that are never shown to the model.
pub open spec fn sensitive(name: Seq<char>) -> bool {
    name == "authorization"@ || name == "cookie"@ || name == "set-cookie"@ || name == "x-api-key"@
        || name == "proxy-authorization"@
}

fn is_sensitive(name: &str) -> (r: bool)
    ensures
        r == sensitive(name@),
{
    let n = String::from_str(name);
    n == String::from_str("authorization") || n == String::from_str("cookie") || n
        == String::from_str("set-cookie") || n == String::from_str("x-api-key") || n
        == String::from_str("proxy-authorization")
}

/// The header lines shown: `name: value` for each header whose (lower-case)
/// name is not sensitive, in the order given.
pub open spec fn shown_headers(hs: Seq<(Seq<char>, Seq<char>)>) -> Seq<Seq<char>>
    decreases hs.len(),
{
    if hs.len() == 0 {
        Seq::empty()
    } else {
        let rest = shown_headers(hs.drop_last());
        let (n, v) = hs.last();
        if sensitive(n) {
            rest
        } else {
            rest.push(n + ": "@ + v)
        }
    }
}

/// A header value as shown: its text, or `<binary>` for a value that is not
/// visible ASCII text (`None`).
pub open spec fn shown_value(v: Option<Seq<char>>) -> Seq<char> {
    match v {
        Some(t) => t,
        None => "<binary>"@,
    }
}

/// The headers of a response by name and shown value.
pub open spec fn headers_view(hs: Seq<(String, Option<String>)>) -> Seq<(Seq<char>, Seq<char>)> {
    Seq::new(hs.len(), |i: int| (hs[i].0@, shown_value(opt_view(hs[i].1))))
}

/// The shown header lines of a response's headers (names in lower case; a
/// value that is not text is `None`), sorted.
pub fn header_lines(headers: &Vec<(String, Option<String>)>) -> (r: Vec<String>)
    ensures
        strs(r@).to_multiset() == shown_headers(headers_view(headers@)).to_multiset(),
        sorted_lex(strs(r@)),
{
    let ghost hs = headers_view(headers@);
    let mut out: Vec<String> = Vec::new();
    let mut i: usize = 0;
    while i < headers.len()
        invariant
            i <= headers@.len(),
            hs == headers_view(headers@),
            out@.len() == shown_headers(hs.take(i as int)).len(),
            forall|k: int| 0 <= k < out@.len() ==> (#[trigger] out@[k])@ == shown_headers(hs.take(i as int))[k],
        decreases headers.len() - i,
    {
        assert(hs.take(i + 1).drop_last() =~= hs.take(i as int));
        assert(hs.take(i + 1).last() == hs[i as int]);
        let (name, value) = &headers[i];
        if !is_sensitive(name.as_str()) {
            let mut line = name.clone();
            line.append(": ");
            match value {
                Some(v) => line.append(v.as_str()),
                None => line.append("<binary>"),
            }
            out.push(line);
        }
        i = i + 1;
    }
    assert(hs.take(headers@.len() as int) =~= hs);
    assert(strs(out@) =~= shown_headers(hs));
    sort_strings(&out)
}

/// How much of a body of `len` bytes is kept, and whether it was cut.
pub fn body_cut(len: usize) -> (r: (usize, bool))
    ensures
        r.1 == (len > MAX_RESPONSE_BODY),
        r.0 == if r.1 {
            MAX_RESPONSE_BODY
        } else {
            len
        },
{
    if len > MAX_RESPONSE_BODY {
        (MAX_RESPONSE_BODY, true)
    } else {
        (len, false)
    }
}

/// The answer: the request line, the status, the shown headers (indented,
/// one per line) and the body with its size.
pub open spec fn answer(
    method: Method,
    url: Seq<char>,
    status: u16,
    status_text: Seq<char>,
    headers: Seq<Seq<char>>,
    body_len: usize,
    truncated: bool,
    body: Seq<char>,
) -> Seq<char> {
    method_name(method) + " "@ + url + "\n\nStatus: "@ + decimal(status as nat) + " "@ + status_text
        + "\n\nHeaders:\n"@ + indented(headers) + "\nBody ("@ + decimal(body_len as nat) + " bytes"@
        + (if truncated {
        ", truncated to 1 MB"@
    } else {
        ""@
    }) + (if body.len() == 0 {
        " (empty)"@
    } else {
        ""@
    }) + "):\n\n"@ + body
}

/// Each line indented by two spaces and ended by a newline.
pub open spec fn indented(ls: Seq<Seq<char>>) -> Seq<char>
    decreases ls.len(),
{
    if ls.len() == 0 {
        Seq::empty()
    } else {
        indented(ls.drop_last()) + "  "@ + ls.last() + "\n"@
    }
}

/// Writes the answer of a completed request.
pub fn format_answer(
    method: Method,
    url: &str,
    status: u16,
    status_text: &str,
    headers: &Vec<String>,
    body_len: usize,
    truncated: bool,
    body: &str,
) -> (r: String)
    ensures
        r@ == answer(
            method,
            url@,
            status,
            status_text@,
            Seq::new(headers@.len(), |i: int| headers@[i]@),
            body_len,
            truncated,
            body@,
        ),
{
    let ghost hs = Seq::new(headers@.len(), |i: int| headers@[i]@);
    let mut out = String::from_str(method.as_str());
    out.append(" ");
    out.append(url);
    out.append("\n\nStatus: ");
    out.append(u64_to_string(status as u64).as_str());
    out.append(" ");
    out.append(status_text);
    out.append("\n\nHeaders:\n");
    let ghost head = out@;
    let mut i: usize = 0;
    while i < headers.len()
        invariant
            i <= headers@.len(),
            hs == Seq::new(headers@.len(), |i: int| headers@[i]@),
            out@ == head + indented(hs.take(i as int)),
        decreases headers.len() - i,
    {
        assert(hs.take(i + 1).drop_last() =~= hs.take(i as int));
        out.append("  ");
        out.append(headers[i].as_str());
        out.append("\n");
        assert(out@ =~= head + indented(hs.take(i + 1)));
        i = i + 1;
    }
    assert(hs.take(headers@.len() as int) =~= hs);
    out.append("\nBody (");
    out.append(u64_to_string(body_len as u64).as_str());
    out.append(" bytes");
    if truncated {
        out.append(", truncated to 1 MB");
    } else {
        out.append("");
    }
    if body.is_empty() {
        out.append(" (empty)");
    } else {
        out.append("");
    }
    out.append("):\n\n");
    out.append(body);
    out
}

/// What a request that failed is answered with.
pub fn request_failed(err: &str) -> (r: String)
    ensures
        r@ == "HTTP request failed: "@ + err@,
{
    let mut m = String::from_str("HTTP request failed: ");
    m.append(err);
    m
}

/// What a request that timed out is answered with.
pub fn timed_out(secs: u64) -> (r: String)
    ensures
        r@ == "Request timed out after "@ + decimal(secs as nat) + " seconds."@,
{
    let mut m = String::from_str("Request timed out after ");
    m.append(u64_to_string(secs).as_str());
    m.append(" seconds.");
    m
}

/// What a request is answered with when its client cannot be built.
pub fn client_failed(err: &str) -> (r: String)
    ensures
        r@ == "Failed to build HTTP client: "@ + err@,
{
    let mut m = String::from_str("Failed to build HTTP client: ");
    m.append(err);
    m
}

/// What a request is answered with when its body cannot be read.
pub fn body_read_failed(err: &str) -> (r: String)
    ensures
        r@ == "Failed to read response body: "@ + err@,
{
    let mut m = String::from_str("Failed to read response body: ");
    m.append(err);
    m
}

/// What a request is answered with when reading its body times out.
pub fn body_timed_out() -> (r: String)
    ensures
        r@ == "Timed out while reading response body."@,
{
    String::from_str("Timed out while reading response body.")
}

/// No header with a sensitive name is ever shown: each shown line is
/// `name: value` of a header whose name is not sensitive.
pub proof fn law_sensitive_headers_hidden(hs: Seq<(Seq<char>, Seq<char>)>)
    ensures
        forall|i: int|
            0 <= i < shown_headers(hs).len() ==> exists|k: int|
                0 <= k < hs.len() && !sensitive(hs[k].0) && #[trigger] shown_headers(hs)[i] == hs[k].0
                    + ": "@ + hs[k].1,
    decreases hs.len(),
{
    if hs.len() > 0 {
        let rest = hs.drop_last();
        law_sensitive_headers_hidden(rest);
        assert forall|i: int| 0 <= i < shown_headers(hs).len() implies exists|k: int|
            0 <= k < hs.len() && !sensitive(hs[k].0) && #[trigger] shown_headers(hs)[i] == hs[k].0
                + ": "@ + hs[k].1 by {
            if i < shown_headers(rest).len() {
                let k = choose|k: int|
                    0 <= k < rest.len() && !sensitive(rest[k].0) && shown_headers(rest)[i]
                        == rest[k].0 + ": "@ + rest[k].1;
                assert(hs[k] == rest[k]);
            } else {
                assert(hs[hs.len() - 1] == hs.last());
            }
        }
    }
}

} // verus!
