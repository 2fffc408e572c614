//! The decisions of the brokers' browser login: the CSRF `state` sent with
//! the login link, reading the loopback callback's request line, checking the
//! returned `state`, and the Kite token-exchange checksum. Listening on the
//! port, opening the browser and the HTTP calls are the application's.

use vstd::prelude::*;
use vstd::string::*;
use vstd::utf8::encode_utf8;
use crate::codec::{hex_encode, hex_encode_spec};
use crate::crypto::{random_bytes, sha256, sha256_spec};
use crate::error::AppError;
use crate::text::{find_char_from, index_of, str_eq};

verus! {

// ── The callback's request line ────────────────────────────────────────

/// The first line of a text as `str::lines` yields it: up to the first
/// `\n`, without a `\r` just before it; `None` for the empty text.
pub open spec fn first_line_spec(s: Seq<char>) -> Option<Seq<char>> {
    if s.len() == 0 {
        None
    } else {
        let k = index_of(s, '\n');
        if k < s.len() {
            let l = s.take(k);
            if l.len() > 0 && l.last() == '\r' {
                Some(l.drop_last())
            } else {
                Some(l)
            }
        } else {
            Some(s)
        }
    }
}

/// Index of the last `c` in `s`, or -1.
pub open spec fn last_index_of(s: Seq<char>, c: char) -> int
    decreases s.len(),
{
    if s.len() == 0 {
        -1
    } else if s.last() == c {
        s.len() - 1
    } else {
        last_index_of(s.drop_last(), c)
    }
}

/// The value after `prefix` of the first `&`-separated parameter of `query`
/// that starts with it.
pub open spec fn param_value(query: Seq<char>, prefix: Seq<char>) -> Option<Seq<char>>
    decreases query.len(),
{
    let e = index_of(query, '&');
    let seg = query.take(e);
    if prefix.is_prefix_of(seg) {
        Some(seg.skip(prefix.len() as int))
    } else if e >= query.len() {
        None
    } else {
        proof {
            lemma_index_of_bounds(query, '&');
        }
        param_value(query.skip(e + 1), prefix)
    }
}

/// The value of the query parameter `name` in the request line of a raw
/// HTTP request (`GET /?code=xxx&state=yyy HTTP/1.1`): the query runs from
/// the first `?` to the last space of the first line.
pub open spec fn query_param_spec(request: Seq<char>, name: Seq<char>) -> Option<Seq<char>> {
    match first_line_spec(request) {
        None => None,
        Some(l) => {
            let qs = index_of(l, '?');
            let pe = last_index_of(l, ' ');
            if qs >= l.len() || pe < 0 || pe <= qs {
                None
            } else {
                param_value(l.subrange(qs + 1, pe), name + "="@)
            }
        },
    }
}

pub proof fn lemma_index_of_bounds(s: Seq<char>, c: char)
    ensures
        0 <= index_of(s, c) <= s.len(),
        index_of(s, c) < s.len() ==> s[index_of(s, c)] == c,
        forall|k: int| 0 <= k < index_of(s, c) ==> s[k] != c,
    decreases s.len(),
{
    if s.len() > 0 && s[0] != c {
        lemma_index_of_bounds(s.drop_first(), c);
        assert forall|k: int| 0 <= k < index_of(s, c) implies s[k] != c by {
            if k > 0 {
                assert(s[k] == s.drop_first()[k - 1]);
            }
        }
    }
}

proof fn lemma_last_index_of(s: Seq<char>, c: char, j: int)
    requires
        -1 <= j < s.len(),
        forall|k: int| j < k < s.len() ==> s[k] != c,
        j == -1 || s[j] == c,
    ensures
        last_index_of(s, c) == j,
    decreases s.len(),
{
    if s.len() > 0 && j < s.len() - 1 {
        assert forall|k: int| j < k < s.drop_last().len() implies s.drop_last()[k] != c by {
            assert(s.drop_last()[k] == s[k]);
        }
        lemma_last_index_of(s.drop_last(), c, j);
    }
}

fn first_line(s: &str) -> (r: Option<&str>)
    ensures
        match r {
            Some(l) => first_line_spec(s@) == Some(l@),
            None => first_line_spec(s@) is None,
        },
{
    let n = s.unicode_len();
    if n == 0 {
        return None;
    }
    let k = find_char_from(s, '\n', 0);
    assert(s@.subrange(0, n as int) =~= s@);
    if k < n {
        let l = s.substring_char(0, k);
        assert(l@ =~= s@.take(k as int));
        if k > 0 && l.get_char(k - 1) == '\r' {
            let t = l.substring_char(0, k - 1);
            assert(t@ =~= l@.drop_last());
            Some(t)
        } else {
            Some(l)
        }
    } else {
        Some(s)
    }
}

fn rfind_char(s: &str, c: char) -> (r: Option<usize>)
    ensures
        match r {
            Some(j) => last_index_of(s@, c) == j as int && j < s@.len(),
            None => last_index_of(s@, c) == -1,
        },
{
    let n = s.unicode_len();
    let mut j: usize = n;
    while j > 0
        invariant
            n == s@.len(),
            j <= n,
            forall|k: int| j <= k < n ==> s@[k] != c,
        decreases j,
    {
        if s.get_char(j - 1) == c {
            proof {
                lemma_last_index_of(s@, c, j - 1);
            }
            return Some(j - 1);
        }
        j = j - 1;
    }
    proof {
        lemma_last_index_of(s@, c, -1);
    }
    None
}

fn starts_with(s: &str, p: &str) -> (r: bool)
    ensures
        r == p@.is_prefix_of(s@),
{
    let n = p.unicode_len();
    if n > s.unicode_len() {
        return false;
    }
    let mut i: usize = 0;
    while i < n
        invariant
            n == p@.len(),
            n <= s@.len(),
            i <= n,
            forall|k: int| 0 <= k < i ==> p@[k] == s@[k],
        decreases n - i,
    {
        if p.get_char(i) != s.get_char(i) {
            return false;
        }
        i = i + 1;
    }
    assert(p@ =~= s@.subrange(0, n as int));
    true
}

fn param_value_exec(query: &str, prefix: &str) -> (r: Option<String>)
    ensures
        match r {
            Some(v) => param_value(query@, prefix@) == Some(v@),
            None => param_value(query@, prefix@) is None,
        },
{
    let n = query.unicode_len();
    let mut start: usize = 0;
    assert(query@.skip(0) =~= query@);
    while start <= n
        invariant
            n == query@.len(),
            start <= n,
            param_value(query@, prefix@) == param_value(query@.skip(start as int), prefix@),
        decreases n - start,
    {
        let e = find_char_from(query, '&', start);
        let ghost rest = query@.skip(start as int);
        assert(query@.subrange(start as int, n as int) =~= rest);
        let seg = query.substring_char(start, e);
        assert(seg@ =~= rest.take(e - start));
        if starts_with(seg, prefix) {
            let v = seg.substring_char(prefix.unicode_len(), seg.unicode_len());
            assert(v@ =~= seg@.skip(prefix@.len() as int));
            return Some(String::from_str(v));
        }
        if e == n {
            return None;
        }
        assert(rest.skip(e - start + 1) =~= query@.skip(e + 1));
        start = e + 1;
    }
    None
}

/// The value of query parameter `name` in the request line of a raw HTTP
/// request (see `query_param_spec`).
pub fn extract_query_param(http_request: &str, name: &str) -> (r: Option<String>)
    ensures
        match r {
            Some(v) => query_param_spec(http_request@, name@) == Some(v@),
            None => query_param_spec(http_request@, name@) is None,
        },
{
    let line = match first_line(http_request) {
        Some(l) => l,
        None => {
            return None;
        },
    };
    let n = line.unicode_len();
    let qs = find_char_from(line, '?', 0);
    assert(line@.subrange(0, n as int) =~= line@);
    if qs >= n {
        return None;
    }
    let pe = match rfind_char(line, ' ') {
        Some(j) => j,
        None => {
            return None;
        },
    };
    if pe <= qs {
        return None;
    }
    let query = line.substring_char(qs + 1, pe);
    let mut prefix = String::from_str(name);
    prefix.append("=");
    param_value_exec(query, prefix.as_str())
}

// ── The CSRF state ─────────────────────────────────────────────────────

/// A fresh CSRF `state`: 16 random bytes as 32 lowercase hex digits.
pub fn random_state() -> (s: String)
    ensures
        exists|b: Seq<u8>| b.len() == 16 && s@ == hex_encode_spec(b),
{
    let b = random_bytes(16);
    let s = hex_encode(b.as_slice());
    assert(b@.len() == 16 && s@ == hex_encode_spec(b@));
    s
}

/// The message of a callback whose `state` is not the one sent.
pub open spec fn state_mismatch_message() -> Seq<char> {
    "Login rejected: OAuth state mismatch (possible CSRF). Please try again."@
}

/// Reads the login callback: when its `state` parameter is exactly the one
/// sent, the value of parameter `param` (the code or token to exchange);
/// otherwise a rejection. A callback without `param` is an error with
/// message `missing`.
pub fn check_callback(request: &str, sent_state: &str, param: &str, missing: &str) -> (r: Result<String, AppError>)
    ensures
        query_param_spec(request@, "state"@) != Some(sent_state@) ==> (r matches Err(AppError::ExternalApi(m))
            && m@ == state_mismatch_message()),
        query_param_spec(request@, "state"@) == Some(sent_state@) ==> match query_param_spec(request@, param@) {
            Some(v) => r matches Ok(t) && t@ == v,
            None => r matches Err(AppError::ExternalApi(m)) && m@ == missing@,
        },
{
    let returned = extract_query_param(request, "state");
    let matches = match &returned {
        Some(s) => str_eq(s.as_str(), sent_state),
        None => false,
    };
    if !matches {
        return Err(
            AppError::ExternalApi(
                String::from_str("Login rejected: OAuth state mismatch (possible CSRF). Please try again."),
            ),
        );
    }
    match extract_query_param(request, param) {
        Some(v) => Ok(v),
        None => Err(AppError::ExternalApi(String::from_str(missing))),
    }
}

// ── Kite token exchange ────────────────────────────────────────────────

/// The Kite checksum: SHA-256 of the UTF-8 of api key, request token and api
/// secret run together, as lowercase hex.
pub open spec fn kite_checksum_spec(api_key: Seq<char>, request_token: Seq<char>, api_secret: Seq<char>) -> Seq<
    char,
> {
    hex_encode_spec(sha256_spec(encode_utf8(api_key + request_token + api_secret)))
}

/// The checksum Kite asks for with the request token.
pub fn compute_checksum(api_key: &str, request_token: &str, api_secret: &str) -> (c: String)
    ensures
        c@ == kite_checksum_spec(api_key@, request_token@, api_secret@),
{
    let mut input = String::from_str(api_key);
    input.append(request_token);
    input.append(api_secret);
    let digest = sha256(input.as_str().as_bytes());
    hex_encode(digest.as_slice())
}

// ── Login addresses and the browser's answer ───────────────────────────

/// Loopback port Kite redirects to after login.
pub const KITE_CALLBACK_PORT: u16 = 7459;

/// Loopback port Upstox redirects to after login.
pub const UPSTOX_CALLBACK_PORT: u16 = 7460;

/// The Kite login address, carrying the `state` back through
/// `redirect_params`.
pub fn kite_login_url(api_key: &str, state: &str) -> (r: String)
    ensures
        r@ == "https://kite.zerodha.com/connect/login?api_key="@ + api_key@ + "&v=3&redirect_params=state="@ + state@,
{
    let mut u = String::from_str("https://kite.zerodha.com/connect/login?api_key=");
    u.append(api_key);
    u.append("&v=3&redirect_params=state=");
    u.append(state);
    u
}

/// The Upstox authorization address, redirecting to the loopback port with
/// an authorization code and the `state`.
pub fn upstox_login_url(api_key: &str, state: &str) -> (r: String)
    ensures
        r@ == "https://api.upstox.com/v2/login/authorization/dialog?client_id="@ + api_key@
            + "&redirect_uri=http://127.0.0.1:7460&response_type=code&state="@ + state@,
{
    let mut u = String::from_str("https://api.upstox.com/v2/login/authorization/dialog?client_id=");
    u.append(api_key);
    u.append("&redirect_uri=http://127.0.0.1:7460&response_type=code&state=");
    u.append(state);
    u
}

/// The `Authorization` header of a Kite API call.
pub fn kite_auth_header(api_key: &str, access_token: &str) -> (r: String)
    ensures
        r@ == "token "@ + api_key@ + ":"@ + access_token@,
{
    let mut h = String::from_str("token ");
    h.append(api_key);
    h.append(":");
    h.append(access_token);
    h
}

/// The HTTP response sent to the browser once the login callback arrives,
/// before it is checked, so that the tab does not hang.
pub open spec fn login_page_spec(app_name: Seq<char>) -> Seq<char> {
    "HTTP/1.1 200 OK\r\nContent-Type: text/html; charset=utf-8\r\nConnection: close\r\n\r\n<!DOCTYPE html><html><head><title>"@
        + app_name
        + " \u{2014} Login successful</title><style>body{font-family:system-ui,sans-serif;text-align:center;padding:3rem;background:#0f172a;color:#e2e8f0}h2{color:#10b981}p{color:#94a3b8}</style></head><body><h2>&#10003; Login successful!</h2><p>You can close this tab and return to "@
        + app_name + ".</p></body></html>"@
}

/// The HTTP response sent to the browser after a login (see
/// `login_page_spec`), naming the app.
pub fn login_page(app_name: &str) -> (r: String)
    ensures
        r@ == login_page_spec(app_name@),
{
    let mut p = String::from_str(
        "HTTP/1.1 200 OK\r\nContent-Type: text/html; charset=utf-8\r\nConnection: close\r\n\r\n<!DOCTYPE html><html><head><title>",
    );
    p.append(app_name);
    p.append(
        " \u{2014} Login successful</title><style>body{font-family:system-ui,sans-serif;text-align:center;padding:3rem;background:#0f172a;color:#e2e8f0}h2{color:#10b981}p{color:#94a3b8}</style></head><body><h2>&#10003; Login successful!</h2><p>You can close this tab and return to ",
    );
    p.append(app_name);
    p.append(".</p></body></html>");
    p
}

} // verus!
