//! What the portfolio service is asked (the headers sent with every request,
//! the endpoints, the portfolio query) and how its answers are checked.

use vstd::prelude::*;
use vstd::string::*;
use crate::text::push_char;

verus! {

/// The headers sent with every request, as (name, value) pairs.
pub open spec fn default_headers() -> Seq<(Seq<char>, Seq<char>)> {
    seq![
        ("Content-Type"@, "application/json"@),
        ("Accept"@, "application/json, text/plain, */*"@),
        ("Referer"@, "https://meroshare.cdsc.com.np/"@),
        ("User-Agent"@, "Mozilla/5.0 (X11; Linux x86_64) Chrome/144.0.0.0 Safari/537.36"@),
    ]
}

pub open spec fn pair_views(v: Seq<(String, String)>) -> Seq<(Seq<char>, Seq<char>)> {
    v.map_values(|p: (String, String)| (p.0@, p.1@))
}

/// The headers sent with every request.
pub fn headers() -> (h: Vec<(String, String)>)
    ensures
        pair_views(h@) == default_headers(),
{
    let mut h: Vec<(String, String)> = Vec::new();
    h.push((String::from_str("Content-Type"), String::from_str("application/json")));
    h.push((String::from_str("Accept"), String::from_str("application/json, text/plain, */*")));
    h.push((String::from_str("Referer"), String::from_str("https://meroshare.cdsc.com.np/")));
    h.push(
        (
            String::from_str("User-Agent"),
            String::from_str("Mozilla/5.0 (X11; Linux x86_64) Chrome/144.0.0.0 Safari/537.36"),
        ),
    );
    assert(pair_views(h@) =~= default_headers());
    h
}

fn endpoint(base: &str, path: &str) -> (r: String)
    ensures
        r@ == base@ + path@,
{
    let mut r = String::from_str(base);
    r.append(path);
    r
}

/// Where a login is posted.
pub fn auth_url(base: &str) -> (r: String)
    ensures
        r@ == base@ + "/meroShare/auth/"@,
{
    endpoint(base, "/meroShare/auth/")
}

/// Where the account owner's details are read.
pub fn own_detail_url(base: &str) -> (r: String)
    ensures
        r@ == base@ + "/meroShare/ownDetail/"@,
{
    endpoint(base, "/meroShare/ownDetail/")
}

/// Where the portfolio is queried.
pub fn portfolio_url(base: &str) -> (r: String)
    ensures
        r@ == base@ + "/meroShareView/myPortfolio/"@,
{
    endpoint(base, "/meroShareView/myPortfolio/")
}

/// The portfolio query: sorted by script, ascending, the first page of up
/// to 200 holdings of the demat accounts under the client code.
#[derive(Debug)]
pub struct PortfolioQuery {
    pub sort_by: String,
    pub demat: Vec<String>,
    pub client_code: String,
    pub page: u32,
    pub size: u32,
    pub sort_asc: bool,
}

/// The query for the given demat accounts under the client code.
pub fn portfolio_query(demat: Vec<String>, client_code: &str) -> (q: PortfolioQuery)
    ensures
        q.sort_by@ == "script"@,
        q.demat@ == demat@,
        q.client_code@ == client_code@,
        q.page == 1,
        q.size == 200,
        q.sort_asc,
{
    PortfolioQuery {
        sort_by: String::from_str("script"),
        demat,
        client_code: String::from_str(client_code),
        page: 1,
        size: 200,
        sort_asc: true,
    }
}

/// A successful HTTP status: `StatusCode::is_success`, 200 to 299.
pub open spec fn is_success(code: u16) -> bool {
    200 <= code && code < 300
}

/// What `StatusCode`'s `Display` writes for a status code: the code and its
/// canonical reason phrase.
pub uninterp spec fn status_display(code: u16) -> Seq<char>;

/// `reqwest::StatusCode`'s `Display`, for a valid status code.
#[verifier::external_body]
fn status_text(code: u16) -> (r: String)
    requires
        100 <= code <= 999,
    ensures
        r@ == status_display(code),
{
    match reqwest::StatusCode::from_u16(code) {
        Ok(s) => s.to_string(),
        Err(_) => String::new(),
    }
}

/// The complaint about a failed request: `"{what} failed: HTTP {status}"`.
pub fn failure_message(what: &str, status: &str) -> (r: String)
    ensures
        r@ == what@ + " failed: HTTP "@ + status@,
{
    let mut r = String::from_str(what);
    r.append(" failed: HTTP ");
    r.append(status);
    r
}

/// What every response is held to: a successful status passes,
/// any other is reported with what was asked and the status.
pub fn check_status(what: &str, code: u16) -> (r: Result<(), String>)
    requires
        100 <= code <= 999,
    ensures
        r is Ok <==> is_success(code),
        r matches Err(e) ==> e@ == what@ + " failed: HTTP "@ + status_display(code),
{
    if 200 <= code && code < 300 {
        Ok(())
    } else {
        let t = status_text(code);
        Err(failure_message(what, t.as_str()))
    }
}

/// A header byte that `HeaderValue::to_str` accepts: visible ASCII or tab.
pub open spec fn visible_ascii(b: u8) -> bool {
    (32 <= b && b < 127) || b == 9
}

/// The header value as text (what `HeaderValue::to_str` gives): its bytes
/// as characters when they are all visible ASCII or tabs, else nothing.
pub open spec fn header_text(bytes: Seq<u8>) -> Option<Seq<char>> {
    if forall|i: int| 0 <= i < bytes.len() ==> #[trigger] visible_ascii(bytes[i]) {
        Some(bytes.map_values(|b: u8| b as char))
    } else {
        None
    }
}

/// The header value as text, computed.
pub fn header_value_text(bytes: &[u8]) -> (r: Option<String>)
    ensures
        match r {
            Some(t) => header_text(bytes@) == Some(t@),
            None => header_text(bytes@) is None,
        },
{
    let mut t = String::new();
    let mut i: usize = 0;
    while i < bytes.len()
        invariant
            i <= bytes.len(),
            forall|k: int| 0 <= k < i ==> #[trigger] visible_ascii(bytes@[k]),
            t@ == bytes@.take(i as int).map_values(|b: u8| b as char),
        decreases bytes.len() - i,
    {
        let b = bytes[i];
        if !((32 <= b && b < 127) || b == 9) {
            assert(!visible_ascii(bytes@[i as int]));
            return None;
        }
        push_char(&mut t, b as char);
        assert(bytes@.take(i + 1).map_values(|b: u8| b as char) =~= bytes@.take(i as int).map_values(
            |b: u8| b as char,
        ).push(b as char));
        i = i + 1;
    }
    assert(bytes@.take(i as int) =~= bytes@);
    Some(t)
}

/// What a login answer yields: the session token, when the response
/// succeeded and carries an Authorization header whose value is visible
/// ASCII; else the complaint.
pub open spec fn login_outcome(code: u16, auth: Option<Seq<u8>>) -> Result<Seq<char>, Seq<char>> {
    if !is_success(code) {
        Err("login failed: HTTP "@ + status_display(code))
    } else {
        match auth {
            None => Err("no authorization header in login response"@),
            Some(a) => match header_text(a) {
                None => Err("invalid authorization header"@),
                Some(t) => Ok(t),
            },
        }
    }
}

/// A result of texts by their characters.
pub open spec fn text_result(r: Result<String, String>) -> Result<Seq<char>, Seq<char>> {
    match r {
        Ok(t) => Ok(t@),
        Err(e) => Err(e@),
    }
}

/// The session token a login answer carries, from its status and the bytes
/// of its Authorization header.
pub fn login_token(code: u16, authorization: Option<&[u8]>) -> (r: Result<String, String>)
    requires
        100 <= code <= 999,
    ensures
        text_result(r) == login_outcome(
            code,
            match authorization {
                Some(a) => Some(a@),
                None => None,
            },
        ),
{
    proof {
        reveal_strlit("login");
        reveal_strlit(" failed: HTTP ");
        reveal_strlit("login failed: HTTP ");
        assert("login"@ + " failed: HTTP "@ =~= "login failed: HTTP "@);
    }
    match check_status("login", code) {
        Err(e) => Err(e),
        Ok(()) => match authorization {
            None => Err(String::from_str("no authorization header in login response")),
            Some(a) => match header_value_text(a) {
                None => Err(String::from_str("invalid authorization header")),
                Some(t) => Ok(t),
            },
        },
    }
}

} // verus!
