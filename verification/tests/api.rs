use meroshare_tui::api::{
    auth_url, check_status, header_value_text as h, headers, login_token as t, own_detail_url,
    portfolio_query, portfolio_url,
};

#[test]
fn default_headers() {
    let h = headers();
    assert_eq!(h.len(), 4);
    assert_eq!(h[0], ("Content-Type".to_string(), "application/json".to_string()));
    assert_eq!(h[1], ("Accept".to_string(), "application/json, text/plain, */*".to_string()));
    assert_eq!(h[2], ("Referer".to_string(), "https://meroshare.cdsc.com.np/".to_string()));
    assert_eq!(
        h[3],
        (
            "User-Agent".to_string(),
            "Mozilla/5.0 (X11; Linux x86_64) Chrome/144.0.0.0 Safari/537.36".to_string()
        )
    );
}

#[test]
fn endpoints() {
    assert_eq!(auth_url("https://x.test/api"), "https://x.test/api/meroShare/auth/");
    assert_eq!(own_detail_url("https://x.test/api"), "https://x.test/api/meroShare/ownDetail/");
    assert_eq!(portfolio_url("b"), "b/meroShareView/myPortfolio/");
}

#[test]
fn query_for_one_demat() {
    let q = portfolio_query(vec!["1300000".to_string()], "130-0");
    assert_eq!(q.sort_by, "script");
    assert_eq!(q.demat, vec!["1300000".to_string()]);
    assert_eq!(q.client_code, "130-0");
    assert_eq!(q.page, 1);
    assert_eq!(q.size, 200);
    assert!(q.sort_asc);
}

#[test]
fn status_check() {
    assert_eq!(check_status("portfolio", 200), Ok(()));
    assert_eq!(check_status("portfolio", 299), Ok(()));
    assert_eq!(
        check_status("portfolio", 404),
        Err("portfolio failed: HTTP 404 Not Found".to_string())
    );
    assert_eq!(
        check_status("own detail", 302),
        Err("own detail failed: HTTP 302 Found".to_string())
    );
    assert_eq!(
        check_status("x", 599),
        Err("x failed: HTTP 599 <unknown status code>".to_string())
    );
}

#[test]
fn login_token_cases() {
    assert_eq!(t(200, Some(b"Bearer abc")), Ok("Bearer abc".to_string()));
    assert_eq!(t(200, Some(b"a\tb")), Ok("a\tb".to_string()));
    assert_eq!(t(200, Some(b"")), Ok(String::new()));
    assert_eq!(t(200, None), Err("no authorization header in login response".to_string()));
    assert_eq!(t(200, Some(&[0x41, 0x80])), Err("invalid authorization header".to_string()));
    assert_eq!(t(201, Some(&[0x7f])), Err("invalid authorization header".to_string()));
    assert_eq!(t(401, Some(b"x")), Err("login failed: HTTP 401 Unauthorized".to_string()));
}

#[test]
fn header_text_cases() {
    assert_eq!(h(b"ok ~"), Some("ok ~".to_string()));
    assert_eq!(h(b"\n"), None);
}
