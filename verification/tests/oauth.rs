use suvarix::error::AppError;
use suvarix::oauth::{
    check_callback, compute_checksum, extract_query_param, kite_auth_header, kite_login_url, login_page, random_state,
    upstox_login_url,
};

#[test]
fn query_params_are_read_from_the_request_line() {
    let req = "GET /?request_token=abc123&status=success&state=xyz HTTP/1.1\r\nHost: 127.0.0.1\r\n\r\n";
    assert_eq!(extract_query_param(req, "request_token").as_deref(), Some("abc123"));
    assert_eq!(extract_query_param(req, "state").as_deref(), Some("xyz"));
    assert_eq!(extract_query_param(req, "status").as_deref(), Some("success"));
    assert_eq!(extract_query_param(req, "code"), None);
}

#[test]
fn query_param_edge_cases() {
    assert_eq!(extract_query_param("", "code"), None);
    assert_eq!(extract_query_param("GET / HTTP/1.1", "code"), None);
    assert_eq!(extract_query_param("GET /?code=1", "code"), None); // no space after the query
    assert_eq!(extract_query_param("GET /?code= HTTP/1.1", "code").as_deref(), Some(""));
    assert_eq!(extract_query_param("GET /?xcode=1&code=2 HTTP/1.1", "code").as_deref(), Some("2"));
    assert_eq!(extract_query_param("GET /?code=1&code=2 HTTP/1.1", "code").as_deref(), Some("1"));
    assert_eq!(extract_query_param("GET /?a=1 HTTP/1.1\nGET /?code=9 HTTP/1.1", "code"), None);
}

#[test]
fn state_is_32_lowercase_hex_digits_and_fresh() {
    let a = random_state();
    let b = random_state();
    assert_eq!(a.len(), 32);
    assert!(a.chars().all(|c| c.is_ascii_hexdigit() && !c.is_ascii_uppercase()));
    assert_ne!(a, b);
}

#[test]
fn callback_with_wrong_state_is_rejected() {
    let req = "GET /?code=abc&state=evil HTTP/1.1\r\n";
    match check_callback(req, "good", "code", "no code") {
        Err(AppError::ExternalApi(m)) => {
            assert_eq!(m, "Login rejected: OAuth state mismatch (possible CSRF). Please try again.")
        }
        _ => panic!("expected a rejection"),
    }
    match check_callback("GET /?code=abc HTTP/1.1", "good", "code", "no code") {
        Err(AppError::ExternalApi(m)) => assert!(m.contains("state mismatch")),
        _ => panic!("expected a rejection"),
    }
}

#[test]
fn callback_with_matching_state_yields_the_code() {
    let req = "GET /?code=abc&state=good HTTP/1.1\r\n";
    assert_eq!(check_callback(req, "good", "code", "no code").unwrap(), "abc");
    match check_callback("GET /?state=good HTTP/1.1", "good", "code", "no code") {
        Err(AppError::ExternalApi(m)) => assert_eq!(m, "no code"),
        _ => panic!("expected the missing-code error"),
    }
}

#[test]
fn kite_checksum_is_sha256_hex_of_the_three_parts() {
    // SHA-256 of "abc" is the FIPS 180-2 test vector.
    assert_eq!(
        compute_checksum("a", "b", "c"),
        "ba7816bf8f01cfea414140de5dae2223b00361a396177a9cb410ff61f20015ad"
    );
}

#[test]
fn login_addresses_carry_key_and_state() {
    assert_eq!(
        kite_login_url("k1", "s1"),
        "https://kite.zerodha.com/connect/login?api_key=k1&v=3&redirect_params=state=s1"
    );
    assert_eq!(
        upstox_login_url("k2", "s2"),
        "https://api.upstox.com/v2/login/authorization/dialog?client_id=k2&redirect_uri=http://127.0.0.1:7460&response_type=code&state=s2"
    );
    assert_eq!(kite_auth_header("k", "t"), "token k:t");
    let page = login_page("Suvarix");
    assert!(page.starts_with("HTTP/1.1 200 OK\r\n"));
    assert!(page.contains("<title>Suvarix \u{2014} Login successful</title>"));
    assert!(page.ends_with("return to Suvarix.</p></body></html>"));
}
