use trokk::auth::{
    build_authorization_code_body, build_client_credentials_body, build_refresh_token_body,
    compute_expire_info, normalize_redirect_url, parse_papi_token_response,
};

#[test]
fn test_parse_papi_token_response_fails_on_invalid_json() {
    let err = parse_papi_token_response("{ not-json }")
        .err()
        .expect("Expected token parse to fail");

    assert!(err.contains("Kunne ikke tolke token-respons"));
}

#[test]
fn test_parse_papi_token_response_reads_access_token() {
    let body = "{\"access_token\":\"abc123\",\"expires_in\":300,\"token_type\":\"Bearer\"}";
    assert_eq!(parse_papi_token_response(body).unwrap(), "abc123");
}

#[test]
fn test_parse_papi_token_response_fails_without_access_token() {
    let err = parse_papi_token_response("{\"token_type\":\"Bearer\"}").unwrap_err();
    assert!(err.contains("Kunne ikke tolke token-respons"));
}

#[test]
fn test_authorization_code_body_layout() {
    let body = build_authorization_code_body("id", "secret", "thecode", "http://localhost:1421");
    assert_eq!(
        body,
        "client_id=id&client_secret=secret&code=thecode&grant_type=authorization_code&redirect_uri=http://localhost:1421"
    );
}

#[test]
fn test_refresh_token_body_layout() {
    let body = build_refresh_token_body("id", "secret", "refr");
    assert_eq!(
        body,
        "client_id=id&client_secret=secret&grant_type=refresh_token&refresh_token=refr"
    );
}

#[test]
fn test_client_credentials_body_layout() {
    let body = build_client_credentials_body("id", "secret");
    assert_eq!(body, "client_id=id&client_secret=secret&grant_type=client_credentials");
}

#[test]
fn test_normalize_redirect_url_strips_query_and_slash() {
    assert_eq!(
        normalize_redirect_url("http://localhost:1421/?code=xyz&state=1"),
        "http://localhost:1421"
    );
    assert_eq!(normalize_redirect_url("http://localhost:1421/cb"), "http://localhost:1421/cb");
    assert_eq!(normalize_redirect_url("http://localhost:1421/cb/"), "http://localhost:1421/cb");
}

#[test]
fn test_compute_expire_info_converts_seconds_to_millis() {
    let info = compute_expire_info(1_000_000, 300, 1800);
    assert_eq!(info.expires_at, 1_000_000 + 300_000);
    assert_eq!(info.refresh_expires_at, 1_000_000 + 1_800_000);
}
