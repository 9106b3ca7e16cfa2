use portfolio_core::auth::{
    apply_exchange_response, apply_refresh_response, auth_cache_text, authorised_spotify_client,
    basic_auth_header, callback, merge_refresh_response, parse_auth_response, refresh_plan,
    refresh_token_request, request_spotify_access_token, AuthError, HttpMethod, RefreshDecision,
    SpotifyAuthCredentials, SpotifyAuthResponse,
};

fn record(expires_in: u16, refresh_token: Option<&str>) -> SpotifyAuthResponse {
    SpotifyAuthResponse {
        access_token: "AT".to_string(),
        token_type: "Bearer".to_string(),
        scope: Some("user-top-read".to_string()),
        expires_in,
        refresh_token: refresh_token.map(|t| t.to_string()),
    }
}

#[test]
fn fresh_token_is_used_without_refresh() {
    // now strictly before mtime + expires_in: no network call
    let rec = record(3600, Some("RT"));
    let mtime = 1_000_000;
    for now in [mtime, mtime + 1, mtime + 3599] {
        assert!(matches!(
            refresh_plan(&rec, mtime, now),
            RefreshDecision::UseCached
        ));
    }
}

#[test]
fn expired_token_forces_one_refresh() {
    // expires_in = 3600 and mtime = now - 7200: exactly one exchange,
    // carrying the stored refresh token
    let rec = record(3600, Some("RT"));
    let now = 1_000_000;
    let mtime = now - 7200;
    match refresh_plan(&rec, mtime, now) {
        RefreshDecision::Refresh(t) => assert_eq!(t, "RT"),
        _ => panic!("an expired record must be refreshed"),
    }
    // the boundary instant itself is already expired
    match refresh_plan(&rec, mtime, mtime + 3600) {
        RefreshDecision::Refresh(t) => assert_eq!(t, "RT"),
        _ => panic!("the expiry instant is no longer fresh"),
    }
}

#[test]
fn expired_token_without_refresh_token_demands_reauthorization() {
    let rec = record(60, None);
    assert!(matches!(
        refresh_plan(&rec, 0, 100),
        RefreshDecision::Reauthorize
    ));
}

#[test]
fn missing_refresh_token_in_response_keeps_old_one() {
    let old = record(3600, Some("OLD-RT"));
    let fresh = record(1800, None);
    let merged = merge_refresh_response(&old, fresh);
    assert_eq!(merged.refresh_token.as_deref(), Some("OLD-RT"));
    assert_eq!(merged.expires_in, 1800);

    let replacing = record(1800, Some("NEW-RT"));
    let merged = merge_refresh_response(&old, replacing);
    assert_eq!(merged.refresh_token.as_deref(), Some("NEW-RT"));
}

#[test]
fn refresh_response_merge_through_http_layer() {
    let old = record(3600, Some("OLD-RT"));
    let body = "{\"access_token\":\"NEW\",\"token_type\":\"Bearer\",\"scope\":null,\"expires_in\":120,\"refresh_token\":null}";
    match apply_refresh_response(&old, 200, body) {
        Ok(rec) => {
            assert_eq!(rec.access_token, "NEW");
            assert_eq!(rec.expires_in, 120);
            assert_eq!(rec.scope, None);
            assert_eq!(rec.refresh_token.as_deref(), Some("OLD-RT"));
        }
        Err(_) => panic!("a well-formed success body must replace the record"),
    }
}

#[test]
fn rejected_exchange_reports_upstream_rejection() {
    // an HTTP 400 answer: the error carries the body, no record comes
    // back, so the cache file is never rewritten
    let body = "{\"error\":\"invalid_grant\"}";
    match apply_exchange_response(400, body) {
        Err(AuthError::UpstreamRejected(b)) => assert_eq!(b, body),
        _ => panic!("a non-success status must be an upstream rejection"),
    }
}

#[test]
fn malformed_exchange_body_is_reported() {
    assert!(matches!(
        apply_exchange_response(200, "not json"),
        Err(AuthError::MalformedResponse)
    ));
    assert!(matches!(
        apply_exchange_response(200, "{\"access_token\":\"x\"}"),
        Err(AuthError::MalformedResponse)
    ));
    assert!(matches!(
        apply_exchange_response(200, "{\"access_token\":\"x\",\"token_type\":\"b\",\"expires_in\":100000}"),
        Err(AuthError::MalformedResponse)
    ));
}

#[test]
fn cache_text_round_trips() {
    let rec = record(3600, Some("RT"));
    let text = auth_cache_text(&rec);
    let back = parse_auth_response(&text).expect("the written cache must read back");
    assert_eq!(back.access_token, "AT");
    assert_eq!(back.token_type, "Bearer");
    assert_eq!(back.scope.as_deref(), Some("user-top-read"));
    assert_eq!(back.expires_in, 3600);
    assert_eq!(back.refresh_token.as_deref(), Some("RT"));

    let bare = SpotifyAuthResponse {
        access_token: "AT".to_string(),
        token_type: "Bearer".to_string(),
        scope: None,
        expires_in: 1,
        refresh_token: None,
    };
    let text = auth_cache_text(&bare);
    let back = parse_auth_response(&text).expect("absent options read back");
    assert_eq!(back.scope, None);
    assert_eq!(back.refresh_token, None);
}

#[test]
fn parse_auth_response_accepts_provider_shape() {
    let body = "{\"access_token\":\"tok\",\"token_type\":\"Bearer\",\"scope\":\"a b\",\"expires_in\":3600,\"refresh_token\":\"r\"}";
    let rec = parse_auth_response(body).expect("provider body parses");
    assert_eq!(rec.access_token, "tok");
    assert_eq!(rec.refresh_token.as_deref(), Some("r"));
    // the refresh token may simply be absent
    let body = "{\"access_token\":\"tok\",\"token_type\":\"Bearer\",\"expires_in\":60}";
    let rec = parse_auth_response(body).expect("optional fields may be absent");
    assert_eq!(rec.scope, None);
    assert_eq!(rec.refresh_token, None);
}

#[test]
fn basic_auth_header_encodes_credentials() {
    let creds = SpotifyAuthCredentials {
        client_id: "id".to_string(),
        client_secret: "secret".to_string(),
    };
    // base64("id:secret") under the standard alphabet with padding
    assert_eq!(
        basic_auth_header(&creds).expect("short credentials encode"),
        "Basic aWQ6c2VjcmV0"
    );
    let padded = SpotifyAuthCredentials {
        client_id: "a".to_string(),
        client_secret: "b".to_string(),
    };
    assert_eq!(
        basic_auth_header(&padded).expect("short credentials encode"),
        "Basic YTpi"
    );
    // a credential beyond ASCII is encoded over its UTF-8 bytes
    let accented = SpotifyAuthCredentials {
        client_id: "é".to_string(),
        client_secret: "x".to_string(),
    };
    assert_eq!(
        basic_auth_header(&accented).expect("short credentials encode"),
        "Basic w6k6eA=="
    );
}

#[test]
fn exchange_request_carries_code_and_redirect() {
    let creds = SpotifyAuthCredentials {
        client_id: "id".to_string(),
        client_secret: "secret".to_string(),
    };
    let req = request_spotify_access_token(&creds, "CODE").expect("request builds");
    assert_eq!(req.url, "https://accounts.spotify.com/api/token");
    assert_eq!(req.authorization, "Basic aWQ6c2VjcmV0");
    let params: Vec<(String, String)> = req.params;
    assert_eq!(params.len(), 3);
    assert_eq!(params[0].0, "grant_type");
    assert_eq!(params[0].1, "authorization_code");
    assert_eq!(params[1].0, "code");
    assert_eq!(params[1].1, "CODE");
    assert_eq!(params[2].0, "redirect_uri");
    assert_eq!(params[2].1, "https://usmaanwahab.co.uk/callback");
}

#[test]
fn refresh_request_carries_token() {
    let creds = SpotifyAuthCredentials {
        client_id: "id".to_string(),
        client_secret: "secret".to_string(),
    };
    let req = refresh_token_request(&creds, "RT").expect("request builds");
    assert_eq!(req.url, "https://accounts.spotify.com/api/token");
    assert_eq!(req.params.len(), 2);
    assert_eq!(req.params[0].0, "grant_type");
    assert_eq!(req.params[0].1, "refresh_token");
    assert_eq!(req.params[1].0, "refresh_token");
    assert_eq!(req.params[1].1, "RT");
}

#[test]
fn authorised_client_attaches_bearer_token() {
    let rec = record(60, None);
    let req = authorised_spotify_client(
        HttpMethod::Get,
        "https://api.spotify.com/v1/me/player/currently-playing",
        &rec,
    );
    assert!(matches!(req.method, HttpMethod::Get));
    assert_eq!(req.url, "https://api.spotify.com/v1/me/player/currently-playing");
    assert_eq!(req.authorization, "Bearer AT");
}

#[test]
fn callback_maps_outcomes_to_page_text() {
    assert_eq!(callback(Ok(())).unwrap(), "Success");
    let err = callback(Err(AuthError::NotAuthenticated)).unwrap_err();
    assert_eq!(err, "not authenticated");
    let err = callback(Err(AuthError::UpstreamRejected("bad code".to_string()))).unwrap_err();
    assert_eq!(err, "bad code");
}
