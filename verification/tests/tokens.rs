use broquest::client::HttpError;
use broquest::domain::{JwtAuth, OAuth2Auth, OAuth2GrantType};
use broquest::tokens::{ensure_oauth2_token, OAuthStep, TokenResponse};
use broquest::tokens::{
    calculate_expires_at, current_unix_timestamp, expires_at_from, extract_expiry, is_jwt_token_expired,
    is_oauth_token_expired, is_token_expired_at, ExpiryField,
};

#[test]
fn test_is_jwt_token_expired_no_token() {
    let jwt = JwtAuth::default();
    assert!(is_jwt_token_expired(&jwt));
}

#[test]
fn test_is_jwt_token_expired_valid_token() {
    let future = current_unix_timestamp() + 3600;
    let jwt = JwtAuth { access_token: Some("token".to_string()), expires_at: Some(future), ..Default::default() };
    assert!(!is_jwt_token_expired(&jwt));
}

#[test]
fn test_is_jwt_token_expired_expired_token() {
    let past = current_unix_timestamp() - 100;
    let jwt = JwtAuth { access_token: Some("token".to_string()), expires_at: Some(past), ..Default::default() };
    assert!(is_jwt_token_expired(&jwt));
}

#[test]
fn test_extract_expiry_relative_seconds() {
    let result = extract_expiry(&ExpiryField::Integer(3600));
    assert!(result.is_some());
    let expires_at = result.unwrap();
    let now = current_unix_timestamp();
    assert!(expires_at > now);
    assert!(expires_at < now + 3700);
}

#[test]
fn test_extract_expiry_unix_timestamp() {
    let result = extract_expiry(&ExpiryField::Integer(1709612400));
    assert_eq!(result, Some(1709612400));
}

#[test]
fn test_extract_expiry_iso_string() {
    let result = extract_expiry(&ExpiryField::Text("2024-03-05T10:00:00Z".to_string()));
    assert_eq!(result, Some(1709632800));
}

#[test]
fn expiry_of_other_fields() {
    assert_eq!(extract_expiry(&ExpiryField::Missing), None);
    assert_eq!(extract_expiry(&ExpiryField::Text("tomorrow".to_string())), None);
    assert_eq!(extract_expiry(&ExpiryField::OtherNumber), None);
}

#[test]
fn token_expiry_has_a_sixty_second_margin() {
    assert!(is_token_expired_at(None, false, 1000));
    assert!(!is_token_expired_at(None, true, 1000));
    assert!(!is_token_expired_at(Some(1061), true, 1000));
    assert!(is_token_expired_at(Some(1060), true, 1000));
    assert!(is_token_expired_at(Some(900), true, 1000));
}

#[test]
fn a_token_without_a_value_is_expired() {
    assert!(is_token_expired_at(Some(5000), false, 1000));
    let future = current_unix_timestamp() + 3600;
    let jwt = JwtAuth { access_token: None, expires_at: Some(future), ..Default::default() };
    assert!(is_jwt_token_expired(&jwt));
    let o = OAuth2Auth { access_token: None, expires_at: Some(future), ..Default::default() };
    assert!(is_oauth_token_expired(&o));
}

#[test]
fn expiry_times() {
    assert_eq!(expires_at_from(1000, 3600), Some(4600));
    assert_eq!(expires_at_from(i64::MAX, 1), None);
    let t = calculate_expires_at(60).unwrap();
    assert!(t >= current_unix_timestamp() + 59);
}

#[test]
fn oauth_expiry() {
    let o = OAuth2Auth::default();
    assert!(is_oauth_token_expired(&o));
}

#[test]
fn oauth_token_is_obtained_only_when_needed() {
    let valid = OAuth2Auth { access_token: Some("t".to_string()), expires_at: Some(10_000), ..Default::default() };
    let mut o = valid.clone();
    let r = ensure_oauth2_token(&mut o, 1000, |_: &OAuth2Auth, _: &OAuthStep| -> Result<TokenResponse, HttpError> {
        panic!("no token is fetched while the stored one is valid")
    });
    assert!(r.is_ok());
    assert_eq!(o, valid);

    let mut o = OAuth2Auth::default();
    let r = ensure_oauth2_token(&mut o, 1000, |_: &OAuth2Auth, step: &OAuthStep| {
        assert_eq!(*step, OAuthStep::FetchClientCredentials);
        Ok(TokenResponse {
            access_token: "new".to_string(),
            token_type: "Bearer".to_string(),
            expires_in: Some(60),
            refresh_token: None,
            scope: None,
        })
    });
    assert!(r.is_ok());
    assert_eq!(o.access_token.as_deref(), Some("new"));
    assert_eq!(o.expires_at, Some(1060));

    let before = OAuth2Auth::default();
    let mut o = before.clone();
    let r = ensure_oauth2_token(&mut o, 1000, |_: &OAuth2Auth, _: &OAuthStep| {
        Err(HttpError::new("OAuth2 token request failed", "down"))
    });
    assert_eq!(r.unwrap_err().summary, "OAuth2 token request failed");
    assert_eq!(o, before);

    let before = OAuth2Auth { grant_type: OAuth2GrantType::Password, ..Default::default() };
    let mut o = before.clone();
    let r = ensure_oauth2_token(&mut o, 1000, |_: &OAuth2Auth, _: &OAuthStep| -> Result<TokenResponse, HttpError> {
        panic!("a password grant is refused before any request")
    });
    assert_eq!(r.unwrap_err().summary, "Password grant not supported");
    assert_eq!(o, before);

    let before = OAuth2Auth { grant_type: OAuth2GrantType::AuthorizationCode, ..Default::default() };
    let mut o = before.clone();
    let r = ensure_oauth2_token(&mut o, 1000, |_: &OAuth2Auth, _: &OAuthStep| -> Result<TokenResponse, HttpError> {
        panic!("no authorization without a URL")
    });
    assert_eq!(r.unwrap_err().summary, "OAuth2 authorization URL missing");
    assert_eq!(o, before);
}
