use bouncarr::config::SecurityConfig;
use bouncarr::errors::AppError;
use bouncarr::jellyfin::UserInfo;
use bouncarr::login::{
    authorize_identity, build_access_cookie, build_refresh_cookie, validate_login_request,
    LoginRequest,
};

fn test_login_request(username: &str, password: &str) -> LoginRequest {
    LoginRequest {
        username: username.to_string(),
        password: password.to_string(),
    }
}

#[test]
fn test_validate_login_valid() {
    let req = test_login_request("testuser", "testpass");
    assert!(validate_login_request(&req).is_ok());
}

#[test]
fn test_validate_login_empty_username() {
    let req = test_login_request("", "testpass");
    assert!(validate_login_request(&req).is_err());
}

#[test]
fn test_validate_login_empty_password() {
    let req = test_login_request("testuser", "");
    assert!(validate_login_request(&req).is_err());
}

#[test]
fn test_validate_login_username_too_long() {
    let long_username = "a".repeat(256);
    let req = test_login_request(&long_username, "testpass");
    assert!(validate_login_request(&req).is_err());
}

#[test]
fn test_validate_login_password_too_long() {
    let long_password = "a".repeat(1025);
    let req = test_login_request("testuser", &long_password);
    assert!(validate_login_request(&req).is_err());
}

#[test]
fn test_validate_login_username_with_control_chars() {
    let req = test_login_request("test\nuser", "testpass");
    assert!(validate_login_request(&req).is_err());
}

#[test]
fn test_validate_login_max_lengths() {
    // Max valid username (255 chars)
    let username = "a".repeat(255);
    let req = test_login_request(&username, "testpass");
    assert!(validate_login_request(&req).is_ok());

    // Max valid password (1024 chars)
    let password = "a".repeat(1024);
    let req = test_login_request("testuser", &password);
    assert!(validate_login_request(&req).is_ok());
}

#[test]
fn test_validate_login_rejections_are_auth_failures() {
    let req = test_login_request("", "testpass");
    assert!(matches!(
        validate_login_request(&req),
        Err(AppError::AuthenticationFailed(_))
    ));
}

#[test]
fn test_authorize_identity() {
    let admin = UserInfo {
        user_id: "a".to_string(),
        username: "admin".to_string(),
        is_administrator: true,
    };
    let plain = UserInfo {
        user_id: "b".to_string(),
        username: "plain".to_string(),
        is_administrator: false,
    };
    assert!(authorize_identity(&admin).is_ok());
    assert!(matches!(
        authorize_identity(&plain),
        Err(AppError::Forbidden)
    ));
}

fn security() -> SecurityConfig {
    SecurityConfig {
        access_token_expiry_hours: 24,
        refresh_token_expiry_days: 30,
        cookie_name: "bouncarr_token".to_string(),
        refresh_cookie_name: "bouncarr_refresh".to_string(),
        secure_cookies: true,
        jwt_secret: None,
    }
}

#[test]
fn test_access_cookie_lives_until_midnight() {
    let cookie = build_access_cookie(&security(), "tok".to_string(), 0).unwrap();
    assert_eq!(cookie.name, "bouncarr_token");
    assert_eq!(cookie.value, "tok");
    assert!(cookie.http_only && cookie.same_site_lax && cookie.secure);
    assert_eq!(cookie.path, "/");
    assert_eq!(cookie.max_age_seconds, 86399);

    // 1_700_000_000 is 80_000 seconds into its UTC day, so 6_399 remain
    // until the day's last second.
    let cookie = build_access_cookie(&security(), "tok".to_string(), 1_700_000_000).unwrap();
    assert_eq!(cookie.max_age_seconds, 6_399);

    assert!(build_access_cookie(&security(), "tok".to_string(), -5).is_err());
}

#[test]
fn test_refresh_cookie_lives_for_configured_days() {
    let cookie = build_refresh_cookie(&security(), "tok".to_string()).unwrap();
    assert_eq!(cookie.name, "bouncarr_refresh");
    assert_eq!(cookie.max_age_seconds, 30 * 86400);
}
