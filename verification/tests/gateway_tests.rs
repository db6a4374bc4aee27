use bouncarr::bridge::{
    build_ws_url, connect_step, is_websocket_upgrade, pump_step, ConnectAction, Frame, PumpAction,
    CLOSE_INTERNAL_ERROR,
};
use bouncarr::claims::TokenType;
use bouncarr::config::{ArrApp, SecurityConfig};
use bouncarr::errors::AppError;
use bouncarr::forward::{
    build_target_url, extract_app_name, filter_headers, should_skip_header,
};
use bouncarr::gate::{authorize_request_at, AuthOutcome};
use bouncarr::jellyfin::UserInfo;
use bouncarr::jwt::JwtManager;
use bouncarr::resolve::resolve;

fn routes() -> Vec<ArrApp> {
    vec![
        ArrApp {
            name: "sonarr".to_string(),
            url: "http://a".to_string(),
        },
        ArrApp {
            name: "radarr".to_string(),
            url: "http://b".to_string(),
        },
    ]
}

#[test]
fn test_resolve_known_and_unknown_apps() {
    let apps = routes();
    assert_eq!(resolve(&apps, &"sonarr".to_string()).unwrap(), "http://a");
    assert_eq!(resolve(&apps, &"radarr".to_string()).unwrap(), "http://b");

    let miss = resolve(&apps, &"plex".to_string());
    match miss {
        Err(AppError::AppNotFound(m)) => {
            assert_eq!(m.requested, "plex");
            assert_eq!(m.available, vec!["sonarr".to_string(), "radarr".to_string()]);
        }
        _ => panic!("expected a route miss listing the configured names"),
    }
}

#[test]
fn test_resolve_is_case_sensitive() {
    let apps = routes();
    assert!(resolve(&apps, &"Sonarr".to_string()).is_err());
}

#[test]
fn test_forward_path_rewrite() {
    let base = "http://backend".to_string();
    let app = "sonarr".to_string();
    let url = build_target_url(&base, "/sonarr/api/v3/series", &app, Some(&"x=1".to_string()));
    assert_eq!(url, "http://backend/api/v3/series?x=1");

    let url = build_target_url(&base, "/sonarr", &app, None);
    assert_eq!(url, "http://backend/");

    let url = build_target_url(&base, "/other/path", &app, None);
    assert_eq!(url, "http://backend/other/path");
}

#[test]
fn test_extract_app_name() {
    assert_eq!(extract_app_name("/sonarr/api/v3/series"), "sonarr");
    assert_eq!(extract_app_name("/sonarr"), "sonarr");
    assert_eq!(extract_app_name("/"), "");
    assert_eq!(extract_app_name(""), "");
}

#[test]
fn test_header_filtering() {
    assert!(should_skip_header("host"));
    assert!(should_skip_header("connection"));
    assert!(should_skip_header("transfer-encoding"));
    assert!(should_skip_header("content-length"));
    assert!(!should_skip_header("x-api-key"));

    let headers = vec![
        ("Content-Length".to_string(), "5".to_string()),
        ("X-Api-Key".to_string(), "secret".to_string()),
        ("HOST".to_string(), "gateway".to_string()),
        ("Cookie".to_string(), "session=1".to_string()),
    ];
    let kept = filter_headers(&headers);
    assert_eq!(
        kept,
        vec![
            ("X-Api-Key".to_string(), "secret".to_string()),
            ("Cookie".to_string(), "session=1".to_string()),
        ]
    );
}

#[test]
fn test_websocket_detection() {
    assert!(is_websocket_upgrade(Some(&"websocket".to_string())));
    assert!(is_websocket_upgrade(Some(&"WebSocket".to_string())));
    assert!(!is_websocket_upgrade(Some(&"h2c".to_string())));
    assert!(!is_websocket_upgrade(None));
}

#[test]
fn test_websocket_url_keeps_prefix_and_translates_scheme() {
    let url = build_ws_url(
        &"http://backend:8989".to_string(),
        "/sonarr/api/ws",
        Some(&"id=1".to_string()),
    );
    assert_eq!(url, "ws://backend:8989/sonarr/api/ws?id=1");

    let url = build_ws_url(&"https://backend".to_string(), "/sonarr/ws", None);
    assert_eq!(url, "wss://backend/sonarr/ws");
}

#[test]
fn test_pump_step_forwards_frames_unchanged() {
    let action = pump_step(Some(Ok(Frame::Text("hello".to_string()))));
    match action {
        PumpAction::Forward(Frame::Text(s)) => assert_eq!(s, "hello"),
        _ => panic!("a text frame must cross unchanged"),
    }

    let action = pump_step(Some(Ok(Frame::Binary(vec![1, 2, 3]))));
    match action {
        PumpAction::Forward(Frame::Binary(b)) => assert_eq!(b, vec![1, 2, 3]),
        _ => panic!("a binary frame must cross unchanged"),
    }

    assert!(matches!(
        pump_step(Some(Ok(Frame::Close))),
        PumpAction::ForwardCloseAndStop
    ));
    assert!(matches!(pump_step(Some(Err(()))), PumpAction::Stop));
    assert!(matches!(pump_step(None), PumpAction::Stop));
}

#[test]
fn test_connect_failure_closes_with_internal_error() {
    assert!(matches!(connect_step(true), ConnectAction::StartPumps));
    match connect_step(false) {
        ConnectAction::SendCloseToCaller(code) => {
            assert_eq!(code, CLOSE_INTERNAL_ERROR);
            assert_eq!(code, 1011);
        }
        _ => panic!("a failed upstream connect must close the caller's socket"),
    }
}

fn security() -> SecurityConfig {
    SecurityConfig {
        access_token_expiry_hours: 24,
        refresh_token_expiry_days: 30,
        cookie_name: "bouncarr_token".to_string(),
        refresh_cookie_name: "bouncarr_refresh".to_string(),
        secure_cookies: false,
        jwt_secret: Some("gate-test-secret".to_string()),
    }
}

fn admin() -> UserInfo {
    UserInfo {
        user_id: "u1".to_string(),
        username: "root".to_string(),
        is_administrator: true,
    }
}

#[test]
fn test_gate_rejects_missing_credential() {
    let manager = JwtManager::new(&security());
    let outcome = authorize_request_at(&manager, None, None, None, &"/sonarr".to_string(), 0);
    assert!(matches!(outcome, AuthOutcome::Deny(AppError::Unauthorized)));
}

#[test]
fn test_gate_redirects_browsers_with_encoded_path() {
    let manager = JwtManager::new(&security());
    let accept = "text/html,application/xhtml+xml".to_string();
    let outcome = authorize_request_at(
        &manager,
        None,
        None,
        Some(&accept),
        &"/sonarr/series".to_string(),
        0,
    );
    match outcome {
        AuthOutcome::RedirectToLogin(u) => {
            assert_eq!(u, "/bouncarr/login?redirect=%2Fsonarr%2Fseries");
        }
        _ => panic!("a browser without a credential is sent to login"),
    }
}

#[test]
fn test_gate_rejects_expired_token() {
    let manager = JwtManager::new(&security());
    let issue_at: i64 = 1_700_000_000;
    let token = manager.create_access_token_at(&admin(), issue_at).unwrap();
    let outcome = authorize_request_at(
        &manager,
        Some(&token),
        None,
        None,
        &"/sonarr".to_string(),
        issue_at + 3 * 86400,
    );
    assert!(matches!(outcome, AuthOutcome::Deny(AppError::Unauthorized)));
}

#[test]
fn test_gate_rejects_non_admin_as_forbidden() {
    let manager = JwtManager::new(&security());
    let plain = UserInfo {
        user_id: "u2".to_string(),
        username: "user".to_string(),
        is_administrator: false,
    };
    let issue_at: i64 = 1_700_000_000;
    let token = manager.create_access_token_at(&plain, issue_at).unwrap();
    let outcome = authorize_request_at(
        &manager,
        Some(&token),
        None,
        None,
        &"/sonarr".to_string(),
        issue_at + 60,
    );
    assert!(matches!(outcome, AuthOutcome::Deny(AppError::Forbidden)));
}

#[test]
fn test_gate_accepts_admin_and_attaches_identity() {
    let manager = JwtManager::new(&security());
    let issue_at: i64 = 1_700_000_000;
    let token = manager.create_access_token_at(&admin(), issue_at).unwrap();
    let outcome = authorize_request_at(
        &manager,
        Some(&token),
        None,
        None,
        &"/sonarr".to_string(),
        issue_at + 60,
    );
    match outcome {
        AuthOutcome::Proceed(u) => {
            assert_eq!(u.user_id, "u1");
            assert_eq!(u.username, "root");
            assert!(u.is_administrator);
        }
        _ => panic!("a valid administrator credential must be let through"),
    }
}

#[test]
fn test_gate_reads_bearer_header() {
    let manager = JwtManager::new(&security());
    let issue_at: i64 = 1_700_000_000;
    let token = manager.create_access_token_at(&admin(), issue_at).unwrap();
    let header = format!("Bearer {}", token);
    let outcome = authorize_request_at(
        &manager,
        None,
        Some(&header),
        None,
        &"/sonarr".to_string(),
        issue_at + 60,
    );
    assert!(matches!(outcome, AuthOutcome::Proceed(_)));
}

#[test]
fn test_error_status_codes() {
    assert_eq!(AppError::Unauthorized.status_code(), 401);
    assert_eq!(AppError::TokenExpired.status_code(), 401);
    assert_eq!(AppError::InvalidToken.status_code(), 401);
    assert_eq!(AppError::Forbidden.status_code(), 403);
    assert_eq!(AppError::ProxyError("x".to_string()).status_code(), 502);
    assert_eq!(AppError::Internal("x".to_string()).status_code(), 500);
}
