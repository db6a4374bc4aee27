use bouncarr::claims::TokenType;
use bouncarr::config::SecurityConfig;
use bouncarr::jellyfin::UserInfo;
use bouncarr::jwt::JwtManager;

fn test_config() -> SecurityConfig {
    SecurityConfig {
        access_token_expiry_hours: 24,
        refresh_token_expiry_days: 30,
        cookie_name: "test_token".to_string(),
        refresh_cookie_name: "test_refresh".to_string(),
        secure_cookies: false,
        jwt_secret: Some("test-secret-key-for-testing".to_string()),
    }
}

fn test_user_info() -> UserInfo {
    UserInfo {
        user_id: "test-user-123".to_string(),
        username: "testuser".to_string(),
        is_administrator: true,
    }
}

#[test]
fn test_create_and_validate_access_token() {
    let config = test_config();
    let manager = JwtManager::new(&config);
    let user_info = test_user_info();

    let token = manager.create_access_token(&user_info).unwrap();
    assert!(!token.is_empty());

    let claims = manager.validate_token(&token, TokenType::Access).unwrap();
    assert_eq!(claims.sub, user_info.user_id);
    assert_eq!(claims.username, user_info.username);
    assert_eq!(claims.is_admin, user_info.is_administrator);
    assert_eq!(claims.token_type, TokenType::Access);
}

#[test]
fn test_create_and_validate_refresh_token() {
    let config = test_config();
    let manager = JwtManager::new(&config);
    let user_info = test_user_info();

    let token = manager.create_refresh_token(&user_info).unwrap();
    assert!(!token.is_empty());

    let claims = manager.validate_token(&token, TokenType::Refresh).unwrap();
    assert_eq!(claims.sub, user_info.user_id);
    assert_eq!(claims.username, user_info.username);
    assert_eq!(claims.token_type, TokenType::Refresh);
}

#[test]
fn test_token_type_mismatch() {
    let config = test_config();
    let manager = JwtManager::new(&config);
    let user_info = test_user_info();

    let token = manager.create_access_token(&user_info).unwrap();
    let result = manager.validate_token(&token, TokenType::Refresh);
    assert!(result.is_err());

    let token = manager.create_refresh_token(&user_info).unwrap();
    let result = manager.validate_token(&token, TokenType::Access);
    assert!(result.is_err());
}

#[test]
fn test_invalid_token() {
    let config = test_config();
    let manager = JwtManager::new(&config);

    let result = manager.validate_token("invalid.token.here", TokenType::Access);
    assert!(result.is_err());
}

#[test]
fn test_different_secrets_produce_different_tokens() {
    let user_info = test_user_info();

    let config1 = test_config();
    let manager1 = JwtManager::new(&config1);

    let mut config2 = test_config();
    config2.jwt_secret = Some("different-secret".to_string());
    let manager2 = JwtManager::new(&config2);

    let token1 = manager1.create_access_token(&user_info).unwrap();
    let token2 = manager2.create_access_token(&user_info).unwrap();

    assert_ne!(token1, token2);

    let result = manager1.validate_token(&token2, TokenType::Access);
    assert!(result.is_err());
}

#[test]
fn test_claims_survive_awkward_names() {
    let config = test_config();
    let manager = JwtManager::new(&config);
    let user_info = UserInfo {
        user_id: "id-7".to_string(),
        username: "we\"ird\\na\nme\u{1}é€".to_string(),
        is_administrator: true,
    };

    let token = manager.create_access_token(&user_info).unwrap();
    let claims = manager.validate_token(&token, TokenType::Access).unwrap();
    assert_eq!(claims.username, user_info.username);
    assert_eq!(claims.sub, user_info.user_id);
}

#[test]
fn test_expired_token_rejected_with_expiry() {
    let config = test_config();
    let manager = JwtManager::new(&config);
    let user_info = test_user_info();

    let issue_at: i64 = 1_700_000_000;
    let token = manager
        .create_access_token_at(&user_info, issue_at)
        .unwrap();

    let within_day = manager.validate_token_at(&token, TokenType::Access, issue_at + 60);
    assert!(within_day.is_ok());

    let two_days_later = manager.validate_token_at(&token, TokenType::Access, issue_at + 2 * 86400);
    assert!(matches!(
        two_days_later,
        Err(bouncarr::errors::AppError::TokenExpired)
    ));
}

#[test]
fn test_kind_mismatch_is_distinct_error() {
    let config = test_config();
    let manager = JwtManager::new(&config);
    let user_info = test_user_info();

    let issue_at: i64 = 1_700_000_000;
    let token = manager
        .create_access_token_at(&user_info, issue_at)
        .unwrap();
    let result = manager.validate_token_at(&token, TokenType::Refresh, issue_at + 60);
    assert!(matches!(
        result,
        Err(bouncarr::errors::AppError::InvalidToken)
    ));
}

#[test]
fn test_payload_text_is_canonical_json() {
    let claims = bouncarr::claims::Claims {
        sub: "u1".to_string(),
        username: "bo\"b\\".to_string(),
        is_admin: true,
        exp: 200,
        iat: 100,
        token_type: TokenType::Access,
    };
    let payload = bouncarr::codec::claims_payload(&claims);
    assert_eq!(
        payload,
        "{\"sub\":\"u1\",\"username\":\"bo\\\"b\\\\\",\"is_admin\":true,\
         \"exp\":200,\"iat\":100,\"token_type\":\"access\"}"
    );

    let parsed = bouncarr::codec::parse_claims_str(&payload).unwrap();
    assert_eq!(parsed.sub, claims.sub);
    assert_eq!(parsed.username, claims.username);
    assert_eq!(parsed.is_admin, claims.is_admin);
    assert_eq!(parsed.exp, claims.exp);
    assert_eq!(parsed.iat, claims.iat);
    assert_eq!(parsed.token_type, claims.token_type);

    assert!(bouncarr::codec::parse_claims_str("{\"sub\":1}").is_none());
}

#[test]
fn test_generated_secret_round_trips() {
    let mut config = test_config();
    config.jwt_secret = None;
    let manager = JwtManager::new(&config);
    let user_info = test_user_info();

    let token = manager.create_access_token(&user_info).unwrap();
    let claims = manager.validate_token(&token, TokenType::Access).unwrap();
    assert_eq!(claims.sub, user_info.user_id);
}
