use bouncarr::config::{ArrApp, Config, JellyfinConfig, SecurityConfig, ServerConfig};

#[test]
fn test_validate_url_valid() {
    assert!(Config::validate_url(&"http://example.com".to_string(), "Test").is_ok());
    assert!(Config::validate_url(&"https://example.com:8096".to_string(), "Test").is_ok());
    assert!(Config::validate_url(&"http://localhost:8989".to_string(), "Test").is_ok());
    assert!(Config::validate_url(&"http://192.168.1.1:7878".to_string(), "Test").is_ok());
}

#[test]
fn test_validate_url_invalid() {
    // Empty URL
    assert!(Config::validate_url(&"".to_string(), "Test").is_err());

    // Missing scheme
    assert!(Config::validate_url(&"example.com".to_string(), "Test").is_err());

    // Invalid scheme
    assert!(Config::validate_url(&"ftp://example.com".to_string(), "Test").is_err());

    // Missing host
    assert!(Config::validate_url(&"http://".to_string(), "Test").is_err());
}

fn full_config(jellyfin_url: &str, app_url: &str) -> Config {
    Config {
        jellyfin: JellyfinConfig {
            url: jellyfin_url.to_string(),
            api_key: "key".to_string(),
        },
        arr_apps: vec![ArrApp {
            name: "sonarr".to_string(),
            url: app_url.to_string(),
        }],
        server: ServerConfig {
            host: "0.0.0.0".to_string(),
            port: 3000,
            request_timeout_seconds: -1,
        },
        security: SecurityConfig {
            access_token_expiry_hours: 24,
            refresh_token_expiry_days: 30,
            cookie_name: "bouncarr_token".to_string(),
            refresh_cookie_name: "bouncarr_refresh".to_string(),
            secure_cookies: false,
            jwt_secret: None,
        },
    }
}

#[test]
fn test_validate_whole_config() {
    assert!(full_config("http://jellyfin:8096", "http://sonarr:8989")
        .validate()
        .is_ok());
    assert!(matches!(
        full_config("jellyfin", "http://sonarr:8989").validate(),
        Err(bouncarr::errors::AppError::Config(_))
    ));
    assert!(full_config("http://jellyfin:8096", "ftp://sonarr")
        .validate()
        .is_err());
}
