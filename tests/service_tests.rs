use stander_service::auth::{bearer_token, validate_token, AuthError};
use stander_service::config::{DatabaseConfig, LoggingConfig, ServerConfig};
use stander_service::health::{HealthResponse, ServiceStatus};

#[test]
fn bearer_header_yields_token() {
    assert_eq!(bearer_token("Bearer abc.def"), Some("abc.def".to_string()));
    assert_eq!(bearer_token("Bearer "), Some(String::new()));
    assert_eq!(bearer_token("Basic abc"), None);
    assert_eq!(bearer_token("Bear"), None);
}

#[test]
fn only_the_development_token_is_accepted() {
    let c = validate_token("valid_token", 1000).unwrap();
    assert_eq!(c.sub, "user123");
    assert_eq!(c.iat, 1000);
    assert_eq!(c.exp, 4600);
    assert_eq!(validate_token("other", 1000).unwrap_err(), AuthError::InvalidToken);
    assert_eq!(AuthError::MissingHeader.to_string(), "Missing authorization header");
    assert_eq!(AuthError::TokenExpired.to_string(), "Token expired");
}

#[test]
fn health_report_texts() {
    let s = ServiceStatus::from_probes(true, false, true, false);
    assert_eq!(s.database, "healthy");
    assert_eq!(s.mongodb, "unhealthy");
    assert_eq!(s.aws, "enabled");
    assert_eq!(s.huawei, "disabled");
    let h = HealthResponse::new("t".to_string(), "0.1.0".to_string(), s);
    assert_eq!(h.status, "ok");
}

#[test]
fn configuration_fallbacks() {
    let s = ServerConfig::standard();
    assert_eq!((s.grpc_port, s.rest_port, s.host.as_str()), (50051, 8080, "0.0.0.0"));
    let d = DatabaseConfig::from_settings(None, Some("mongodb://db:1".to_string()));
    assert_eq!(d.postgres_url, "postgresql://localhost/myapp");
    assert_eq!(d.mongodb_url, "mongodb://db:1");
    assert_eq!(d.max_connections, 10);
    let l = LoggingConfig::from_settings(None);
    assert_eq!((l.level.as_str(), l.format.as_str()), ("info", "json"));
}
