use inventario_api::App;
use inventario_api::error::AppError;
use inventario_api::trace::{Span, SpanState};
use tracing_subscriber::filter::Directive;
use tracing_subscriber::util::SubscriberInitExt;

#[test]
fn hello_body() {
    assert_eq!(App::hello(), "Hello World!");
}

#[test]
fn span_completes_once() {
    let mut span = Span::start(String::from("GET"), String::from("/hello"));
    assert!(matches!(span.state, SpanState::Started));
    assert_eq!(span.status(), None);
    span.complete(200);
    assert!(matches!(span.state, SpanState::Completed(200)));
    assert_eq!(span.status(), Some(200));
    assert_eq!(span.method, "GET");
    assert_eq!(span.path, "/hello");
}

#[test]
fn span_records_classified_failure() {
    let mut span = Span::start(String::from("GET"), String::from("/hello"));
    span.fail(AppError::Config(String::from("missing key")));
    match span.state {
        SpanState::Failed(e) => {
            assert!(matches!(e, AppError::Config(_)));
            assert_eq!(e.message(), "missing key");
        },
        _ => panic!("expected failed span"),
    }
}

#[test]
fn io_error_message_is_preserved() {
    let e = std::io::Error::new(std::io::ErrorKind::NotFound, "boom: no config dir");
    let original = e.to_string();
    let wrapped = AppError::from_io(e);
    assert!(matches!(wrapped, AppError::IOError(_)));
    assert!(wrapped.message().contains(&original));
    assert_eq!(wrapped.kind_label(), "io");
}

#[test]
fn axum_error_message_is_preserved() {
    let e = axum::Error::new("transport torn down");
    let original = e.to_string();
    let wrapped = AppError::from_axum(e);
    assert!(matches!(wrapped, AppError::Axum(_)));
    assert!(wrapped.message().contains(&original));
    assert_eq!(wrapped.kind_label(), "http");
}

#[test]
fn sqlx_error_message_is_preserved() {
    let e = sqlx::Error::RowNotFound;
    let original = e.to_string();
    let wrapped = AppError::from_sqlx(e);
    assert!(matches!(wrapped, AppError::Sqlx(_)));
    assert!(wrapped.message().contains(&original));
    assert_eq!(wrapped.kind_label(), "database");
}

#[test]
fn redis_error_message_is_preserved() {
    let e = redis::RedisError::from((redis::ErrorKind::Io, "cache unreachable"));
    let original = e.to_string();
    let wrapped = AppError::from_redis(e);
    assert!(matches!(wrapped, AppError::Redis(_)));
    assert!(wrapped.message().contains(&original));
    assert_eq!(wrapped.kind_label(), "cache");
}

#[test]
fn jwt_error_message_is_preserved() {
    let e = jsonwebtoken::errors::Error::from(jsonwebtoken::errors::ErrorKind::InvalidToken);
    let original = e.to_string();
    let wrapped = AppError::from_jwt(e);
    assert!(matches!(wrapped, AppError::JsonWebToken(_)));
    assert!(wrapped.message().contains(&original));
    assert_eq!(wrapped.kind_label(), "token");
}

#[test]
fn directive_parse_error_message_is_preserved() {
    let e = "//not-a-directive//".parse::<Directive>().unwrap_err();
    let original = e.to_string();
    let wrapped = AppError::from_directive_parse(e);
    assert!(matches!(wrapped, AppError::DirectiveParseError(_)));
    assert!(wrapped.message().contains(&original));
    assert_eq!(wrapped.kind_label(), "log-directive");
}

#[test]
fn token_error_has_fixed_message() {
    let e = AppError::TokenError;
    assert_eq!(e.message(), "Error occured when signing or verifying token");
    assert_eq!(e.kind_label(), "token");
}

#[test]
fn migrate_error_message_is_preserved() {
    let e = sqlx::migrate::MigrateError::VersionMissing(42);
    let original = e.to_string();
    let wrapped = AppError::from_migrate(e);
    assert!(matches!(wrapped, AppError::Migrate(_)));
    assert!(wrapped.message().contains(&original));
    assert_eq!(wrapped.kind_label(), "migration");
}

#[test]
fn from_env_error_message_is_preserved() {
    let parse = "//bad//".parse::<Directive>().unwrap_err();
    let e = tracing_subscriber::filter::FromEnvError::from(parse);
    let original = e.to_string();
    let wrapped = AppError::from_from_env(e);
    assert!(matches!(wrapped, AppError::FromEnv(_)));
    assert!(wrapped.message().contains(&original));
    assert_eq!(wrapped.kind_label(), "log-from-env");
}

#[test]
fn remaining_kinds_classify_and_keep_their_message() {
    let env_filter = AppError::EnvFilter(String::from("variable not unicode"));
    assert_eq!(env_filter.message(), "variable not unicode");
    assert_eq!(env_filter.kind_label(), "log-env-filter");
    let try_init = AppError::TryInit(String::from("global subscriber already set"));
    assert_eq!(try_init.message(), "global subscriber already set");
    assert_eq!(try_init.kind_label(), "log-init");
}

#[test]
fn double_logging_init_is_a_try_init_error() {
    tracing_subscriber::fmt().finish().try_init().unwrap();
    let e = tracing_subscriber::fmt().finish().try_init().unwrap_err();
    let original = e.to_string();
    let wrapped = AppError::from_try_init(e);
    assert!(matches!(wrapped, AppError::TryInit(_)));
    assert!(wrapped.message().contains(&original));
    assert_eq!(wrapped.kind_label(), "log-init");
}
