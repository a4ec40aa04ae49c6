//! Unified error taxonomy: a closed set of kinds, one per failure-capable
//! subsystem. Each kind carries the originating subsystem error's rendered
//! message verbatim, so classification never alters the diagnostic text.

use vstd::prelude::*;
use vstd::string::*;

verus! {

/// One kind per failure-capable subsystem. The payload is the underlying
/// error's own message, carried unchanged.
#[derive(Debug)]
pub enum AppError {
    Axum(String),
    Config(String),
    IOError(String),
    DirectiveParseError(String),
    EnvFilter(String),
    FromEnv(String),
    TryInit(String),
    Sqlx(String),
    Migrate(String),
    Redis(String),
    TokenError,
    JsonWebToken(String),
}

/// The diagnostic text of an error: the wrapped subsystem message, unchanged,
/// except for the payload-free token kind, which has a fixed message.
pub open spec fn message_of(e: &AppError) -> Seq<char> {
    match e {
        AppError::Axum(m) => m@,
        AppError::Config(m) => m@,
        AppError::IOError(m) => m@,
        AppError::DirectiveParseError(m) => m@,
        AppError::EnvFilter(m) => m@,
        AppError::FromEnv(m) => m@,
        AppError::TryInit(m) => m@,
        AppError::Sqlx(m) => m@,
        AppError::Migrate(m) => m@,
        AppError::Redis(m) => m@,
        AppError::TokenError => "Error occured when signing or verifying token"@,
        AppError::JsonWebToken(m) => m@,
    }
}

impl AppError {
    pub fn message(&self) -> (r: String)
        ensures
            r@ == message_of(self),
    {
        match self {
            AppError::Axum(m) => m.clone(),
            AppError::Config(m) => m.clone(),
            AppError::IOError(m) => m.clone(),
            AppError::DirectiveParseError(m) => m.clone(),
            AppError::EnvFilter(m) => m.clone(),
            AppError::FromEnv(m) => m.clone(),
            AppError::TryInit(m) => m.clone(),
            AppError::Sqlx(m) => m.clone(),
            AppError::Migrate(m) => m.clone(),
            AppError::Redis(m) => m.clone(),
            AppError::TokenError => String::from_str("Error occured when signing or verifying token"),
            AppError::JsonWebToken(m) => m.clone(),
        }
    }

    /// The subsystem a failure is classified under, for operator filtering.
    pub fn kind_label(&self) -> (r: String)
        ensures
            self is Axum ==> r@ == "http"@,
            self is Config ==> r@ == "config"@,
            self is IOError ==> r@ == "io"@,
            self is DirectiveParseError ==> r@ == "log-directive"@,
            self is EnvFilter ==> r@ == "log-env-filter"@,
            self is FromEnv ==> r@ == "log-from-env"@,
            self is TryInit ==> r@ == "log-init"@,
            self is Sqlx ==> r@ == "database"@,
            self is Migrate ==> r@ == "migration"@,
            self is Redis ==> r@ == "cache"@,
            self is TokenError ==> r@ == "token"@,
            self is JsonWebToken ==> r@ == "token"@,
    {
        match self {
            AppError::Axum(_) => String::from_str("http"),
            AppError::Config(_) => String::from_str("config"),
            AppError::IOError(_) => String::from_str("io"),
            AppError::DirectiveParseError(_) => String::from_str("log-directive"),
            AppError::EnvFilter(_) => String::from_str("log-env-filter"),
            AppError::FromEnv(_) => String::from_str("log-from-env"),
            AppError::TryInit(_) => String::from_str("log-init"),
            AppError::Sqlx(_) => String::from_str("database"),
            AppError::Migrate(_) => String::from_str("migration"),
            AppError::Redis(_) => String::from_str("cache"),
            AppError::TokenError => String::from_str("token"),
            AppError::JsonWebToken(_) => String::from_str("token"),
        }
    }
}

/// Classification is transparent: the message carried by every payload-bearing
/// kind is exactly the wrapped subsystem message, unaltered.
pub proof fn lemma_taxonomy_transparent(e: AppError)
    ensures
        e matches AppError::Axum(m) ==> message_of(&e) == m@,
        e matches AppError::Config(m) ==> message_of(&e) == m@,
        e matches AppError::IOError(m) ==> message_of(&e) == m@,
        e matches AppError::DirectiveParseError(m) ==> message_of(&e) == m@,
        e matches AppError::EnvFilter(m) ==> message_of(&e) == m@,
        e matches AppError::FromEnv(m) ==> message_of(&e) == m@,
        e matches AppError::TryInit(m) ==> message_of(&e) == m@,
        e matches AppError::Sqlx(m) ==> message_of(&e) == m@,
        e matches AppError::Migrate(m) ==> message_of(&e) == m@,
        e matches AppError::Redis(m) ==> message_of(&e) == m@,
        e matches AppError::JsonWebToken(m) ==> message_of(&e) == m@,
{
}

#[verifier::external_type_specification]
#[verifier::external_body]
pub struct ExAxumError(axum::Error);

#[verifier::external_type_specification]
#[verifier::external_body]
pub struct ExIoError(std::io::Error);

#[verifier::external_type_specification]
#[verifier::external_body]
pub struct ExDirectiveParseError(tracing_subscriber::filter::ParseError);

#[verifier::external_type_specification]
#[verifier::external_body]
pub struct ExFromEnvError(tracing_subscriber::filter::FromEnvError);

#[verifier::external_type_specification]
#[verifier::external_body]
pub struct ExTryInitError(tracing_subscriber::util::TryInitError);

#[verifier::external_type_specification]
#[verifier::external_body]
pub struct ExSqlxError(sqlx::Error);

#[verifier::external_type_specification]
#[verifier::external_body]
pub struct ExMigrateError(sqlx::migrate::MigrateError);

#[verifier::external_type_specification]
#[verifier::external_body]
pub struct ExRedisError(redis::RedisError);

#[verifier::external_type_specification]
#[verifier::external_body]
pub struct ExJwtError(jsonwebtoken::errors::Error);

/// Relies on the Display impl of axum::Error to render its message.
#[verifier::external_body]
fn render_axum(e: &axum::Error) -> String {
    format!("{}", e)
}

/// Relies on the Display impl of std::io::Error to render its message.
#[verifier::external_body]
fn render_io(e: &std::io::Error) -> String {
    format!("{}", e)
}

/// Relies on the Display impl of tracing_subscriber::filter::ParseError.
#[verifier::external_body]
fn render_directive_parse(e: &tracing_subscriber::filter::ParseError) -> String {
    format!("{}", e)
}

/// Relies on the Display impl of tracing_subscriber::filter::FromEnvError.
#[verifier::external_body]
fn render_from_env(e: &tracing_subscriber::filter::FromEnvError) -> String {
    format!("{}", e)
}

/// Relies on the Display impl of tracing_subscriber::util::TryInitError.
#[verifier::external_body]
fn render_try_init(e: &tracing_subscriber::util::TryInitError) -> String {
    format!("{}", e)
}

/// Relies on the Display impl of sqlx::Error to render its message.
#[verifier::external_body]
fn render_sqlx(e: &sqlx::Error) -> String {
    format!("{}", e)
}

/// Relies on the Display impl of sqlx::migrate::MigrateError.
#[verifier::external_body]
fn render_migrate(e: &sqlx::migrate::MigrateError) -> String {
    format!("{}", e)
}

/// Relies on the Display impl of redis::RedisError to render its message.
#[verifier::external_body]
fn render_redis(e: &redis::RedisError) -> String {
    format!("{}", e)
}

/// Relies on the Display impl of jsonwebtoken::errors::Error.
#[verifier::external_body]
fn render_jwt(e: &jsonwebtoken::errors::Error) -> String {
    format!("{}", e)
}

impl AppError {
    pub fn from_axum(e: axum::Error) -> (r: AppError)
        ensures
            r is Axum,
    {
        AppError::Axum(render_axum(&e))
    }

    pub fn from_io(e: std::io::Error) -> (r: AppError)
        ensures
            r is IOError,
    {
        AppError::IOError(render_io(&e))
    }

    pub fn from_directive_parse(e: tracing_subscriber::filter::ParseError) -> (r: AppError)
        ensures
            r is DirectiveParseError,
    {
        AppError::DirectiveParseError(render_directive_parse(&e))
    }

    pub fn from_from_env(e: tracing_subscriber::filter::FromEnvError) -> (r: AppError)
        ensures
            r is FromEnv,
    {
        AppError::FromEnv(render_from_env(&e))
    }

    pub fn from_try_init(e: tracing_subscriber::util::TryInitError) -> (r: AppError)
        ensures
            r is TryInit,
    {
        AppError::TryInit(render_try_init(&e))
    }

    pub fn from_sqlx(e: sqlx::Error) -> (r: AppError)
        ensures
            r is Sqlx,
    {
        AppError::Sqlx(render_sqlx(&e))
    }

    pub fn from_migrate(e: sqlx::migrate::MigrateError) -> (r: AppError)
        ensures
            r is Migrate,
    {
        AppError::Migrate(render_migrate(&e))
    }

    pub fn from_redis(e: redis::RedisError) -> (r: AppError)
        ensures
            r is Redis,
    {
        AppError::Redis(render_redis(&e))
    }

    pub fn from_jwt(e: jsonwebtoken::errors::Error) -> (r: AppError)
        ensures
            r is JsonWebToken,
    {
        AppError::JsonWebToken(render_jwt(&e))
    }
}

} // verus!
