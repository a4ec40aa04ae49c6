//! Bootstrap layer of a backend service: environment resolution, layered
//! configuration loading (file text plus environment-variable overlay merged
//! into a typed model), a unified error taxonomy, and the per-request tracing
//! span lifecycle.

pub mod text;
pub mod error;
pub mod config;
pub mod yaml;
pub mod trace;
pub mod app;

pub use app::App;
pub use error::AppError;
