pub mod circuit_breaker;
pub mod clock;
pub mod config;
pub mod error;
pub mod handlers;
pub mod health;
pub mod metrics;
pub mod rate_limit;
pub mod retry;
pub mod stats;
pub mod table;
pub mod text;
pub mod translate;
pub mod urls;
