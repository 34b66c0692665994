pub mod time;
pub mod text;
pub mod decimal;
pub mod paths;
pub mod error;
pub mod engine;
pub mod config;
pub mod volatility;
pub mod data_sources;
pub mod infrastructure;
pub mod services;
pub mod runtime;
