pub mod types;
pub mod estimator;
