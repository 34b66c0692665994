pub mod vwap;
pub mod estimator;
