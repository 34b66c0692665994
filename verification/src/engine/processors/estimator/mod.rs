pub mod algos;

pub use algos::VolatilityCalculator;
