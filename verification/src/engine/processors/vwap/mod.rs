pub mod calculator;
pub mod types;

pub use calculator::VWAPCalculator;
pub use types::VWAPData;
