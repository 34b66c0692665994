pub mod source;
pub mod price;
pub mod trade;
pub mod volatility;

pub use price::Price;
pub use source::Source;
pub use trade::Trade;
pub use volatility::VolatilityEstimate;
