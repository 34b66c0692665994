pub mod maintenance;
pub mod market_data;
