pub mod uniswap;
pub mod swap_log;
