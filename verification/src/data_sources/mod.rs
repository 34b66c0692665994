pub mod dex;
