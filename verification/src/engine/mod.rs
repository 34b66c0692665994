pub mod domain;
pub mod processors;
