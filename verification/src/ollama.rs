pub mod client;
pub mod json;
