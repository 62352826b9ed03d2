pub mod unit;
pub mod utils;
