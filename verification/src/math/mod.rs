pub mod entropy;
pub mod zscore;
