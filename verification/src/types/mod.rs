pub mod geyser;
pub mod keyed_account;
pub mod trade;
