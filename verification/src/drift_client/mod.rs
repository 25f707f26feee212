pub mod amm;
pub mod bigint;
pub mod client;
pub mod orderbook;
pub mod orders;
pub mod program_data;
pub mod remaining;
pub mod trader;
pub mod types;
pub mod utils;
