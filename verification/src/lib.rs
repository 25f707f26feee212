use vstd::prelude::*;

pub mod backtest;
pub mod bar;
pub mod bytes;
pub mod cache;
pub mod data;
pub mod drift_client;
pub mod drift_cpi;
pub mod graphql;
pub mod math;
pub mod nexus;
pub mod nexus_client;
pub mod ring_buffer;
pub mod trx_builder;
pub mod types;
pub mod utils;

verus! {

} // verus!
