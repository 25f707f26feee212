pub mod kagi;
pub mod math;
pub mod ring_buffer;
pub mod timer;
pub mod ring_map;
pub mod account;
pub mod order;
