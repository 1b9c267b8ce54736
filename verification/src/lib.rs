//! Verified core of a perpetual-futures orderbook engine that runs beside EVM
//! transactions in a partitioned parallel executor.
pub mod primitives;
pub mod perpdex;
pub mod hybrid;
