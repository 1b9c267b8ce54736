//! Fixed-width values that transactions and state are made of.
pub mod bytes;
pub mod u256;
pub mod address;
