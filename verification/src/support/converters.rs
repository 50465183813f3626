//! Conversions from other number types into decimals.

pub mod u256;
