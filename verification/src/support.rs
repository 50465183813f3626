//! Numeric building blocks: decimals, fixed-point money and sats amounts.

pub mod converters;
pub mod decimal;
pub mod generic;
pub mod sat_converter;
pub mod text;
