//! Fixed-point money amounts, sats conversion and address validation for a
//! peer-to-peer exchange flow.

pub mod ether;
pub mod services;
pub mod support;
pub mod traits;
