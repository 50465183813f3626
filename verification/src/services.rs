//! The services that an exchange flow asks: bid validation and address
//! validation.

pub mod address;
pub mod converter;
