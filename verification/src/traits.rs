//! The capabilities that the services are built on.

pub mod address;
