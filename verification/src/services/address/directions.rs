//! The two sides of a transfer and their rules: the sender's address must be
//! in checksum form, the receiver's need only spell an address.

use crate::ether::{is_checksum_address, is_valid_address, EtherAddress};
use crate::traits::address::AddressUnit;
use vstd::prelude::*;

verus! {

/// The sending side.
pub struct From<'ba> {
    path: &'ba str,
}

impl<'ba> From<'ba> {
    /// The sending side with address `addr`.
    pub fn new(addr: &'ba str) -> (r: Self)
        ensures
            r.text() == addr@,
    {
        Self { path: addr }
    }
}

impl<'ba> AddressUnit for From<'ba> {
    closed spec fn text(&self) -> Seq<char> {
        self.path@
    }

    open spec fn verdict(&self) -> Result<bool, String> {
        Ok(is_checksum_address(self.text()))
    }

    fn validate(&self) -> (r: Result<bool, String>) {
        Ok(EtherAddress::is_strict_checksum(self.path))
    }

    fn get(&self) -> (r: &str) {
        self.path
    }
}

/// The receiving side.
pub struct To<'ba> {
    path: &'ba str,
}

impl<'ba> To<'ba> {
    /// The receiving side with address `addr`.
    pub fn new(addr: &'ba str) -> (r: Self)
        ensures
            r.text() == addr@,
    {
        Self { path: addr }
    }
}

impl<'ba> AddressUnit for To<'ba> {
    closed spec fn text(&self) -> Seq<char> {
        self.path@
    }

    open spec fn verdict(&self) -> Result<bool, String> {
        Ok(is_valid_address(self.text()))
    }

    fn validate(&self) -> (r: Result<bool, String>) {
        Ok(EtherAddress::is_valid_eth_address(self.path))
    }

    fn get(&self) -> (r: &str) {
        self.path
    }
}

} // verus!
