//! Validation of the two addresses of a transfer.

use crate::ether::{
    address_of, bytes_of, checksum, checksum_text, is_checksum_address, is_valid_address,
    parse_address, EtherAddress, HexError,
};
use crate::services::address::directions::{From, To};
use crate::traits::address::AddressUnit;
use vstd::prelude::*;
use vstd::string::StringExecFns;

pub mod directions;

verus! {

/// Why a pair of addresses was refused.
#[derive(Debug, Clone, PartialEq, Eq)]
pub enum AddressError {
    /// The sender's address breaks its rule.
    InvalidFrom,
    /// The sender's address could not be judged, with the reason.
    FailedFrom(String),
    /// The receiver's address breaks its rule.
    InvalidTo,
    /// The receiver's address could not be judged, with the reason.
    FailedTo(String),
}

/// The text of an error.
pub open spec fn error_text(e: AddressError) -> Seq<char> {
    match e {
        AddressError::InvalidFrom => "Invalid from address"@,
        AddressError::FailedFrom(reason) => "Failed validate from address: "@ + reason@,
        AddressError::InvalidTo => "Invalid to address"@,
        AddressError::FailedTo(reason) => "Failed validate to address: "@ + reason@,
    }
}

impl AddressError {
    /// The text of the error.
    pub fn message(&self) -> (r: String)
        ensures
            r@ == error_text(*self),
    {
        match self {
            AddressError::InvalidFrom => String::from_str("Invalid from address"),
            AddressError::FailedFrom(reason) => String::from_str(
                "Failed validate from address: ",
            ).concat(reason.as_str()),
            AddressError::InvalidTo => String::from_str("Invalid to address"),
            AddressError::FailedTo(reason) => String::from_str(
                "Failed validate to address: ",
            ).concat(reason.as_str()),
        }
    }
}

/// What the two verdicts come to: the sender's is looked at first, and the
/// first that is not a plain yes decides.
pub open spec fn combined(from: Result<bool, String>, to: Result<bool, String>) -> Result<
    (),
    AddressError,
> {
    match from {
        Ok(true) => match to {
            Ok(true) => Ok(()),
            Ok(false) => Err(AddressError::InvalidTo),
            Err(reason) => Err(AddressError::FailedTo(reason)),
        },
        Ok(false) => Err(AddressError::InvalidFrom),
        Err(reason) => Err(AddressError::FailedFrom(reason)),
    }
}

/// The address that a text spells where the text is its checksum form; the
/// error of decoding where it spells none, and a length error where it
/// spells one in another form.
pub open spec fn strict_address(text: Seq<char>) -> Result<Seq<u8>, HexError> {
    match address_of(text) {
        Ok(bytes) => if text == checksum_text(bytes) {
            Ok(bytes)
        } else {
            Err(HexError::InvalidStringLength)
        },
        Err(e) => Err(e),
    }
}

/// The sender's and the receiver's address of a transfer.
pub struct AddressService<'a> {
    from: Box<dyn AddressUnit + 'a>,
    to: Box<dyn AddressUnit + 'a>,
}

impl<'a> AddressService<'a> {
    /// The sender's address text.
    pub closed spec fn from_text(&self) -> Seq<char> {
        self.from.text()
    }

    /// The receiver's address text.
    pub closed spec fn to_text(&self) -> Seq<char> {
        self.to.text()
    }

    /// What the sender's rule says of its address.
    pub closed spec fn from_verdict(&self) -> Result<bool, String> {
        self.from.verdict()
    }

    /// What the receiver's rule says of its address.
    pub closed spec fn to_verdict(&self) -> Result<bool, String> {
        self.to.verdict()
    }

    /// A transfer from `from` to `to`: the sender's address must be in
    /// checksum form, the receiver's must spell an address.
    pub fn new(from: &'a str, to: &'a str) -> (r: Self)
        ensures
            r.from_text() == from@,
            r.to_text() == to@,
            r.from_verdict() == Ok::<bool, String>(is_checksum_address(from@)),
            r.to_verdict() == Ok::<bool, String>(is_valid_address(to@)),
    {
        Self { from: Box::new(From::new(from)), to: Box::new(To::new(to)) }
    }

    /// Judges both addresses, the sender's first.
    pub fn validate(&self) -> (r: Result<(), AddressError>)
        ensures
            r == combined(self.from_verdict(), self.to_verdict()),
    {
        match self.from.validate() {
            Ok(is_valid) => {
                match is_valid {
                    true => {},
                    false => {
                        return Err(AddressError::InvalidFrom);
                    },
                }
            },
            Err(e) => {
                return Err(AddressError::FailedFrom(e));
            },
        };
        match self.to.validate() {
            Ok(is_valid) => {
                match is_valid {
                    true => {},
                    false => {
                        return Err(AddressError::InvalidTo);
                    },
                }
            },
            Err(e) => {
                return Err(AddressError::FailedTo(e));
            },
        };
        Ok(())
    }

    /// The receiver's address as bytes, where its text is in checksum form.
    pub fn strict_validate(&self) -> (r: Result<[u8; 20], HexError>)
        ensures
            bytes_of(r) == strict_address(self.to_text()),
    {
        match EtherAddress::is_strict_checksum(self.to.get()) {
            true => parse_address(self.to.get()),
            false => {
                let addr = match parse_address(self.to.get()) {
                    Ok(a) => a,
                    Err(e) => {
                        return Err(e);
                    },
                };
                if EtherAddress::is_strict_checksum(checksum(&addr).as_str()) {
                    return Err(HexError::InvalidStringLength);
                }
                Ok(addr)
            },
        }
    }

    /// The sender's address text.
    pub fn get_from(&self) -> (r: &str)
        ensures
            r@ == self.from_text(),
    {
        self.from.get()
    }

    /// The receiver's address text.
    pub fn get_to(&self) -> (r: &str)
        ensures
            r@ == self.to_text(),
    {
        self.to.get()
    }
}

} // verus!
