//! An address together with the rule that its role puts on it.

use vstd::prelude::*;

verus! {

/// One side of a transfer: an address text, and the rule that decides
/// whether it is acceptable for that side.
pub trait AddressUnit {
    /// The address text.
    spec fn text(&self) -> Seq<char>;

    /// What the rule says of the address: acceptable or not, or the reason
    /// why it could not be judged.
    spec fn verdict(&self) -> Result<bool, String>;

    /// Judges the address.
    fn validate(&self) -> (r: Result<bool, String>)
        ensures
            r == self.verdict(),
    ;

    /// The address text.
    fn get(&self) -> (r: &str)
        ensures
            r@ == self.text(),
    ;
}

} // verus!
