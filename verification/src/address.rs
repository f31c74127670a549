//! Account and token addresses.

use vstd::prelude::*;
use vstd::string::*;

verus! {

/// The address of an account or of a token, held in its encoded text form.
///
/// The ledger treats an address as an opaque name: two addresses are the same
/// account exactly when their encoded texts are equal.
#[derive(Debug)]
pub struct Address {
    encoded: String,
}

impl View for Address {
    type V = Seq<char>;

    closed spec fn view(&self) -> Seq<char> {
        self.encoded@
    }
}

impl Clone for Address {
    fn clone(&self) -> (copy: Self)
        ensures
            copy@ == self@,
    {
        Address { encoded: self.encoded.clone() }
    }
}

impl Address {
    /// An address from its encoded text.
    pub fn new(encoded: String) -> (address: Address)
        ensures
            address@ == encoded@,
    {
        Address { encoded }
    }

    /// The encoded text of the address.
    pub fn encode(&self) -> (encoded: String)
        ensures
            encoded@ == self@,
    {
        self.encoded.clone()
    }

    /// The encoded text of the address, borrowed.
    pub fn as_str(&self) -> (encoded: &str)
        ensures
            encoded@ == self@,
    {
        self.encoded.as_str()
    }

    /// Whether two addresses name the same account.
    pub fn same(&self, other: &Address) -> (same: bool)
        ensures
            same == (self@ == other@),
    {
        self.encoded == other.encoded
    }
}

} // verus!
