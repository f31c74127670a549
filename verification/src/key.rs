//! Storage keys.

use vstd::prelude::*;
use vstd::string::*;
use crate::address::Address;

verus! {

/// The path of the validity predicate of the account `owner`.
pub open spec fn validity_predicate_path(owner: Seq<char>) -> Seq<char> {
    "#"@ + owner + "/?"@
}

/// The path of the balance that `owner` holds of `token`.
pub open spec fn balance_path(token: Seq<char>, owner: Seq<char>) -> Seq<char> {
    "#"@ + token + "/balance/#"@ + owner
}

/// The path of the public key of the account `owner`.
pub open spec fn public_key_path(owner: Seq<char>) -> Seq<char> {
    "#"@ + owner + "/ed25519_pk"@
}

/// A storage key: the path under which a value is stored.
///
/// Storage and the write log compare keys by their paths and read nothing
/// else from them.
#[derive(Debug)]
pub struct Key {
    path: String,
}

impl View for Key {
    type V = Seq<char>;

    closed spec fn view(&self) -> Seq<char> {
        self.path@
    }
}

impl Clone for Key {
    fn clone(&self) -> (copy: Self)
        ensures
            copy@ == self@,
    {
        Key { path: self.path.clone() }
    }
}

impl Key {
    /// The key with the given path.
    pub fn new(path: String) -> (key: Key)
        ensures
            key@ == path@,
    {
        Key { path }
    }

    /// The key of the validity predicate of the account `owner`.
    pub fn validity_predicate(owner: &Address) -> (key: Key)
        ensures
            key@ == validity_predicate_path(owner@),
    {
        let path = String::from_str("#").concat(owner.as_str()).concat("/?");
        Key { path }
    }

    /// The key of the balance that `owner` holds of `token`.
    pub fn balance(token: &Address, owner: &Address) -> (key: Key)
        ensures
            key@ == balance_path(token@, owner@),
    {
        let path = String::from_str("#").concat(token.as_str()).concat("/balance/#").concat(
            owner.as_str(),
        );
        Key { path }
    }

    /// The key of the public key of the account `owner`.
    pub fn public_key(owner: &Address) -> (key: Key)
        ensures
            key@ == public_key_path(owner@),
    {
        let path = String::from_str("#").concat(owner.as_str()).concat("/ed25519_pk");
        Key { path }
    }

    /// The path of the key.
    pub fn path(&self) -> (path: &str)
        ensures
            path@ == self@,
    {
        self.path.as_str()
    }

    /// Whether two keys have the same path.
    pub fn same(&self, other: &Key) -> (same: bool)
        ensures
            same == (self@ == other@),
    {
        self.path == other.path
    }
}

} // verus!
