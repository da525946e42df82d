//! Account and contract addresses.

use vstd::prelude::*;

use crate::strkey::{encode_account_strkey, encode_contract_strkey, strkey_text};
use crate::strkey::{VERSION_ACCOUNT, VERSION_CONTRACT};
use crate::text::same_bytes;
use crate::xdr::be32;
use crate::xdr::{SC_ADDR_ACCOUNT, SC_ADDR_CONTRACT};

verus! {

/// Who may act: an account, by its Ed25519 key, or a contract, by its hash.
#[derive(Clone, Copy, Debug, PartialEq, Eq)]
pub enum Address {
    Account([u8; 32]),
    Contract([u8; 32]),
}

impl Address {
    /// The key of an account, or the hash of a contract.
    pub open spec fn key(self) -> Seq<u8> {
        match self {
            Address::Account(key) => key@,
            Address::Contract(hash) => hash@,
        }
    }

    /// The strkey of the address.
    pub open spec fn text(self) -> Seq<char> {
        match self {
            Address::Account(key) => strkey_text(VERSION_ACCOUNT, key@),
            Address::Contract(hash) => strkey_text(VERSION_CONTRACT, hash@),
        }
    }

    /// The XDR of the address: an account is a public key behind its own tag.
    pub open spec fn xdr(self) -> Seq<u8> {
        match self {
            Address::Account(key) => be32(SC_ADDR_ACCOUNT as nat) + be32(0) + key@,
            Address::Contract(hash) => be32(SC_ADDR_CONTRACT as nat) + hash@,
        }
    }

    /// Whether two addresses are the same.
    pub fn same(&self, other: &Address) -> (same: bool)
        ensures
            same == (*self == *other),
    {
        match (self, other) {
            (Address::Account(a), Address::Account(b)) => {
                let same = same_bytes(a.as_slice(), b.as_slice());
                assert(a@ == b@ ==> *a == *b);
                same
            },
            (Address::Contract(a), Address::Contract(b)) => {
                let same = same_bytes(a.as_slice(), b.as_slice());
                assert(a@ == b@ ==> *a == *b);
                same
            },
            _ => false,
        }
    }

    /// Writes the address as a strkey.
    pub fn to_strkey(&self) -> (text: String)
        ensures
            text@ == self.text(),
    {
        match self {
            Address::Account(key) => encode_account_strkey(key),
            Address::Contract(hash) => encode_contract_strkey(hash),
        }
    }
}

} // verus!
