//! What a contract sees of the host that runs it, and what the host computes for
//! it: hashes, and the XDR of strings and addresses.

use soroban_sdk::xdr::ToXdr;
use vstd::prelude::*;
use vstd::string::*;

use crate::address::Address;
use crate::strkey::{strkey_parts, strkey_round_trip, VERSION_ACCOUNT, VERSION_CONTRACT};
use crate::xdr::{be32, opaque_var_bytes, SCV_ADDRESS, SCV_STRING, SC_ADDR_ACCOUNT, SC_ADDR_CONTRACT};

verus! {

/// The longest text, in bytes, that is handed to the host. The host meters what
/// it is asked to do and stops at its limits, which are above this.
pub const MAX_TEXT: usize = 1_048_576;

/// The ledger time of a call, and who has authorized it.
pub struct Env {
    pub timestamp: u64,
    pub authorized: Vec<Address>,
}

impl Env {
    /// Whether `address` has authorized the call. The host stops a call of which
    /// this does not hold.
    pub open spec fn authorizes(self, address: Address) -> bool {
        self.authorized@.contains(address)
    }

    /// Whether `address` has authorized the call.
    pub fn has_authorized(&self, address: &Address) -> (authorized: bool)
        ensures
            authorized == self.authorizes(*address),
    {
        let mut i: usize = 0;
        while i < self.authorized.len()
            invariant
                i <= self.authorized@.len(),
                forall|k: int| 0 <= k < i ==> self.authorized@[k] != *address,
            decreases self.authorized@.len() - i,
        {
            if self.authorized[i].same(address) {
                return true;
            }
            i = i + 1;
        }
        false
    }
}

/// What `Crypto::sha256` of `soroban_sdk` returns for these bytes.
pub uninterp spec fn sha256_of(data: Seq<u8>) -> Seq<u8>;

/// Calls `Crypto::sha256` of `soroban_sdk` on a host of its own: the SHA-256
/// digest of the bytes, 32 bytes long.
#[verifier::external_body]
pub(crate) fn sha256(data: &[u8]) -> (hash: [u8; 32])
    requires
        data@.len() <= MAX_TEXT + 1024,
    ensures
        hash@ == sha256_of(data@),
{
    let env = soroban_sdk::Env::default();
    let bytes = soroban_sdk::Bytes::from_slice(&env, data);
    env.crypto().sha256(&bytes).to_array()
}

/// Calls `ToXdr::to_xdr` of `soroban_sdk` on a string that holds `text`: the XDR
/// of an `ScVal` of kind string with those bytes.
#[verifier::external_body]
pub(crate) fn string_xdr(text: &str) -> (xdr: Vec<u8>)
    requires
        text.spec_bytes().len() <= MAX_TEXT,
    ensures
        xdr@ == be32(SCV_STRING as nat) + opaque_var_bytes(text.spec_bytes()),
{
    let env = soroban_sdk::Env::default();
    let bytes = soroban_sdk::String::from_str(&env, text).to_xdr(&env);
    let mut xdr = vec![0; bytes.len() as usize];
    bytes.copy_into_slice(&mut xdr);
    xdr
}

/// The XDR of an address with the version and the payload of a strkey.
pub open spec fn strkey_address_xdr(version: u8, payload: Seq<u8>) -> Seq<u8> {
    if version == VERSION_ACCOUNT {
        be32(SC_ADDR_ACCOUNT as nat) + be32(0) + payload
    } else {
        be32(SC_ADDR_CONTRACT as nat) + payload
    }
}

/// Calls `ToXdr::to_xdr` of `soroban_sdk` on the address that
/// `Address::from_str` makes of a strkey of an account or a contract: the XDR of
/// an `ScVal` of kind address with the key that the strkey stands for.
#[verifier::external_body]
pub(crate) fn strkey_xdr(strkey: &str) -> (xdr: Vec<u8>)
    requires
        strkey_parts(strkey.spec_bytes()) is Ok,
        ({
            let version = strkey_parts(strkey.spec_bytes())->Ok_0.0;
            version == VERSION_ACCOUNT || version == VERSION_CONTRACT
        }),
    ensures
        ({
            let (version, payload) = strkey_parts(strkey.spec_bytes())->Ok_0;
            xdr@ == be32(SCV_ADDRESS as nat) + strkey_address_xdr(version, payload)
        }),
{
    let env = soroban_sdk::Env::default();
    let bytes = soroban_sdk::Address::from_str(&env, strkey).to_xdr(&env);
    let mut xdr = vec![0; bytes.len() as usize];
    bytes.copy_into_slice(&mut xdr);
    xdr
}

/// The XDR of an address as an `ScVal`.
pub fn address_xdr(address: &Address) -> (xdr: Vec<u8>)
    ensures
        xdr@ == be32(SCV_ADDRESS as nat) + address.xdr(),
{
    let strkey = address.to_strkey();
    proof {
        match *address {
            Address::Account(key) => {
                strkey_round_trip(VERSION_ACCOUNT, key@);
            },
            Address::Contract(hash) => {
                strkey_round_trip(VERSION_CONTRACT, hash@);
            },
        }
    }
    strkey_xdr(strkey.as_str())
}

} // verus!
