//! Accounts: a principal and an index name a subaccount.

use vstd::prelude::*;
use candid::Principal;
use sha2::{Digest, Sha256};

verus! {

/// A subaccount: the SHA-256 digest of a principal's bytes followed by the
/// index of the account.
pub type Subaccount = [u8; 32];

/// candid's `Principal`, which the market carries through as it is given:
/// nothing is known of what is inside but its bytes, below.
#[verifier::external_type_specification]
#[verifier::external_body]
pub struct ExPrincipal(Principal);

/// `Principal::clone`, which the type derives beside `Copy`: the clone is
/// the principal itself.
pub assume_specification[ <Principal as Clone>::clone ](principal: &Principal) -> (copy: Principal)
    ensures
        copy == *principal,
;

/// The bytes of a principal, as `Principal::as_slice` gives them.
pub uninterp spec fn principal_bytes(principal: Principal) -> Seq<u8>;

/// The SHA-256 digest of a sequence of bytes.
pub uninterp spec fn sha256(data: Seq<u8>) -> Seq<u8>;

/// `Principal::anonymous`: the anonymous principal, whose only byte is the
/// tag 4.
#[verifier::external_body]
pub(crate) fn anonymous_principal() -> (principal: Principal)
    ensures
        principal_bytes(principal) == seq![4u8],
{
    Principal::anonymous()
}

/// `Principal::as_slice`, copied into a vector: the bytes of the principal.
#[verifier::external_body]
fn principal_to_bytes(principal: &Principal) -> (bytes: Vec<u8>)
    ensures
        bytes@ == principal_bytes(*principal),
{
    principal.as_slice().to_vec()
}

/// `Sha256::digest`: the digest of `data`, which has 32 bytes.
#[verifier::external_body]
fn sha256_digest(data: &Vec<u8>) -> (digest: [u8; 32])
    ensures
        digest@ == sha256(data@),
{
    let hash = Sha256::digest(data);
    let mut digest = [0u8; 32];
    digest.copy_from_slice(&hash[..32]);
    digest
}

/// The bytes that name the account `index` of a principal: the principal's
/// bytes, then the index.
pub open spec fn account_bytes(principal: Principal, index: u8) -> Seq<u8> {
    principal_bytes(principal).push(index)
}

/// The subaccount of the account `index` of a principal.
pub open spec fn subaccount_of(principal: Principal, index: u8) -> Seq<u8> {
    sha256(account_bytes(principal, index))
}

/// The subaccount of the account `index` of a principal, as the 32 bytes
/// that name it in the market.
pub open spec fn subaccount_key(principal: Principal, index: u8) -> Subaccount {
    choose|subaccount: Subaccount| subaccount@ == subaccount_of(principal, index)
}

pub trait UniqueSubAccount {
    /// The principal that the accounts belong to.
    spec fn principal(&self) -> Principal;

    fn _to_subaccount(&self, index: u8) -> (subaccount: Subaccount)
        ensures
            subaccount@ == subaccount_of(self.principal(), index),
            subaccount == subaccount_key(self.principal(), index),
    ;
}

impl UniqueSubAccount for Principal {
    open spec fn principal(&self) -> Principal {
        *self
    }

    fn _to_subaccount(&self, index: u8) -> (subaccount: Subaccount) {
        let mut bytes = principal_to_bytes(self);
        bytes.push(index);
        let subaccount = sha256_digest(&bytes);
        proof {
            let key = subaccount_key(*self, index);
            assert(key@ == subaccount_of(*self, index));
            assert(subaccount@ =~= key@);
            assert(subaccount =~= key);
        }
        subaccount
    }
}

} // verus!
