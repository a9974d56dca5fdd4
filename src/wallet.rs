//! A wallet: an Ed25519 key pair written as base64 text.
use vstd::prelude::*;
use crate::signature::{ed25519_public_key, SignatureManager};

verus! {

/// The standard base64 encoding, with padding, of `bytes`.
pub uninterp spec fn base64_of(bytes: Seq<u8>) -> Seq<char>;

/// Relies on `base64::encode`: the standard alphabet with padding.
#[verifier::external_body]
fn base64_encode(bytes: &[u8]) -> (r: String)
    ensures
        r@ == base64_of(bytes@),
{
    base64::encode(bytes)
}

pub struct Wallet {
    /// The public key, base64.
    pub public_key: String,
    /// The secret key, base64.
    pub secret_key: String,
}

impl Wallet {
    /// The wallet that holds the key of `manager`.
    pub fn from_manager(manager: &SignatureManager) -> (r: Self)
        ensures
            r.public_key@ == base64_of(ed25519_public_key(manager.secret())),
            r.secret_key@ == base64_of(manager.secret()),
    {
        let public = manager.get_public_key();
        let secret = manager.get_secret_key();
        Wallet { public_key: base64_encode(public.as_slice()), secret_key: base64_encode(secret.as_slice()) }
    }
}

} // verus!
