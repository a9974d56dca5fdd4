//! Ed25519 keys, signing and verification, over raw bytes.
use vstd::prelude::*;
use ed25519_dalek::{ExpandedSecretKey, PublicKey, SecretKey, Verifier};
use rand::rngs::OsRng;

verus! {

/// Whether Ed25519 verification accepts `signature` on `message` under `public_key`.
pub uninterp spec fn ed25519_accepts(public_key: Seq<u8>, message: Seq<u8>, signature: Seq<u8>) -> bool;

/// The Ed25519 public key that belongs to a 32-byte secret key.
pub uninterp spec fn ed25519_public_key(secret_key: Seq<u8>) -> Seq<u8>;

/// The Ed25519 signature that a 32-byte secret key gives `message`.
pub uninterp spec fn ed25519_signature(secret_key: Seq<u8>, message: Seq<u8>) -> Seq<u8>;

/// Relies on ed25519_dalek's `SecretKey::generate` with the operating system's
/// generator: 32 random bytes.
#[verifier::external_body]
fn generate_secret_key() -> (r: Vec<u8>)
    ensures
        r@.len() == 32,
{
    let mut csprng = OsRng {};
    SecretKey::generate(&mut csprng).to_bytes().to_vec()
}

/// Relies on ed25519_dalek's `PublicKey::from(&SecretKey)`: the 32-byte public key
/// of a secret key. `SecretKey::from_bytes` fails only on a length other than 32.
#[verifier::external_body]
fn derive_public_key(secret_key: &[u8]) -> (r: Vec<u8>)
    requires
        secret_key@.len() == 32,
    ensures
        r@ == ed25519_public_key(secret_key@),
        r@.len() == 32,
{
    match SecretKey::from_bytes(secret_key) {
        Ok(sk) => PublicKey::from(&sk).to_bytes().to_vec(),
        Err(_) => Vec::new(),
    }
}

/// Relies on ed25519_dalek's `ExpandedSecretKey::sign`: the 64-byte signature of
/// `message` under the secret key and its own public key.
#[verifier::external_body]
fn sign_message(secret_key: &[u8], message: &[u8]) -> (r: Vec<u8>)
    requires
        secret_key@.len() == 32,
    ensures
        r@ == ed25519_signature(secret_key@, message@),
        r@.len() == 64,
{
    match SecretKey::from_bytes(secret_key) {
        Ok(sk) => ExpandedSecretKey::from(&sk).sign(message, &PublicKey::from(&sk)).to_bytes().to_vec(),
        Err(_) => Vec::new(),
    }
}

/// Relies on ed25519_dalek's `Verifier::verify` for `PublicKey`, after parsing the
/// key and the signature from bytes; bytes that do not parse are rejected.
#[verifier::external_body]
fn verify_ed25519(public_key: &[u8], message: &[u8], signature: &[u8]) -> (r: bool)
    ensures
        r == ed25519_accepts(public_key@, message@, signature@),
{
    match (PublicKey::from_bytes(public_key), ed25519_dalek::Signature::from_bytes(signature)) {
        (Ok(pk), Ok(sig)) => pk.verify(message, &sig).is_ok(),
        _ => false,
    }
}

/// Holds one Ed25519 secret key and signs with it.
pub struct SignatureManager {
    secret_key: Vec<u8>,
}

impl SignatureManager {
    #[verifier::type_invariant]
    closed spec fn key_length(&self) -> bool {
        self.secret_key@.len() == 32
    }

    /// The secret key's bytes.
    pub closed spec fn secret(&self) -> Seq<u8> {
        self.secret_key@
    }

    /// A manager with a freshly drawn key.
    pub fn new() -> (r: Self)
        ensures
            r.secret().len() == 32,
    {
        SignatureManager { secret_key: generate_secret_key() }
    }

    /// A manager for a given 32-byte secret key; `None` for any other length.
    pub fn from_secret_key(secret_key: &[u8]) -> (r: Option<Self>)
        ensures
            secret_key@.len() == 32 <==> r is Some,
            r matches Some(m) ==> m.secret() == secret_key@,
    {
        if secret_key.len() == 32 {
            let mut bytes: Vec<u8> = Vec::new();
            let mut i: usize = 0;
            while i < secret_key.len()
                invariant
                    i <= secret_key@.len(),
                    bytes@ == secret_key@.subrange(0, i as int),
                decreases secret_key@.len() - i,
            {
                bytes.push(secret_key[i]);
                i = i + 1;
            }
            proof {
                assert(bytes@ =~= secret_key@);
            }
            Some(SignatureManager { secret_key: bytes })
        } else {
            None
        }
    }

    /// Signs a message with the held key.
    pub fn sign(&self, message: &[u8]) -> (r: Vec<u8>)
        ensures
            r@ == ed25519_signature(self.secret(), message@),
    {
        proof {
            use_type_invariant(self);
        }
        sign_message(self.secret_key.as_slice(), message)
    }

    /// Whether `signature` is a valid signature of `message` under `public_key`.
    pub fn verify(public_key: &[u8], message: &[u8], signature: &[u8]) -> (r: bool)
        ensures
            r == ed25519_accepts(public_key@, message@, signature@),
    {
        verify_ed25519(public_key, message, signature)
    }

    /// The public key of the held secret key.
    pub fn get_public_key(&self) -> (r: Vec<u8>)
        ensures
            r@ == ed25519_public_key(self.secret()),
    {
        proof {
            use_type_invariant(self);
        }
        derive_public_key(self.secret_key.as_slice())
    }

    /// A copy of the secret key's bytes.
    pub fn get_secret_key(&self) -> (r: Vec<u8>)
        ensures
            r@ == self.secret(),
    {
        let mut bytes: Vec<u8> = Vec::new();
        let mut i: usize = 0;
        while i < self.secret_key.len()
            invariant
                i <= self.secret_key@.len(),
                bytes@ == self.secret_key@.subrange(0, i as int),
            decreases self.secret_key@.len() - i,
        {
            bytes.push(self.secret_key[i]);
            i = i + 1;
        }
        proof {
            assert(bytes@ =~= self.secret_key@);
        }
        bytes
    }
}

} // verus!
