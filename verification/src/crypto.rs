//! The hash and the signature scheme of node identities: SHA-512 and
//! ed25519.
use ed25519_dalek::Verifier;
use sha2::Digest;
use vstd::prelude::*;

verus! {

/// What SHA-512 gives for `data`.
pub uninterp spec fn spec_sha512(data: Seq<u8>) -> Seq<u8>;

/// The SHA-512 digest of `data`, from `sha2::Sha512::digest`: 64 bytes.
#[verifier::external_body]
pub(crate) fn sha512(data: &[u8]) -> (res: Vec<u8>)
    ensures
        res@ == spec_sha512(data@),
        res@.len() == 64,
{
    sha2::Sha512::digest(data).to_vec()
}

/// Whether `ed25519_dalek::PublicKey::from_bytes` accepts `bytes`: 32 bytes
/// that decompress to a point of the curve.
pub uninterp spec fn spec_public_key_valid(bytes: Seq<u8>) -> bool;

/// Whether `ed25519_dalek::PublicKey::from_bytes` accepts `bytes`; it
/// rejects every length but 32.
#[verifier::external_body]
pub(crate) fn public_key_is_valid(bytes: &[u8]) -> (res: bool)
    ensures
        res == spec_public_key_valid(bytes@),
        res ==> bytes@.len() == 32,
{
    ed25519_dalek::PublicKey::from_bytes(bytes).is_ok()
}

/// Whether `bytes` has the form of an ed25519 signature: 64 bytes, the top
/// three bits of the last one clear.
pub open spec fn signature_well_formed(bytes: Seq<u8>) -> bool {
    bytes.len() == 64 && bytes[63] < 32
}

/// Whether `ed25519_dalek::Signature::try_from` accepts `bytes`; as its
/// source shows, it checks the length and the top three bits of the last
/// byte.
#[verifier::external_body]
pub(crate) fn signature_is_well_formed(bytes: &[u8]) -> (res: bool)
    ensures
        res == signature_well_formed(bytes@),
{
    ed25519_dalek::Signature::try_from(bytes).is_ok()
}

/// Whether `signature` is a valid ed25519 signature of `message` under
/// `public_key`, as `ed25519_dalek::PublicKey::verify` decides.
pub uninterp spec fn spec_ed25519_verify(
    public_key: Seq<u8>,
    message: Seq<u8>,
    signature: Seq<u8>,
) -> bool;

/// Checks `signature` on `message` under `public_key` with
/// `ed25519_dalek::PublicKey::verify`, after reading the key with
/// `PublicKey::from_bytes` and the signature with `Signature::try_from`; a
/// key or a signature that those reject gives `false`.
#[verifier::external_body]
pub(crate) fn ed25519_verify(public_key: &[u8], message: &[u8], signature: &[u8]) -> (res: bool)
    ensures
        res == spec_ed25519_verify(public_key@, message@, signature@),
        res ==> spec_public_key_valid(public_key@) && signature_well_formed(signature@),
{
    match (ed25519_dalek::PublicKey::from_bytes(public_key), ed25519_dalek::Signature::try_from(signature)) {
        (Ok(pk), Ok(sig)) => pk.verify(message, &sig).is_ok(),
        _ => false,
    }
}

/// The two halves of an ed25519 key pair: the secret key and the public key,
/// 32 bytes each.
pub struct NodeKeypair {
    pub secret: Vec<u8>,
    pub public: Vec<u8>,
}

impl NodeKeypair {
    /// Both halves have 32 bytes.
    pub open spec fn wf(&self) -> bool {
        self.secret@.len() == 32 && self.public@.len() == 32
    }
}

/// Reads a key pair with `ed25519_dalek::Keypair::from_bytes`: 64 bytes, the
/// secret key then the public key. As its source shows, it checks the length
/// and that the public half is a valid public key, and keeps both halves as
/// they are.
#[verifier::external_body]
pub(crate) fn keypair_from_bytes(bytes: &[u8]) -> (res: Option<NodeKeypair>)
    ensures
        res is Some <==> (bytes@.len() == 64 && spec_public_key_valid(bytes@.subrange(32, 64))),
        res matches Some(kp) ==> kp.secret@ == bytes@.subrange(0, 32) && kp.public@ == bytes@.subrange(32, 64),
{
    match ed25519_dalek::Keypair::from_bytes(bytes) {
        Ok(kp) => Some(NodeKeypair { secret: kp.secret.to_bytes().to_vec(), public: kp.public.to_bytes().to_vec() }),
        Err(_) => None,
    }
}

} // verus!
