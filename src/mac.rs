//! The message authentication code that signs tokens.

use vstd::prelude::*;

verus! {

/// The HMAC-SHA256 tag of the UTF-8 bytes of `msg` under `key`.
pub uninterp spec fn hmac_sha256(key: Seq<u8>, msg: Seq<char>) -> Seq<u8>;

/// Relies on hmac's `Hmac<Sha256>` (sha2's SHA-256): `KeyInit::new` keyed with a
/// key of the 64-byte block size, `Mac::update` with the UTF-8 bytes of `msg`,
/// and `Mac::finalize` giving the 32-byte tag, which depends on key and message
/// alone.
#[verifier::external_body]
pub(crate) fn hmac_sha256_tag(key: &[u8], msg: &str) -> (r: Vec<u8>)
    requires
        key@.len() == 64,
    ensures
        r@ == hmac_sha256(key@, msg@),
        r@.len() == 32,
{
    let key = hmac::digest::generic_array::GenericArray::from_slice(key);
    let mut mac = <hmac::Hmac<sha2::Sha256> as hmac::digest::KeyInit>::new(key);
    hmac::Mac::update(&mut mac, msg.as_bytes());
    hmac::Mac::finalize(mac).into_bytes().to_vec()
}

} // verus!
