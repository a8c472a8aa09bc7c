//! Trusted boundary to the asymmetric crypto library and to the random
//! token generator.  Every item here wraps one call of an outside crate;
//! the engine's own logic is verified against these contracts.
//!
//! The contracts describe the crypto library under its default global
//! configuration (key compression and ephemeral-key size), which nothing
//! in this program ever changes; a caller that altered that process-wide
//! configuration elsewhere would void them.

use rand::Rng;
use vstd::prelude::*;

use vstd::utf8::is_ascii_chars;

verus! {

/// What `ecies::decrypt` returns for a secret key and a ciphertext:
/// `Some` of the recovered plaintext, or `None` where decryption fails.
/// Decryption is a function of its two arguments alone.
pub uninterp spec fn decrypted(sk: Seq<u8>, ct: Seq<u8>) -> Option<Seq<u8>>;

/// The serialized public key derived from a serialized secret key, as
/// `ecies::PublicKey::from_secret_key` computes it.
pub uninterp spec fn public_of(sk: Seq<u8>) -> Seq<u8>;

/// Whether `ecies::PublicKey::parse_slice` accepts these bytes, which is
/// the one way `ecies::encrypt` can reject its key argument.
pub uninterp spec fn valid_public_key(pk: Seq<u8>) -> bool;

/// Strict upper bound on the bytes the symmetric cipher backend takes in
/// one call: at the bound and beyond it aborts instead of returning an
/// error, so the wrappers keep such inputs out.
pub const CIPHER_INPUT_LIMIT: usize = 0x7fff_ffff;

/// Relies on `ecies::utils::generate_keypair`: a fresh secp256k1 keypair,
/// serialized to the 32-byte secret form and the 65-byte uncompressed
/// public form; the public half is derived from the secret half and is a
/// key that `ecies::encrypt` accepts.
#[verifier::external_body]
pub fn generate_keys() -> (r: (Vec<u8>, Vec<u8>))
    ensures
        r.0@.len() == 32,
        r.1@.len() == 65,
        r.1@ == public_of(r.0@),
        valid_public_key(r.1@),
{
    let (sk, pk) = ecies::utils::generate_keypair();
    (sk.serialize().to_vec(), pk.serialize().to_vec())
}

/// Relies on `ecies::encrypt`: parsing the key is the one input check on
/// a message the cipher backend takes, so encryption under a key the
/// library accepts succeeds (the symmetric step runs with the derived
/// 32-byte key and a fresh 16-byte nonce); and whatever ciphertext comes
/// back (it is randomized), decrypting it with the matching secret key
/// recovers the message.  The library's private error type is dropped at
/// this boundary.
#[verifier::external_body]
pub fn encrypt_message(pk: &Vec<u8>, msg: &Vec<u8>) -> (r: Option<Vec<u8>>)
    requires
        msg@.len() < CIPHER_INPUT_LIMIT,
    ensures
        valid_public_key(pk@) ==> r is Some,
        r matches Some(ct) ==> forall|sk: Seq<u8>|
            public_of(sk) == pk@ ==> decrypted(sk, ct@) == Some(msg@),
{
    ecies::encrypt(pk.as_slice(), msg.as_slice()).ok()
}

/// Relies on `ecies::decrypt`: on a ciphertext the cipher backend takes,
/// deterministic recovery of the plaintext, or failure, as named by
/// [`decrypted`].  The library's private error type is dropped at this
/// boundary.
#[verifier::external_body]
pub fn decrypt_message(sk: &Vec<u8>, ct: &Vec<u8>) -> (r: Option<Vec<u8>>)
    requires
        ct@.len() < CIPHER_INPUT_LIMIT,
    ensures
        r matches Some(v) ==> decrypted(sk@, ct@) == Some(v@),
        r is None ==> decrypted(sk@, ct@) is None,
{
    ecies::decrypt(sk.as_slice(), ct.as_slice()).ok()
}

/// Whether `c` is an ASCII letter or digit.
pub open spec fn is_alnum_char(c: char) -> bool {
    ('0' <= c <= '9') || ('A' <= c <= 'Z') || ('a' <= c <= 'z')
}

/// A sequence of ASCII letters and digits is an ASCII sequence.
pub proof fn lemma_alnum_ascii(s: Seq<char>)
    requires
        forall|i: int| 0 <= i < s.len() ==> is_alnum_char(#[trigger] s[i]),
    ensures
        is_ascii_chars(s),
{
    assert forall|i: int| 0 <= i < s.len() implies '\0' <= #[trigger] s[i] <= '\u{7f}' by {
        assert(is_alnum_char(s[i]));
    }
}

/// Relies on rand's `Alphanumeric` distribution: ten characters drawn
/// uniformly from the ASCII letters and digits.  Nothing relates one draw
/// to another: a fresh token is random.
#[verifier::external_body]
pub fn fresh_challenge() -> (r: String)
    ensures
        r@.len() == 10,
        forall|i: int| 0 <= i < r@.len() ==> is_alnum_char(#[trigger] r@[i]),
{
    rand::thread_rng().sample_iter(&rand::distributions::Alphanumeric).take(10).map(
        char::from,
    ).collect::<String>()
}

} // verus!
