//! Player identity material: a fresh asymmetric keypair per new client,
//! the compact hex rendering of a ready-made access ciphertext, and the
//! sequential player handle.

use vstd::prelude::*;

use crate::codec::{
    append_dec_u64, ascii_bytes, bytes_hex, dec_digits, hex_string, json_u8s, json_u8_string,
};
use crate::crypto::{decrypted, encrypt_message, generate_keys, public_of, valid_public_key};
use vstd::utf8::is_ascii_chars;

verus! {

/// A player's key material.  The server keeps the decryption key; the
/// encryption key goes to the client, which proves its identity by
/// encrypting the expected plaintexts with it.  `info_key` is a compact
/// hex rendering of one ciphertext of the literal request plaintext.
pub struct PlayerKeys {
    pub decryption_key: Vec<u8>,
    pub encryption_key: Vec<u8>,
    pub info_key: String,
}

impl PlayerKeys {
    /// Consistency of the key material: the serialized pair belongs
    /// together, the public half is a key the cipher accepts (so
    /// encrypting under a stored player's key succeeds), and `info_key`
    /// renders a ciphertext that decrypts, under the decryption key, to
    /// the literal request plaintext.
    pub open spec fn wf(&self) -> bool {
        &&& self.decryption_key@.len() == 32
        &&& self.encryption_key@.len() == 65
        &&& self.encryption_key@ == public_of(self.decryption_key@)
        &&& valid_public_key(self.encryption_key@)
        &&& exists|ct: Seq<u8>|
            self.info_key@ == #[trigger] bytes_hex(ct) && decrypted(self.decryption_key@, ct)
                == Some(ascii_bytes("Request"@))
    }

    /// Issues fresh key material: a new keypair, and the hex rendering of
    /// a ciphertext of the literal request plaintext under the new key.
    pub fn new() -> (r: Self)
        ensures
            r.wf(),
    {
        let (decryption_key, encryption_key) = generate_keys();
        proof {
            reveal_strlit("Request");
            assert(is_ascii_chars("Request"@));
            vstd::string::is_ascii_spec_bytes("Request");
        }
        let message = "Request".as_bytes_vec();
        proof {
            assert(message@ =~= ascii_bytes("Request"@));
        }
        let ciphertext = match encrypt_message(&encryption_key, &message) {
            Some(c) => c,
            None => vstd::pervasive::unreached(),
        };
        let info_key = hex_string(&ciphertext);
        let r = Self { decryption_key, encryption_key, info_key };
        proof {
            assert(decrypted(r.decryption_key@, ciphertext@) == Some(ascii_bytes("Request"@)));
            assert(r.info_key@ == bytes_hex(ciphertext@));
        }
        r
    }

    /// The JSON rendering of the public half, as handed to the client.
    pub fn public_key_string(&self) -> (r: String)
        ensures
            r@ == json_u8s(self.encryption_key@),
    {
        json_u8_string(&self.encryption_key)
    }
}

/// The handle derived from the player counter.
pub fn player_handle(player_count: u32) -> (r: String)
    ensures
        r@ == "player_"@ + dec_digits(player_count as nat),
{
    let mut handle = String::from_str("player_");
    append_dec_u64(&mut handle, player_count as u64);
    handle
}

/// Issues a fresh identity from the current player counter: the handle,
/// the key material, and the counter value to store back.
pub fn issue_identity(player_count: u32) -> (r: (String, PlayerKeys, u32))
    requires
        player_count < u32::MAX,
    ensures
        r.0@ == "player_"@ + dec_digits(player_count as nat),
        r.1.wf(),
        r.2 == player_count + 1,
{
    let handle = player_handle(player_count);
    let keys = PlayerKeys::new();
    (handle, keys, player_count + 1)
}

} // verus!
