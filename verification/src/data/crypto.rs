//! Password-based encryption of the secrets, done by the `pwsec` crate.
use pwsec::{ChachaB64, CipherB64};
use vstd::prelude::*;

verus! {

/// `pwsec::Error`, the failure of an encryption or decryption.
#[verifier::external_type_specification]
#[verifier::external_body]
pub struct ExCryptoError(pwsec::Error);

/// The position of the first `:` in `s`, if there is one.
pub open spec fn colon_at(s: Seq<char>) -> Option<int>
    decreases s.len(),
{
    if s.len() == 0 {
        None
    } else if s[0] == ':' {
        Some(0)
    } else {
        match colon_at(s.drop_first()) {
            Some(i) => Some(i + 1),
            None => None,
        }
    }
}

/// The salt, ciphertext and nonce of a cipher text of the form
/// `<salt>:<ciphertext>:<nonce>`: the first three pieces of the text split at
/// each `:`, or nothing where there are fewer than three.
pub open spec fn cipher_parts(s: Seq<char>) -> Option<(Seq<char>, Seq<char>, Seq<char>)> {
    match colon_at(s) {
        None => None,
        Some(i) => {
            let rest = s.skip(i + 1);
            match colon_at(rest) {
                None => None,
                Some(j) => {
                    let last = rest.skip(j + 1);
                    let k = match colon_at(last) {
                        Some(k) => k,
                        None => last.len() as int,
                    };
                    Some((s.take(i), rest.take(j), last.take(k)))
                },
            }
        },
    }
}

/// What `pwsec::ChachaB64::decrypt_auth` gives back for the given number of
/// key-derivation rounds, salt, base64 ciphertext, base64 nonce,
/// authentication tag and password: the plain bytes, or nothing where
/// decoding or authenticated decryption fails.
pub uninterp spec fn decrypted(
    rounds: u32,
    salt: Seq<char>,
    ciphertext: Seq<char>,
    nonce: Seq<char>,
    auth: Seq<u8>,
    pw: Seq<char>,
) -> Option<Seq<u8>>;

/// `pwsec::CipherB64::parse`: splits a cipher text into salt, ciphertext and
/// nonce, as `cipher_parts` states.
#[verifier::external_body]
pub(crate) fn parse_cipher(s: &str) -> (r: Option<(String, String, String)>)
    ensures
        match (r, cipher_parts(s@)) {
            (Some((a, b, c)), Some((x, y, z))) => a@ == x && b@ == y && c@ == z,
            (None, None) => true,
            _ => false,
        },
{
    CipherB64::parse(s).map(|c| (c.salt.to_string(), c.ciphertext.to_string(), c.nonce.to_string()))
}

/// `pwsec::ChachaB64::decrypt_auth` with the given number of rounds: the
/// result is what `decrypted` names for these arguments.
#[verifier::external_body]
pub(crate) fn decrypt_auth(
    rounds: u32,
    salt: &str,
    ciphertext: &str,
    nonce: &str,
    auth: &[u8],
    pw: &str,
) -> (r: Result<Vec<u8>, pwsec::Error>)
    ensures
        match r {
            Ok(v) => decrypted(rounds, salt@, ciphertext@, nonce@, auth@, pw@) == Some(v@),
            Err(_) => decrypted(rounds, salt@, ciphertext@, nonce@, auth@, pw@) is None,
        },
{
    ChachaB64::with_pbkdf2_rounds(rounds).decrypt_auth(CipherB64 { salt, ciphertext, nonce }, auth, pw)
}

/// `pwsec::ChachaB64::encrypt_auth` with the given number of rounds, rendered
/// as `<salt>:<ciphertext>:<nonce>`. Salt and nonce are random, so only this
/// is stated: decrypting the result with the same tag and password gives the
/// secret back (the crate's documented round trip).
#[verifier::external_body]
pub(crate) fn encrypt_auth(rounds: u32, secret: &[u8], auth: &[u8], pw: &str) -> (r: Result<
    String,
    pwsec::Error,
>)
    ensures
        r matches Ok(c) ==> match cipher_parts(c@) {
            Some((s, t, n)) => decrypted(rounds, s, t, n, auth@, pw@) == Some(secret@),
            None => false,
        },
{
    ChachaB64::with_pbkdf2_rounds(rounds).encrypt_auth(secret, auth, pw).map(|c| c.to_string())
}

} // verus!
