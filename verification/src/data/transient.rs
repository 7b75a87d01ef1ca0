//! What only exists while a file is open with its password: the password and
//! the decrypted secrets.
use super::counter::{ref_counter_next, RefCounter};
use super::crypto::{cipher_parts, decrypt_auth, decrypted, encrypt_auth, parse_cipher};
use super::error::PlError;
use super::secrets::Secrets;
use super::sorting::{is_sorted, sorted};
use secstr::SecUtf8;
use vstd::prelude::*;

verus! {

/// The number of PBKDF2 rounds used to derive the key from the password.
pub const PBKDF2_ROUNDS: u32 = 91_232;

/// `secstr::SecUtf8`, a string kept in locked memory.
#[verifier::external_type_specification]
#[verifier::external_body]
pub struct ExSecUtf8(SecUtf8);

/// The text that a `SecUtf8` holds.
pub uninterp spec fn secured_text(s: SecUtf8) -> Seq<char>;

/// `SecUtf8::from`: moves the text into locked memory.
#[verifier::external_body]
fn secure(s: String) -> (r: SecUtf8)
    ensures
        secured_text(r) == s@,
{
    SecUtf8::from(s)
}

/// `SecUtf8::unsecure`: borrows the text.
#[verifier::external_body]
fn unsecure(s: &SecUtf8) -> (r: &str)
    ensures
        r@ == secured_text(*s),
{
    s.unsecure()
}

/// The storage password, the secrets, and the counter that hands out the
/// references of new secrets.
pub struct Transient {
    storage_password: SecUtf8,
    seq_for_secret_refs: RefCounter,
    secrets: Secrets,
}

impl Transient {
    /// The secret values, by reference.
    pub closed spec fn secrets(&self) -> Map<u64, Seq<char>> {
        self.secrets@
    }

    /// The storage password.
    pub closed spec fn password(&self) -> Seq<char> {
        secured_text(self.storage_password)
    }

    /// The reference that the next added secret gets, if any is left.
    pub closed spec fn next_ref(&self) -> Option<u64> {
        ref_counter_next(self.seq_for_secret_refs)
    }

    /// Every stored reference is below the next one to be handed out.
    pub closed spec fn wf(&self) -> bool {
        forall|k: u64| #[trigger] self.secrets@.contains_key(k) ==> match self.next_ref() {
            Some(n) => k < n,
            None => true,
        }
    }

    /// Whether another secret can be added.
    pub open spec fn has_room(&self) -> bool {
        self.next_ref() is Some
    }

    /// Whether `count` more secrets can be added.
    pub open spec fn has_room_for(&self, count: nat) -> bool {
        match self.next_ref() {
            Some(n) => n + count <= u64::MAX + 1,
            None => count == 0,
        }
    }

    /// Opens the given secrets with the given password; new secrets get
    /// references above all existing ones.
    pub fn new(password: String, secrets: Secrets) -> (t: Self)
        ensures
            t.wf(),
            t.secrets() == secrets@,
            t.password() == password@,
            t.has_room() <==> !secrets@.contains_key(u64::MAX),
    {
        let keys = secrets.key_list();
        let seq = RefCounter::after_highest(&keys);
        proof {
            assert forall|k: u64| #[trigger] secrets@.contains_key(k) implies keys@.contains(k) by {
                assert(keys@.to_set().contains(k));
            }
            if keys@.contains(u64::MAX) {
                assert(keys@.to_set().contains(u64::MAX));
            }
        }
        Transient { storage_password: secure(password), seq_for_secret_refs: seq, secrets }
    }

    /// Stores a new secret and returns its reference, which was not in use.
    pub fn add_secret(&mut self, s: String) -> (idx: u64)
        requires
            old(self).wf(),
            old(self).has_room(),
        ensures
            final(self).wf(),
            old(self).next_ref() == Some(idx),
            final(self).next_ref() == (if idx < u64::MAX { Some((idx + 1) as u64) } else { None::<u64> }),
            forall|c: nat| old(self).has_room_for(c + 1) ==> #[trigger] final(self).has_room_for(c),
            !old(self).secrets().contains_key(idx),
            final(self).secrets() == old(self).secrets().insert(idx, s@),
            final(self).password() == old(self).password(),
    {
        let o_idx = self.seq_for_secret_refs.take();
        let idx = match o_idx {
            Some(i) => i,
            None => 0,
        };
        self.secrets.add(idx, s);
        idx
    }

    /// Whether another secret can be added.
    pub fn can_add_secret(&self) -> (r: bool)
        ensures
            r == self.has_room(),
    {
        self.seq_for_secret_refs.peek().is_some()
    }

    /// Whether `count` more secrets can be added.
    pub fn can_add_secrets(&self, count: u64) -> (r: bool)
        ensures
            r == self.has_room_for(count as nat),
    {
        match self.seq_for_secret_refs.peek() {
            Some(n) => (n as u128) + (count as u128) <= (u64::MAX as u128) + 1,
            None => count == 0,
        }
    }

    /// Forgets the secret stored under `idx`.
    pub fn remove_secret(&mut self, idx: u64)
        requires
            old(self).wf(),
        ensures
            final(self).wf(),
            final(self).secrets() == old(self).secrets().remove(idx),
            final(self).password() == old(self).password(),
            final(self).next_ref() == old(self).next_ref(),
    {
        self.secrets.remove(idx);
    }

    /// The secret stored under `idx`.
    pub fn get_secret(&self, idx: u64) -> (r: Option<&String>)
        ensures
            match r {
                Some(v) => self.secrets().contains_key(idx) && v@ == self.secrets()[idx],
                None => !self.secrets().contains_key(idx),
            },
    {
        self.secrets.get(idx)
    }

    /// The references of all stored secrets, in ascending order.
    pub fn refs(&self) -> (r: Vec<u64>)
        ensures
            is_sorted(r@),
            r@.to_set() == self.secrets().dom(),
            r@.no_duplicates(),
    {
        let keys = self.secrets.key_list();
        let r = sorted(&keys);
        proof {
            lemma_same_multiset_same_set(keys@, r@);
        }
        r
    }

    /// Replaces the storage password.
    pub fn set_storage_password(&mut self, new_pw: String)
        requires
            old(self).wf(),
        ensures
            final(self).wf(),
            final(self).password() == new_pw@,
            final(self).secrets() == old(self).secrets(),
            final(self).next_ref() == old(self).next_ref(),
    {
        self.storage_password = secure(new_pw);
    }

    /// The storage password.
    pub fn get_storage_password(&self) -> (r: &str)
        ensures
            r@ == self.password(),
    {
        unsecure(&self.storage_password)
    }

    /// The secrets with their filler, as they are serialized for encryption.
    pub closed spec fn stored_secrets_spec(&self) -> Secrets {
        self.secrets
    }

    /// The secrets, to be serialized for encryption.
    pub fn stored_secrets(&self) -> (r: &Secrets)
        ensures
            r@ == self.secrets(),
            *r == self.stored_secrets_spec(),
    {
        &self.secrets
    }

    /// Renews the random filler of the secrets; done before each encryption.
    pub fn prepare(&mut self)
        requires
            old(self).wf(),
        ensures
            final(self).wf(),
            final(self).secrets() == old(self).secrets(),
            final(self).password() == old(self).password(),
            final(self).next_ref() == old(self).next_ref(),
            20 <= final(self).stored_secrets_spec().filler_len() < 80,
    {
        self.secrets.prepare();
    }

    /// Encrypts the serialized secrets with the storage password, bound to the
    /// given authentication tag (the serialized readable part of the file).
    pub fn as_cipher(&self, serialized_secrets: &[u8], auth_tag: &[u8]) -> (r: Result<String, PlError>)
        ensures
            r matches Ok(c) ==> match cipher_parts(c@) {
                Some((s, t, n)) => decrypted(PBKDF2_ROUNDS, s, t, n, auth_tag@, self.password())
                    == Some(serialized_secrets@),
                None => false,
            },
            r matches Err(e) ==> e is Crypto,
    {
        match encrypt_auth(PBKDF2_ROUNDS, serialized_secrets, auth_tag, unsecure(&self.storage_password)) {
            Ok(c) => Ok(c),
            Err(_) => Err(PlError::Crypto),
        }
    }
}

/// What decrypting `cipher` with `password`, bound to the authentication tag
/// `auth`, gives: the plain bytes, `CipherFormat` where the text is not of
/// the form `<salt>:<ciphertext>:<nonce>`, `Crypto` where decryption fails.
pub open spec fn decryption(password: Seq<char>, auth: Seq<u8>, cipher: Seq<char>) -> Result<Seq<u8>, PlError> {
    match cipher_parts(cipher) {
        None => Err(PlError::CipherFormat),
        Some((s, t, n)) => match decrypted(PBKDF2_ROUNDS, s, t, n, auth, password) {
            Some(plain) => Ok(plain),
            None => Err(PlError::Crypto),
        },
    }
}

/// Decrypts the cipher text of a file with the password, bound to the given
/// authentication tag; gives the serialized secrets back.
pub fn decrypt_secrets(password: &str, auth_tag: &[u8], cipher: &str) -> (r: Result<Vec<u8>, PlError>)
    ensures
        match decryption(password@, auth_tag@, cipher@) {
            Ok(plain) => r matches Ok(v) && v@ == plain,
            Err(e) => r == Err::<Vec<u8>, PlError>(e),
        },
{
    match parse_cipher(cipher) {
        None => Err(PlError::CipherFormat),
        Some((salt, ciphertext, nonce)) => {
            match decrypt_auth(PBKDF2_ROUNDS, salt.as_str(), ciphertext.as_str(), nonce.as_str(), auth_tag, password) {
                Ok(v) => Ok(v),
                Err(_) => Err(PlError::Crypto),
            }
        },
    }
}

/// A new secret gets a reference that no stored secret has: it lies above
/// every stored reference, and the reference handed out after it lies above
/// it in turn, so references are never reused while the file is open.
pub proof fn law_new_reference_is_fresh(t: Transient, idx: u64, s: Seq<char>, after: Option<u64>)
    requires
        t.wf(),
        t.next_ref() == Some(idx),
        after == (if idx < u64::MAX { Some((idx + 1) as u64) } else { None::<u64> }),
    ensures
        forall|k: u64| #[trigger] t.secrets().contains_key(k) ==> k < idx,
        after matches Some(n) ==> idx < n,
        t.secrets().insert(idx, s)[idx] == s,
        forall|k: u64| #[trigger] t.secrets().contains_key(k) ==> t.secrets().insert(idx, s)[k] == t.secrets()[k],
{
}

/// Two lists with the same elements counted with multiplicity hold the same
/// set of elements, and a list without repetitions stays so.
proof fn lemma_same_multiset_same_set(a: Seq<u64>, b: Seq<u64>)
    requires
        a.to_multiset() == b.to_multiset(),
        a.no_duplicates(),
    ensures
        a.to_set() == b.to_set(),
        b.no_duplicates(),
{
    broadcast use vstd::seq_lib::group_to_multiset_ensures;

    assert forall|x: u64| a.to_set().contains(x) == b.to_set().contains(x) by {
        assert(a.contains(x) == (a.to_multiset().count(x) > 0));
        assert(b.contains(x) == (b.to_multiset().count(x) > 0));
    }
    assert(a.to_set() =~= b.to_set());
    a.lemma_multiset_has_no_duplicates();
    b.lemma_multiset_has_no_duplicates_conv();
}

/// Secrets encrypted by `as_cipher` open again: where `as_cipher` gave the
/// cipher text, `decrypt_secrets` with the transient's password and the same
/// authentication tag gives the serialized secrets back.
pub proof fn law_cipher_opens_with_its_password(t: Transient, serialized_secrets: Seq<u8>, auth: Seq<u8>, cipher: Seq<char>)
    requires
        match cipher_parts(cipher) {
            Some((s, c, n)) => decrypted(PBKDF2_ROUNDS, s, c, n, auth, t.password()) == Some(serialized_secrets),
            None => false,
        },
    ensures
        decryption(t.password(), auth, cipher) == Ok::<Seq<u8>, PlError>(serialized_secrets),
{
}

} // verus!
