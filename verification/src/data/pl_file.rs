//! The content of a prolock file, and the operations on it.
//!
//! The file consists of a readable section (header, bundles and documents)
//! and a cipher text that holds the encrypted secrets; the readable section is
//! the authentication tag of the encryption. Reading and writing the file is
//! left to the caller; this module decides what the content is.
use super::bundle::{cred_refs, Bundle};
use super::bundles::Bundles;
use super::counter::{update_counter_next, UpdateCounter};
use super::cred::Cred;
use super::crypto::{cipher_parts, decrypted};
use super::documents::Documents;
use super::error::PlError;
use super::key::Key;
use super::secrets::Secrets;
use super::sorting::sorted;
use super::transient::{decrypt_secrets, Transient, PBKDF2_ROUNDS};
use vstd::multiset::Multiset;
use vstd::prelude::*;

verus! {

broadcast use vstd::seq_lib::group_to_multiset_ensures;

/// The version of the file format that is written.
pub const CURRENT_FORMAT_VERSION: u8 = 0;

/// The language used where the system's locale cannot be determined.
pub const DEFAULT_LOCALE: &'static str = "en";

/// The comment that precedes the content of every prolock file.
pub const PREFACE: &'static str = "# DO NOT EDIT THIS FILE\n#\n# For security reasons, prolock verifies the integrity of the readable section\n# of this file when decrypting the value of 'secret'.\n# Editing any part of this file renders the file unusable for prolock!\n\n";

/// The header of the readable section.
pub struct FileHeader {
    pub format_version: u8,
    pub language: String,
    pub update_counter: UpdateCounter,
}

/// The readable section of the file; also the authentication tag of the cipher.
pub struct Readable {
    pub header: FileHeader,
    pub bundles: Bundles,
    pub documents: Documents,
}

/// What is written to the file after the preface.
pub struct Stored {
    pub readable: Readable,
    pub cipher: String,
}

/// The status and content of a prolock file.
pub struct PlFile {
    pub file_path: String,
    pub stored: Stored,
    pub o_transient: Option<Transient>,
}

/// Every secret is referred to exactly once, and every reference refers to a
/// stored secret.
pub open spec fn refs_match(refs: Multiset<u64>, secrets: Map<u64, Seq<char>>) -> bool {
    forall|r: u64| #[trigger] refs.count(r) == if secrets.contains_key(r) { 1nat } else { 0nat }
}

impl FileHeader {
    /// A header as read from a file: the update counter shows `counter` next,
    /// or nothing where it is exhausted.
    pub fn new(format_version: u8, language: String, counter: Option<usize>) -> (h: Self)
        ensures
            h.format_version == format_version,
            h.language == language,
            update_counter_next(h.update_counter) == counter,
    {
        let update_counter = match counter {
            Some(n) => UpdateCounter::starting_with(n),
            None => UpdateCounter::exhausted(),
        };
        FileHeader { format_version, language, update_counter }
    }

    /// What the update counter shows next, as written to a file.
    pub fn counter(&self) -> (r: Option<usize>)
        ensures
            r == update_counter_next(self.update_counter),
    {
        self.update_counter.peek()
    }
}

impl Readable {
    /// The references of all bundles and documents.
    pub open spec fn ref_multiset(&self) -> Multiset<u64> {
        self.bundles.all_refs().to_multiset().add(self.documents.all_refs().to_multiset())
    }

    /// Bundles and documents are well formed.
    pub open spec fn wf(&self) -> bool {
        self.bundles.wf() && self.documents.wf()
    }
}

impl PlFile {
    /// The decrypted part, where the file is open with its password.
    pub open spec fn spec_transient(&self) -> Option<Transient> {
        self.o_transient
    }

    /// Bundles and documents are well formed, and so is the decrypted part
    /// where the file is open.
    pub open spec fn sound(&self) -> bool {
        &&& self.stored.readable.wf()
        &&& match self.spec_transient() {
            Some(t) => t.wf(),
            None => true,
        }
    }

    /// The file is sound; where it is open, every stored secret is referred
    /// to exactly once by a bundle or document, and every reference has its
    /// secret. Saving and changing a file asks for this.
    pub open spec fn wf(&self) -> bool {
        &&& self.sound()
        &&& match self.spec_transient() {
            Some(t) => refs_match(self.stored.readable.ref_multiset(), t.secrets()),
            None => true,
        }
    }

    /// Whether the file is open with its password.
    pub open spec fn actionable(&self) -> bool {
        self.spec_transient() is Some
    }

    /// The stored secrets of an open file.
    pub open spec fn secrets(&self) -> Map<u64, Seq<char>> {
        self.spec_transient().unwrap().secrets()
    }

    /// The bundles, by key identity.
    pub open spec fn bundle_map(&self) -> Map<Seq<u8>, (Key, Bundle)> {
        self.stored.readable.bundles@
    }

    /// A new, empty file in the given language, not saved yet.
    pub fn new_initial(file_path: String, language: String) -> (f: Self)
        ensures
            f.wf(),
            !f.actionable(),
            f.file_path@ == file_path@,
            f.stored.readable.header.language@ == language@,
            f.stored.readable.header.format_version == CURRENT_FORMAT_VERSION,
            update_counter_next(f.stored.readable.header.update_counter) == Some(0usize),
            f.stored.readable.bundles@.len() == 0,
            f.stored.readable.documents@.len() == 0,
            f.stored.cipher@.len() == 0,
    {
        PlFile {
            file_path,
            o_transient: None,
            stored: Stored {
                readable: Readable {
                    header: FileHeader {
                        update_counter: UpdateCounter::new(),
                        language,
                        format_version: CURRENT_FORMAT_VERSION,
                    },
                    bundles: Bundles::new(),
                    documents: Documents::new(),
                },
                cipher: String::new(),
            },
        }
    }

    /// A file with the given content as read, not open yet.
    pub fn from_stored(file_path: String, stored: Stored) -> (f: Self)
        requires
            stored.readable.wf(),
        ensures
            f.wf(),
            !f.actionable(),
            f.file_path == file_path,
            f.stored == stored,
    {
        PlFile { file_path, stored, o_transient: None }
    }

    /// The path of the file.
    pub fn file_path(&self) -> (r: &str)
        ensures
            r@ == self.file_path@,
    {
        self.file_path.as_str()
    }

    /// Whether the file has no bundles.
    pub fn is_empty(&self) -> (r: bool)
        requires
            self.wf(),
        ensures
            r == (self.bundle_map().len() == 0),
    {
        self.stored.readable.bundles.is_empty()
    }

    /// The decrypted part, where the file is open.
    pub fn transient(&self) -> (r: Option<&Transient>)
        ensures
            match r {
                Some(t) => self.spec_transient() == Some(*t),
                None => self.spec_transient() is None,
            },
    {
        self.o_transient.as_ref()
    }

    /// The bundles.
    pub fn bundles(&self) -> (r: &Bundles)
        ensures
            *r == self.stored.readable.bundles,
    {
        &self.stored.readable.bundles
    }

    /// The documents.
    pub fn documents(&self) -> (r: &Documents)
        ensures
            *r == self.stored.readable.documents,
    {
        &self.stored.readable.documents
    }

    /// The value that the update counter shows next.
    pub fn update_counter(&self) -> (r: Option<usize>)
        ensures
            r == update_counter_next(self.stored.readable.header.update_counter),
    {
        self.stored.readable.header.update_counter.peek()
    }

    /// Whether there is a bundle with this name.
    pub fn has_bundle(&self, name: &str) -> (r: bool)
        requires
            self.wf(),
        ensures
            r == self.bundle_map().contains_key(super::key::folded(name@)),
    {
        let key = Key::new(name.to_owned());
        self.stored.readable.bundles.contains_key(&key)
    }

    /// Whether the file is open with its password.
    pub fn is_actionable(&self) -> (r: bool)
        ensures
            r == self.actionable(),
    {
        self.o_transient.is_some()
    }

    /// Decrypts the cipher text with the password; the authentication tag is
    /// the serialized readable section. Gives the serialized secrets back.
    pub fn decrypt(&self, password: &str, serialized_readable: &[u8]) -> (r: Result<Vec<u8>, PlError>)
        ensures
            match cipher_parts(self.stored.cipher@) {
                None => r == Err::<Vec<u8>, PlError>(PlError::CipherFormat),
                Some((s, t, n)) => match decrypted(PBKDF2_ROUNDS, s, t, n, serialized_readable@, password@) {
                    Some(plain) => r matches Ok(v) && v@ == plain,
                    None => r == Err::<Vec<u8>, PlError>(PlError::Crypto),
                },
            },
    {
        decrypt_secrets(password, serialized_readable, self.stored.cipher.as_str())
    }

    /// Whether the file holds encrypted secrets, which are to be decrypted
    /// when it is opened; a file that was never saved holds none.
    pub fn has_cipher(&self) -> (r: bool)
        ensures
            r == (self.stored.cipher@.len() > 0),
    {
        !self.stored.cipher.as_str().is_empty()
    }

    /// Opens the file with its password. A file with encrypted secrets opens
    /// with the secrets decrypted from it, given here; a file that was never
    /// saved opens with no secrets, and is to be saved right away, which the
    /// result tells. Whether the secrets match the references of bundles and
    /// documents one to one decides whether the open file is well formed.
    pub fn set_actionable(&mut self, password: String, secrets: Secrets) -> (must_save: bool)
        requires
            old(self).stored.readable.wf(),
        ensures
            final(self).sound(),
            final(self).stored == old(self).stored,
            final(self).file_path == old(self).file_path,
            final(self).actionable(),
            final(self).spec_transient().unwrap().password() == password@,
            must_save == (old(self).stored.cipher@.len() == 0),
            must_save ==> final(self).secrets() == Map::<u64, Seq<char>>::empty(),
            !must_save ==> final(self).secrets() == secrets@,
            final(self).wf() == refs_match(old(self).stored.readable.ref_multiset(), final(self).secrets()),
    {
        let must_save = !self.has_cipher();
        let secrets = if must_save {
            Secrets::new()
        } else {
            secrets
        };
        self.o_transient = Some(Transient::new(password, secrets));
        must_save
    }

    /// Whether the file is well formed: where it is open, whether its secrets
    /// match the references of bundles and documents one to one.
    pub fn is_consistent(&self) -> (r: bool)
        requires
            self.sound(),
        ensures
            r == self.wf(),
    {
        match &self.o_transient {
            Some(t) => self.refs_match_secrets(t),
            None => true,
        }
    }

    /// Whether the references of bundles and documents match the secrets of
    /// `transient` one to one.
    fn refs_match_secrets(&self, transient: &Transient) -> (r: bool)
        ensures
            r == refs_match(self.stored.readable.ref_multiset(), transient.secrets()),
    {
        let mut all = self.stored.readable.bundles.refs();
        let mut docs = self.stored.readable.documents.refs();
        let ghost d0 = docs@;
        all.append(&mut docs);
        proof {
            vstd::seq_lib::lemma_multiset_commutative(self.stored.readable.bundles.all_refs(), d0);
        }
        let used = sorted(&all);
        let provided = transient.refs();
        let ghost ms = self.stored.readable.ref_multiset();
        proof {
            assert(used@.to_multiset() == ms);
            provided@.lemma_multiset_has_no_duplicates();
        }
        let r = vec_eq(&used, &provided);
        proof {
            if r {
                assert forall|x: u64| #[trigger] ms.count(x) == if transient.secrets().contains_key(x) {
                    1nat
                } else {
                    0nat
                } by {
                    assert(provided@.to_set().contains(x) == provided@.contains(x));
                    if !provided@.contains(x) {
                        vstd::seq_lib::to_multiset_contains(provided@, x);
                    } else {
                        vstd::seq_lib::to_multiset_contains(provided@, x);
                    }
                }
            } else {
                if refs_match(ms, transient.secrets()) {
                    assert(used@.to_multiset() =~= provided@.to_multiset()) by {
                        assert forall|x: u64| #[trigger] used@.to_multiset().count(x)
                            == provided@.to_multiset().count(x) by {
                            assert(provided@.to_set().contains(x) == provided@.contains(x));
                            vstd::seq_lib::to_multiset_contains(provided@, x);
                        }
                    }
                    lemma_sorted_same_multiset(used@, provided@);
                }
            }
        }
        r
    }

    /// The language of the file.
    pub fn language(&self) -> (r: &str)
        ensures
            r@ == self.stored.readable.header.language@,
    {
        self.stored.readable.header.language.as_str()
    }

    /// Sets the language; returns whether it changed (and the file needs to be
    /// saved).
    pub fn set_language(&mut self, new_lang: &str) -> (changed: bool)
        requires
            old(self).wf(),
        ensures
            final(self).wf(),
            final(self).stored.readable.header.language@ == new_lang@,
            changed == (old(self).stored.readable.header.language@ != new_lang@),
            final(self).spec_transient() == old(self).spec_transient(),
            final(self).stored.readable.bundles == old(self).stored.readable.bundles,
            final(self).stored.readable.documents == old(self).stored.readable.documents,
    {
        let same = str_eq(self.stored.readable.header.language.as_str(), new_lang);
        if !same {
            self.stored.readable.header.language = new_lang.to_owned();
        }
        !same
    }

    /// Checks the password of an open file.
    pub fn check_password(&self, old_pw: &str) -> (r: Result<(), PlError>)
        requires
            self.actionable(),
        ensures
            r is Ok <==> self.spec_transient().unwrap().password() == old_pw@,
            r matches Err(e) ==> e == PlError::WrongPassword,
    {
        match &self.o_transient {
            Some(t) => {
                if str_eq(t.get_storage_password(), old_pw) {
                    Ok(())
                } else {
                    Err(PlError::WrongPassword)
                }
            },
            None => Err(PlError::WrongPassword),
        }
    }

    /// Replaces the password of an open file, given the current one.
    pub fn change_password(&mut self, old_pw: &str, new_pw: String) -> (r: Result<(), PlError>)
        requires
            old(self).wf(),
            old(self).actionable(),
        ensures
            final(self).wf(),
            final(self).actionable(),
            final(self).stored == old(self).stored,
            final(self).file_path == old(self).file_path,
            final(self).secrets() == old(self).secrets(),
            r is Err ==> *final(self) == *old(self),
            match r {
                Ok(()) => old(self).spec_transient().unwrap().password() == old_pw@
                    && final(self).spec_transient().unwrap().password() == new_pw@,
                Err(e) => e == PlError::WrongPassword && old(self).spec_transient().unwrap().password()
                    != old_pw@ && final(self).spec_transient() == old(self).spec_transient(),
            },
    {
        self.check_password(old_pw)?;
        match self.o_transient.take() {
            Some(mut transient) => {
                transient.set_storage_password(new_pw);
                self.o_transient = Some(transient);
                Ok(())
            },
            None => Ok(()),
        }
    }
}

/// The texts of credentials as given by the user: name and secret.
pub open spec fn cred_texts(creds: Seq<(String, String)>) -> Seq<(Seq<char>, Seq<char>)> {
    creds.map_values(|p: (String, String)| (p.0@, p.1@))
}

/// The credentials resolve, in order, to the given texts.
pub open spec fn creds_show(
    creds: Seq<Cred>,
    secrets: Map<u64, Seq<char>>,
    texts: Seq<(Seq<char>, Seq<char>)>,
) -> bool {
    &&& creds.len() == texts.len()
    &&& forall|i: int|
        0 <= i < creds.len() ==> {
            &&& secrets.contains_key((#[trigger] creds[i]).name.0)
            &&& secrets.contains_key(creds[i].secret.0)
            &&& secrets[creds[i].name.0] == texts[i].0
            &&& secrets[creds[i].secret.0] == texts[i].1
        }
}

impl PlFile {
    /// The file shows a bundle under `id` with the given description and
    /// credential texts.
    pub open spec fn shows_bundle(
        &self,
        id: Seq<u8>,
        description: Seq<char>,
        texts: Seq<(Seq<char>, Seq<char>)>,
    ) -> bool {
        &&& self.bundle_map().contains_key(id)
        &&& self.bundle_map()[id].1.description@ == description
        &&& creds_show(self.bundle_map()[id].1.creds@, self.secrets(), texts)
    }

    /// The documents, by key identity.
    pub open spec fn document_map(&self) -> Map<Seq<u8>, (Key, super::document::Document)> {
        self.stored.readable.documents@
    }

    /// The file shows a document under `id` with the given text.
    pub open spec fn shows_document(&self, id: Seq<u8>, text: Seq<char>) -> bool {
        &&& self.document_map().contains_key(id)
        &&& self.secrets().contains_key(self.document_map()[id].1.secret.0)
        &&& self.secrets()[self.document_map()[id].1.secret.0] == text
    }

    /// Stores the credential texts as new secrets.
    fn make_creds(
        transient: &mut Transient,
        creds: Vec<(String, String)>,
        Ghost(refs): Ghost<Multiset<u64>>,
    ) -> (r: Vec<Cred>)
        requires
            old(transient).wf(),
            old(transient).has_room_for(2 * creds@.len()),
            refs_match(refs, old(transient).secrets()),
        ensures
            final(transient).wf(),
            final(transient).password() == old(transient).password(),
            refs_match(refs.add(cred_refs(r@).to_multiset()), final(transient).secrets()),
            creds_show(r@, final(transient).secrets(), cred_texts(creds@)),
            forall|k: u64| #[trigger] old(transient).secrets().contains_key(k)
                ==> final(transient).secrets().contains_key(k)
                && final(transient).secrets()[k] == old(transient).secrets()[k],
    {
        let mut r: Vec<Cred> = Vec::new();
        let mut i: usize = 0;
        let ghost texts = cred_texts(creds@);
        assert(cred_refs(r@).to_multiset() =~= Multiset::<u64>::empty()) by {
            vstd::seq_lib::to_multiset_len(cred_refs(r@));
        }
        assert(refs.add(Multiset::<u64>::empty()) =~= refs);
        while i < creds.len()
            invariant
                i <= creds@.len(),
                texts == cred_texts(creds@),
                r@.len() == i,
                transient.wf(),
                transient.password() == old(transient).password(),
                transient.has_room_for(2 * (creds@.len() - i) as nat),
                refs_match(refs.add(cred_refs(r@).to_multiset()), transient.secrets()),
                creds_show(r@, transient.secrets(), texts.take(i as int)),
                forall|k: u64| #[trigger] old(transient).secrets().contains_key(k) ==> transient.secrets().contains_key(k)
                    && transient.secrets()[k] == old(transient).secrets()[k],
            decreases creds@.len() - i,
        {
            let ghost before = transient.secrets();
            let ghost before_refs = refs.add(cred_refs(r@).to_multiset());
            let name = creds[i].0.clone();
            let secret = creds[i].1.clone();
            proof {
                assert(transient.has_room_for((2 * (creds@.len() - i - 1)) as nat + 2));
            }
            let c = Cred::new(name, secret, transient);
            let ghost old_r = r@;
            r.push(c);
            proof {
                assert(r@.drop_last() == old_r);
                assert(cred_refs(r@) == cred_refs(old_r).push(c.name.0).push(c.secret.0));
                vstd::seq_lib::to_multiset_build(cred_refs(old_r), c.name.0);
                vstd::seq_lib::to_multiset_build(cred_refs(old_r).push(c.name.0), c.secret.0);
                lemma_match_insert(before_refs, before, c.name.0, creds@[i as int].0@);
                lemma_match_insert(
                    before_refs.insert(c.name.0),
                    before.insert(c.name.0, creds@[i as int].0@),
                    c.secret.0,
                    creds@[i as int].1@,
                );
                assert(refs.add(cred_refs(r@).to_multiset()) =~= before_refs.insert(c.name.0).insert(c.secret.0));
                assert(texts.take(i + 1) =~= texts.take(i as int).push(texts[i as int]));
                assert forall|j: int| 0 <= j < r@.len() implies {
                    &&& transient.secrets().contains_key((#[trigger] r@[j]).name.0)
                    &&& transient.secrets().contains_key(r@[j].secret.0)
                    &&& transient.secrets()[r@[j].name.0] == texts.take(i + 1)[j].0
                    &&& transient.secrets()[r@[j].secret.0] == texts.take(i + 1)[j].1
                } by {
                    if j < i {
                        assert(r@[j] == old_r[j]);
                        assert(before.contains_key(old_r[j].name.0));
                        assert(before.contains_key(old_r[j].secret.0));
                    }
                }
                assert((2 * (creds@.len() - i - 1)) as nat == (2 * (creds@.len() - (i + 1))) as nat);
            }
            i = i + 1;
        }
        assert(texts.take(creds@.len() as int) =~= texts);
        r
    }

    /// Adds a bundle with new secrets for the given credential texts.
    fn add_bundle(&mut self, key: Key, description: String, creds: Vec<(String, String)>) -> (r: Result<
        (),
        PlError,
    >)
        requires
            old(self).wf(),
            old(self).actionable(),
            old(self).spec_transient().unwrap().has_room_for(2 * creds@.len()),
        ensures
            final(self).wf(),
            final(self).actionable(),
            final(self).file_path == old(self).file_path,
            final(self).stored.cipher == old(self).stored.cipher,
            final(self).stored.readable.header == old(self).stored.readable.header,
            final(self).document_map() == old(self).document_map(),
            final(self).spec_transient().unwrap().password() == old(self).spec_transient().unwrap().password(),
            match r {
                Ok(()) => !old(self).bundle_map().contains_key(key.id())
                    && final(self).bundle_map().dom() == old(self).bundle_map().dom().insert(key.id())
                    && final(self).bundle_map()[key.id()].0 == key
                    && final(self).shows_bundle(key.id(), description@, cred_texts(creds@))
                    && forall|id: Seq<u8>| #[trigger] old(self).bundle_map().contains_key(id) ==> final(self).bundle_map()[id] == old(self).bundle_map()[id],
                Err(e) => old(self).bundle_map().contains_key(key.id()) && e is Exists
                    && final(self).bundle_map() == old(self).bundle_map()
                    && final(self).secrets() == old(self).secrets(),
            },
    {
        if self.stored.readable.bundles.contains_key(&key) {
            return Err(PlError::Exists(key.0));
        }
        let ghost old_refs = self.stored.readable.ref_multiset();
        let ghost old_docs = self.stored.readable.documents.all_refs().to_multiset();
        let ghost old_bundles = self.stored.readable.bundles.all_refs().to_multiset();
        let mut transient = match self.o_transient.take() {
            Some(t) => t,
            None => {
                return Err(PlError::PasswordNotAvailable);
            },
        };
        let new_creds = Self::make_creds(&mut transient, creds, Ghost(old_refs));
        let ghost cr = cred_refs(new_creds@).to_multiset();
        let bundle = Bundle::new(description, new_creds);
        let added = self.stored.readable.bundles.add(key, bundle);
        self.o_transient = Some(transient);
        proof {
            assert(added is Ok);
            let new_bundles = self.stored.readable.bundles.all_refs().to_multiset();
            assert(new_bundles == old_bundles.add(cr));
            assert(self.stored.readable.ref_multiset() =~= old_refs.add(cr));
            assert forall|id: Seq<u8>| #[trigger] old(self).bundle_map().contains_key(id) implies self.bundle_map()[id] == old(self).bundle_map()[id] by {
                assert(id != key.id());
            }
            assert(self.bundle_map().dom() =~= old(self).bundle_map().dom().insert(key.id()));
        }
        Ok(())
    }

    /// Removes a bundle and forgets its secrets.
    fn delete_bundle(&mut self, key: &Key) -> (r: Result<(), PlError>)
        requires
            old(self).wf(),
            old(self).actionable(),
        ensures
            final(self).wf(),
            final(self).actionable(),
            final(self).file_path == old(self).file_path,
            final(self).stored.cipher == old(self).stored.cipher,
            final(self).stored.readable.header == old(self).stored.readable.header,
            final(self).document_map() == old(self).document_map(),
            final(self).spec_transient().unwrap().password() == old(self).spec_transient().unwrap().password(),
            forall|c: nat| old(self).spec_transient().unwrap().has_room_for(c) ==> #[trigger] final(self).spec_transient().unwrap().has_room_for(c),
            forall|k: u64| #[trigger] final(self).secrets().contains_key(k) ==> old(self).secrets().contains_key(k)
                && final(self).secrets()[k] == old(self).secrets()[k],
            match r {
                Ok(()) => old(self).bundle_map().contains_key(key.id())
                    && final(self).bundle_map() == old(self).bundle_map().remove(key.id()),
                Err(e) => !old(self).bundle_map().contains_key(key.id()) && e is Missing
                    && final(self).bundle_map() == old(self).bundle_map()
                    && final(self).secrets() == old(self).secrets(),
            },
    {
        let ghost old_docs = self.stored.readable.documents.all_refs().to_multiset();
        let mut transient = match self.o_transient.take() {
            Some(t) => t,
            None => {
                return Err(PlError::PasswordNotAvailable);
            },
        };
        let ghost old_secrets = transient.secrets();
        let ghost old_next = transient.next_ref();
        let removed = self.stored.readable.bundles.remove_bundle_with_refs(key, &mut transient);
        proof {
            if removed is Ok {
                let br = old(self).bundle_map()[key.id()].1.spec_refs();
                let rest = self.stored.readable.bundles.all_refs().to_multiset();
                assert(old(self).stored.readable.ref_multiset() =~= rest.add(old_docs).add(br.to_multiset()));
                lemma_match_remove(rest.add(old_docs), br, old_secrets);
            }
            assert(transient.next_ref() == old_next);
        }
        self.o_transient = Some(transient);
        removed
    }

    /// Adds a bundle under `name` with the given description and credential
    /// texts; the file needs to be saved afterwards. Refused where the name is
    /// empty or taken, and then where the file is not open with its password.
    pub fn save_with_added_bundle(
        &mut self,
        name: String,
        description: String,
        creds: Vec<(String, String)>,
    ) -> (r: Result<(), PlError>)
        requires
            old(self).wf(),
            old(self).actionable() ==> old(self).spec_transient().unwrap().has_room_for(2 * creds@.len()),
        ensures
            final(self).wf(),
            final(self).actionable() == old(self).actionable(),
            final(self).file_path == old(self).file_path,
            final(self).stored.readable.header == old(self).stored.readable.header,
            final(self).document_map() == old(self).document_map(),
            old(self).actionable() ==> final(self).spec_transient().unwrap().password() == old(self).spec_transient().unwrap().password(),
            r is Err ==> *final(self) == *old(self),
            match r {
                Ok(()) => old(self).actionable() && name@.len() > 0 && !old(self).bundle_map().contains_key(super::key::folded(name@))
                    && final(self).bundle_map().len() == old(self).bundle_map().len() + 1
                    && final(self).shows_bundle(super::key::folded(name@), description@, cred_texts(creds@))
                    && final(self).bundle_map()[super::key::folded(name@)].0.0@ == name@
                    && final(self).bundle_map().dom() == old(self).bundle_map().dom().insert(super::key::folded(name@))
                    && forall|id: Seq<u8>| #[trigger] old(self).bundle_map().contains_key(id) ==> final(self).bundle_map()[id] == old(self).bundle_map()[id],
                Err(e) => final(self).bundle_map() == old(self).bundle_map()
                    && final(self).secrets() == old(self).secrets() && ((e is EmptyName && name@.len() == 0) || (
                    e is Exists && name@.len() > 0 && old(self).bundle_map().contains_key(super::key::folded(name@))) || (
                    e is PasswordNotAvailable && name@.len() > 0 && !old(self).bundle_map().contains_key(
                        super::key::folded(name@),
                    ) && !old(self).actionable())),
            },
    {
        if name.as_str().is_empty() {
            return Err(PlError::EmptyName);
        }
        if self.has_bundle(name.as_str()) {
            return Err(PlError::Exists(name));
        }
        if !self.is_actionable() {
            return Err(PlError::PasswordNotAvailable);
        }
        let r = self.add_bundle(Key::new(name), description, creds);
        proof {
            old(self).stored.readable.bundles.lemma_finite();
        }
        r
    }

    /// Removes the bundle under `name` and forgets its secrets; the file
    /// needs to be saved afterwards. Refused where the name is empty or
    /// unknown, and then where the file is not open with its password.
    pub fn save_with_deleted_bundle(&mut self, name: String) -> (r: Result<(), PlError>)
        requires
            old(self).wf(),
        ensures
            final(self).wf(),
            final(self).actionable() == old(self).actionable(),
            final(self).file_path == old(self).file_path,
            final(self).stored.readable.header == old(self).stored.readable.header,
            final(self).document_map() == old(self).document_map(),
            old(self).actionable() ==> final(self).spec_transient().unwrap().password() == old(self).spec_transient().unwrap().password(),
            r is Err ==> *final(self) == *old(self),
            match r {
                Ok(()) => old(self).actionable() && name@.len() > 0 && old(self).bundle_map().contains_key(super::key::folded(name@))
                    && final(self).bundle_map() == old(self).bundle_map().remove(super::key::folded(name@)),
                Err(e) => final(self).bundle_map() == old(self).bundle_map()
                    && final(self).secrets() == old(self).secrets() && ((e is EmptyName && name@.len() == 0) || (
                    e is Missing && name@.len() > 0 && !old(self).bundle_map().contains_key(super::key::folded(name@))) || (
                    e is PasswordNotAvailable && name@.len() > 0 && old(self).bundle_map().contains_key(
                        super::key::folded(name@),
                    ) && !old(self).actionable())),
            },
    {
        if name.as_str().is_empty() {
            return Err(PlError::EmptyName);
        }
        if !self.has_bundle(name.as_str()) {
            return Err(PlError::Missing(name));
        }
        if !self.is_actionable() {
            return Err(PlError::PasswordNotAvailable);
        }
        self.delete_bundle(&Key::new(name))
    }

    /// Replaces the bundle under `orig_name` by one under `name` with the given
    /// description and credential texts; the secrets of the old bundle are
    /// forgotten. The file needs to be saved afterwards. Refused where `name`
    /// is empty, or differs from `orig_name` and is taken, and then where the
    /// file is not open with its password.
    pub fn save_with_updated_bundle(
        &mut self,
        orig_name: &str,
        name: String,
        description: String,
        creds: Vec<(String, String)>,
    ) -> (r: Result<(), PlError>)
        requires
            old(self).wf(),
            old(self).bundle_map().contains_key(super::key::folded(orig_name@)),
            old(self).actionable() ==> old(self).spec_transient().unwrap().has_room_for(2 * creds@.len()),
        ensures
            final(self).wf(),
            final(self).actionable() == old(self).actionable(),
            final(self).file_path == old(self).file_path,
            final(self).stored.readable.header == old(self).stored.readable.header,
            final(self).document_map() == old(self).document_map(),
            old(self).actionable() ==> final(self).spec_transient().unwrap().password() == old(self).spec_transient().unwrap().password(),
            r is Err ==> *final(self) == *old(self),
            match r {
                Ok(()) => old(self).actionable() && name@.len() > 0 && final(self).shows_bundle(super::key::folded(name@), description@, cred_texts(creds@))
                    && (name@ == orig_name@ ==> final(self).bundle_map()[super::key::folded(name@)].0 == old(self).bundle_map()[super::key::folded(name@)].0)
                    && (name@ != orig_name@ ==> final(self).bundle_map()[super::key::folded(name@)].0.0@ == name@)
                    && final(self).bundle_map().dom() == old(self).bundle_map().dom().remove(super::key::folded(orig_name@)).insert(super::key::folded(name@))
                    && forall|id: Seq<u8>| #[trigger] old(self).bundle_map().contains_key(id) && id != super::key::folded(orig_name@)
                        && id != super::key::folded(name@) ==> final(self).bundle_map()[id] == old(self).bundle_map()[id],
                Err(e) => final(self).bundle_map() == old(self).bundle_map()
                    && final(self).secrets() == old(self).secrets() && ((e is EmptyName && name@.len() == 0) || (
                    e is Exists && name@.len() > 0 && name@ != orig_name@ && old(self).bundle_map().contains_key(super::key::folded(name@))) || (
                    e is PasswordNotAvailable && name@.len() > 0 && (name@ == orig_name@
                        || !old(self).bundle_map().contains_key(super::key::folded(name@))) && !old(self).actionable())),
            },
    {
        if name.as_str().is_empty() {
            return Err(PlError::EmptyName);
        }
        let orig = Key::new(orig_name.to_owned());
        let same = str_eq(name.as_str(), orig_name);
        let new_key = if same {
            match self.stored.readable.bundles.stored_key(&orig) {
                Some(k) => k,
                None => Key::new(name),
            }
        } else {
            if self.has_bundle(name.as_str()) {
                return Err(PlError::Exists(name));
            }
            Key::new(name)
        };
        if !self.is_actionable() {
            return Err(PlError::PasswordNotAvailable);
        }
        proof {
            self.stored.readable.bundles.lemma_keys();
        }
        let deleted = self.delete_bundle(&orig);
        proof {
            assert(deleted is Ok);
            assert(self.spec_transient().unwrap().has_room_for(2 * creds@.len()));
            assert(!self.bundle_map().contains_key(new_key.id()));
        }
        let added = self.add_bundle(new_key, description, creds);
        proof {
            assert(added is Ok);
            assert(self.bundle_map().dom() =~= old(self).bundle_map().dom().remove(super::key::folded(orig_name@)).insert(new_key.id()));
        }
        Ok(())
    }
}

impl PlFile {
    /// Adds a document whose text is stored as a new secret.
    fn add_document(&mut self, key: Key, text: String) -> (r: Result<(), PlError>)
        requires
            old(self).wf(),
            old(self).actionable(),
            old(self).spec_transient().unwrap().has_room(),
        ensures
            final(self).wf(),
            final(self).actionable(),
            final(self).file_path == old(self).file_path,
            final(self).stored.cipher == old(self).stored.cipher,
            final(self).stored.readable.header == old(self).stored.readable.header,
            final(self).bundle_map() == old(self).bundle_map(),
            final(self).spec_transient().unwrap().password() == old(self).spec_transient().unwrap().password(),
            match r {
                Ok(()) => !old(self).document_map().contains_key(key.id())
                    && final(self).document_map().dom() == old(self).document_map().dom().insert(key.id())
                    && final(self).document_map()[key.id()].0 == key
                    && final(self).shows_document(key.id(), text@)
                    && forall|id: Seq<u8>| #[trigger] old(self).document_map().contains_key(id) ==> final(self).document_map()[id] == old(self).document_map()[id],
                Err(e) => old(self).document_map().contains_key(key.id()) && e is Exists
                    && final(self).document_map() == old(self).document_map()
                    && final(self).secrets() == old(self).secrets(),
            },
    {
        if self.stored.readable.documents.contains_key(&key) {
            return Err(PlError::Exists(key.0));
        }
        let ghost old_refs = self.stored.readable.ref_multiset();
        let ghost old_docs = self.stored.readable.documents.all_refs().to_multiset();
        let ghost old_bundles = self.stored.readable.bundles.all_refs().to_multiset();
        let mut transient = match self.o_transient.take() {
            Some(t) => t,
            None => {
                return Err(PlError::PasswordNotAvailable);
            },
        };
        let ghost old_secrets = transient.secrets();
        let ghost t = text@;
        let secret = super::secret::Secret::new(text, &mut transient);
        let added = self.stored.readable.documents.add(key, super::document::Document::new(secret));
        self.o_transient = Some(transient);
        proof {
            assert(added is Ok);
            assert(self.stored.readable.ref_multiset() =~= old_refs.insert(secret.0));
            lemma_match_insert(old_refs, old_secrets, secret.0, t);
            assert forall|id: Seq<u8>| #[trigger] old(self).document_map().contains_key(id) implies self.document_map()[id] == old(self).document_map()[id] by {
                assert(id != key.id());
            }
            assert(self.document_map().dom() =~= old(self).document_map().dom().insert(key.id()));
        }
        Ok(())
    }

    /// Removes a document and forgets its text.
    fn delete_document(&mut self, key: &Key) -> (r: Result<(), PlError>)
        requires
            old(self).wf(),
            old(self).actionable(),
        ensures
            final(self).wf(),
            final(self).actionable(),
            final(self).file_path == old(self).file_path,
            final(self).stored.cipher == old(self).stored.cipher,
            final(self).stored.readable.header == old(self).stored.readable.header,
            final(self).bundle_map() == old(self).bundle_map(),
            final(self).spec_transient().unwrap().password() == old(self).spec_transient().unwrap().password(),
            forall|c: nat| old(self).spec_transient().unwrap().has_room_for(c) ==> #[trigger] final(self).spec_transient().unwrap().has_room_for(c),
            forall|k: u64| #[trigger] final(self).secrets().contains_key(k) ==> old(self).secrets().contains_key(k)
                && final(self).secrets()[k] == old(self).secrets()[k],
            match r {
                Ok(()) => old(self).document_map().contains_key(key.id())
                    && final(self).document_map() == old(self).document_map().remove(key.id()),
                Err(e) => !old(self).document_map().contains_key(key.id()) && e is Missing
                    && final(self).document_map() == old(self).document_map()
                    && final(self).secrets() == old(self).secrets(),
            },
    {
        let ghost old_bundles = self.stored.readable.bundles.all_refs().to_multiset();
        let mut transient = match self.o_transient.take() {
            Some(t) => t,
            None => {
                return Err(PlError::PasswordNotAvailable);
            },
        };
        let ghost old_secrets = transient.secrets();
        let ghost old_next = transient.next_ref();
        let removed = self.stored.readable.documents.remove_document_with_ref(key, &mut transient);
        proof {
            if removed is Ok {
                let r = old(self).document_map()[key.id()].1.secret.0;
                let rest = old_bundles.add(self.stored.readable.documents.all_refs().to_multiset());
                assert(old(self).stored.readable.ref_multiset() =~= rest.insert(r));
                lemma_match_remove_one(rest, r, old_secrets);
                assert(self.stored.readable.ref_multiset() == rest);
            }
            assert(transient.next_ref() == old_next);
        }
        self.o_transient = Some(transient);
        removed
    }

    /// Adds a document under `name` with the given text; the file needs to be
    /// saved afterwards. Refused where the name is empty or taken, and then
    /// where the file is not open with its password.
    pub fn save_with_added_document(&mut self, name: String, text: String) -> (r: Result<(), PlError>)
        requires
            old(self).wf(),
            old(self).actionable() ==> old(self).spec_transient().unwrap().has_room(),
        ensures
            final(self).wf(),
            final(self).actionable() == old(self).actionable(),
            final(self).file_path == old(self).file_path,
            final(self).stored.readable.header == old(self).stored.readable.header,
            final(self).bundle_map() == old(self).bundle_map(),
            old(self).actionable() ==> final(self).spec_transient().unwrap().password() == old(self).spec_transient().unwrap().password(),
            r is Err ==> *final(self) == *old(self),
            match r {
                Ok(()) => old(self).actionable() && name@.len() > 0 && !old(self).document_map().contains_key(super::key::folded(name@))
                    && final(self).document_map().len() == old(self).document_map().len() + 1
                    && final(self).shows_document(super::key::folded(name@), text@)
                    && final(self).document_map()[super::key::folded(name@)].0.0@ == name@
                    && final(self).document_map().dom() == old(self).document_map().dom().insert(super::key::folded(name@))
                    && forall|id: Seq<u8>| #[trigger] old(self).document_map().contains_key(id) ==> final(self).document_map()[id] == old(self).document_map()[id],
                Err(e) => final(self).document_map() == old(self).document_map()
                    && final(self).secrets() == old(self).secrets() && ((e is EmptyName && name@.len() == 0) || (
                    e is Exists && name@.len() > 0 && old(self).document_map().contains_key(super::key::folded(name@))) || (
                    e is PasswordNotAvailable && name@.len() > 0 && !old(self).document_map().contains_key(
                        super::key::folded(name@),
                    ) && !old(self).actionable())),
            },
    {
        if name.as_str().is_empty() {
            return Err(PlError::EmptyName);
        }
        let key = Key::new(name);
        if self.stored.readable.documents.contains_key(&key) {
            return Err(PlError::Exists(key.0));
        }
        if !self.is_actionable() {
            return Err(PlError::PasswordNotAvailable);
        }
        let r = self.add_document(key, text);
        proof {
            old(self).stored.readable.documents.lemma_finite();
        }
        r
    }

    /// Removes the document under `name` and forgets its text; the file needs
    /// to be saved afterwards. Refused where the name is empty or unknown, and
    /// then where the file is not open with its password.
    pub fn save_with_deleted_document(&mut self, name: &Key) -> (r: Result<(), PlError>)
        requires
            old(self).wf(),
        ensures
            final(self).wf(),
            final(self).actionable() == old(self).actionable(),
            final(self).file_path == old(self).file_path,
            final(self).stored.readable.header == old(self).stored.readable.header,
            final(self).bundle_map() == old(self).bundle_map(),
            old(self).actionable() ==> final(self).spec_transient().unwrap().password() == old(self).spec_transient().unwrap().password(),
            r is Err ==> *final(self) == *old(self),
            match r {
                Ok(()) => old(self).actionable() && name.text().len() > 0 && old(self).document_map().contains_key(name.id())
                    && final(self).document_map() == old(self).document_map().remove(name.id()),
                Err(e) => final(self).document_map() == old(self).document_map()
                    && final(self).secrets() == old(self).secrets() && ((e is EmptyName && name.text().len() == 0) || (
                    e is Missing && name.text().len() > 0 && !old(self).document_map().contains_key(name.id())) || (
                    e is PasswordNotAvailable && name.text().len() > 0 && old(self).document_map().contains_key(name.id())
                        && !old(self).actionable())),
            },
    {
        if name.is_empty() {
            return Err(PlError::EmptyName);
        }
        if !self.stored.readable.documents.contains_key(name) {
            return Err(PlError::Missing(name.0.clone()));
        }
        if !self.is_actionable() {
            return Err(PlError::PasswordNotAvailable);
        }
        self.delete_document(name)
    }

    /// Replaces the document under `orig` by one under `name` with the given
    /// text; the old text is forgotten. The file needs to be saved afterwards.
    /// Refused where `name` is empty, or differs from `orig` and is taken, and
    /// then where the file is not open with its password.
    pub fn save_with_updated_document(&mut self, orig: &Key, name: Key, text: String) -> (r: Result<(), PlError>)
        requires
            old(self).wf(),
            old(self).document_map().contains_key(orig.id()),
            old(self).actionable() ==> old(self).spec_transient().unwrap().has_room(),
        ensures
            final(self).wf(),
            final(self).actionable() == old(self).actionable(),
            final(self).file_path == old(self).file_path,
            final(self).stored.readable.header == old(self).stored.readable.header,
            final(self).bundle_map() == old(self).bundle_map(),
            old(self).actionable() ==> final(self).spec_transient().unwrap().password() == old(self).spec_transient().unwrap().password(),
            r is Err ==> *final(self) == *old(self),
            match r {
                Ok(()) => old(self).actionable() && name.text().len() > 0 && final(self).shows_document(name.id(), text@)
                    && final(self).document_map()[name.id()].0 == name
                    && final(self).document_map().dom() == old(self).document_map().dom().remove(orig.id()).insert(name.id())
                    && forall|id: Seq<u8>| #[trigger] old(self).document_map().contains_key(id) && id != orig.id()
                        && id != name.id() ==> final(self).document_map()[id] == old(self).document_map()[id],
                Err(e) => final(self).document_map() == old(self).document_map()
                    && final(self).secrets() == old(self).secrets() && ((e is EmptyName && name.text().len() == 0) || (
                    e is Exists && name.text().len() > 0 && name.id() != orig.id() && old(self).document_map().contains_key(name.id())) || (
                    e is PasswordNotAvailable && name.text().len() > 0 && (name.id() == orig.id()
                        || !old(self).document_map().contains_key(name.id())) && !old(self).actionable())),
            },
    {
        if name.is_empty() {
            return Err(PlError::EmptyName);
        }
        if !name.same_as(orig) && self.stored.readable.documents.contains_key(&name) {
            return Err(PlError::Exists(name.0));
        }
        if !self.is_actionable() {
            return Err(PlError::PasswordNotAvailable);
        }
        let deleted = self.delete_document(orig);
        proof {
            assert(deleted is Ok);
            assert(self.spec_transient().unwrap().has_room_for(1));
        }
        let added = self.add_document(name, text);
        proof {
            assert(added is Ok);
            assert(self.document_map().dom() =~= old(self).document_map().dom().remove(orig.id()).insert(name.id()));
        }
        Ok(())
    }
}

/// What the cipher text gives back when opened with the authentication tag
/// and password: nothing where it is malformed or does not authenticate.
pub open spec fn opened(cipher: Seq<char>, auth: Seq<u8>, password: Seq<char>) -> Option<Seq<u8>> {
    match cipher_parts(cipher) {
        Some((s, t, n)) => decrypted(PBKDF2_ROUNDS, s, t, n, auth, password),
        None => None,
    }
}

/// The bundles of two files agree entry by entry (as far as both go): equal
/// keys, equal descriptions, and credentials with equal names and secrets (as
/// far as both go).
pub open spec fn logically_equal(
    a: Seq<(Key, Bundle)>,
    b: Seq<(Key, Bundle)>,
    sa: Map<u64, Seq<char>>,
    sb: Map<u64, Seq<char>>,
) -> bool {
    forall|i: int|
        0 <= i < a.len() && 0 <= i < b.len() ==> {
            &&& (#[trigger] a[i]).0.id() == b[i].0.id()
            &&& a[i].1.description@ == b[i].1.description@
            &&& creds_equal(a[i].1.creds@, b[i].1.creds@, sa, sb)
        }
}

/// Credentials with equal names and secrets, as far as both lists go.
pub open spec fn creds_equal(
    a: Seq<Cred>,
    b: Seq<Cred>,
    sa: Map<u64, Seq<char>>,
    sb: Map<u64, Seq<char>>,
) -> bool {
    forall|j: int|
        0 <= j < a.len() && 0 <= j < b.len() ==> sa[(#[trigger] a[j]).name.0] == sb[b[j].name.0]
            && sa[a[j].secret.0] == sb[b[j].secret.0]
}

impl PlFile {
    /// In an open file every credential of every bundle resolves to stored secrets.
    pub proof fn lemma_creds_resolve(&self)
        requires
            self.wf(),
            self.actionable(),
        ensures
            forall|i: int, j: int|
                0 <= i < self.stored.readable.bundles.entries().len() && 0 <= j
                    < self.stored.readable.bundles.entries()[i].1.creds@.len() ==> {
                    &&& self.secrets().contains_key(
                        (#[trigger] self.stored.readable.bundles.entries()[i].1.creds@[j]).name.0,
                    )
                    &&& self.secrets().contains_key(
                        self.stored.readable.bundles.entries()[i].1.creds@[j].secret.0,
                    )
                },
    {
        broadcast use vstd::multiset::group_multiset_axioms;

        let s = self.stored.readable.bundles.entries();
        assert forall|i: int, j: int| 0 <= i < s.len() && 0 <= j < s[i].1.creds@.len() implies {
            &&& self.secrets().contains_key((#[trigger] s[i].1.creds@[j]).name.0)
            &&& self.secrets().contains_key(s[i].1.creds@[j].secret.0)
        } by {
            let c = s[i].1.creds@[j];
            super::bundle::lemma_cred_refs_contains(s[i].1.creds@, j);
            super::keyed::lemma_refs_of_contains(s, i, super::bundles::bundle_refs(), c.name.0);
            super::keyed::lemma_refs_of_contains(s, i, super::bundles::bundle_refs(), c.secret.0);
            let ms = self.stored.readable.ref_multiset();
            assert(ms.count(c.name.0) > 0);
            assert(ms.count(c.secret.0) > 0);
        }
    }

    /// In an open file the credentials of the bundle under `id` resolve to
    /// stored secrets.
    pub proof fn lemma_bundle_resolves(&self, id: Seq<u8>)
        requires
            self.wf(),
            self.actionable(),
            self.bundle_map().contains_key(id),
        ensures
            forall|j: int| 0 <= j < self.bundle_map()[id].1.creds@.len() ==> {
                &&& self.secrets().contains_key((#[trigger] self.bundle_map()[id].1.creds@[j]).name.0)
                &&& self.secrets().contains_key(self.bundle_map()[id].1.creds@[j].secret.0)
            },
    {
        self.lemma_creds_resolve();
        let i = self.stored.readable.bundles.lemma_entry(id);
        assert forall|j: int| 0 <= j < self.bundle_map()[id].1.creds@.len() implies {
            &&& self.secrets().contains_key((#[trigger] self.bundle_map()[id].1.creds@[j]).name.0)
            &&& self.secrets().contains_key(self.bundle_map()[id].1.creds@[j].secret.0)
        } by {
            assert(self.stored.readable.bundles.entries()[i].1.creds@[j] == self.bundle_map()[id].1.creds@[j]);
        }
    }

    /// In an open file the text of the document under `id` is stored.
    pub proof fn lemma_document_resolves(&self, id: Seq<u8>)
        requires
            self.wf(),
            self.actionable(),
            self.document_map().contains_key(id),
        ensures
            self.secrets().contains_key(self.document_map()[id].1.secret.0),
    {
        broadcast use vstd::multiset::group_multiset_axioms;

        let i = self.stored.readable.documents.lemma_entry(id);
        let s = self.stored.readable.documents.entries();
        let r = s[i].1.secret.0;
        assert(super::documents::document_refs()(s[i].1) =~= seq![r]);
        assert(seq![r].contains(r)) by {
            assert(seq![r][0] == r);
        }
        super::keyed::lemma_refs_of_contains(s, i, super::documents::document_refs(), r);
        assert(self.stored.readable.ref_multiset().count(r) > 0);
    }

    /// Whether this is a file that was never saved (its update counter is at 0).
    pub fn is_new_file(&self) -> (r: bool)
        ensures
            r == (update_counter_next(self.stored.readable.header.update_counter) == Some(0usize)),
    {
        match self.stored.readable.header.update_counter.peek() {
            Some(n) => n == 0,
            None => false,
        }
    }

    /// Refuses to save over a file that was saved by someone else since this
    /// one was read: the update counter of the file on disk must be unchanged.
    pub fn check_not_updated_concurrently(&self, on_disk: Option<usize>) -> (r: Result<(), PlError>)
        ensures
            r is Ok <==> on_disk == update_counter_next(self.stored.readable.header.update_counter),
            r matches Err(e) ==> e == PlError::ConcurrentUpdate,
    {
        let mine = self.stored.readable.header.update_counter.peek();
        let same = match (on_disk, mine) {
            (Some(a), Some(b)) => a == b,
            (None, None) => true,
            _ => false,
        };
        if same {
            Ok(())
        } else {
            Err(PlError::ConcurrentUpdate)
        }
    }

    /// Prepares saving: counts the save and renews the random filler of the
    /// secrets. Refused where the file is not open with its password.
    pub fn begin_save(&mut self) -> (r: Result<(), PlError>)
        requires
            old(self).wf(),
        ensures
            final(self).wf(),
            final(self).file_path == old(self).file_path,
            final(self).stored.cipher == old(self).stored.cipher,
            final(self).stored.readable.header.language == old(self).stored.readable.header.language,
            final(self).stored.readable.header.format_version == old(self).stored.readable.header.format_version,
            final(self).stored.readable.bundles == old(self).stored.readable.bundles,
            final(self).stored.readable.documents == old(self).stored.readable.documents,
            match r {
                Ok(()) => old(self).actionable() && final(self).actionable()
                    && final(self).secrets() == old(self).secrets()
                    && final(self).spec_transient().unwrap().password() == old(self).spec_transient().unwrap().password()
                    && update_counter_next(final(self).stored.readable.header.update_counter) == match update_counter_next(old(self).stored.readable.header.update_counter) {
                        Some(v) => if v < usize::MAX { Some((v + 1) as usize) } else { None },
                        None => None,
                    },
                Err(e) => !old(self).actionable() && e == PlError::PasswordNotAvailable
                    && final(self).stored.readable.header.update_counter == old(self).stored.readable.header.update_counter,
            },
    {
        match self.o_transient.take() {
            None => Err(PlError::PasswordNotAvailable),
            Some(mut transient) => {
                self.stored.readable.header.update_counter.advance();
                transient.prepare();
                self.o_transient = Some(transient);
                Ok(())
            },
        }
    }

    /// Encrypts the serialized secrets with the password of the file, bound to
    /// the serialized readable section, and keeps the result as the cipher
    /// text. The cipher text opens again to exactly these secrets.
    pub fn set_cipher(&mut self, serialized_secrets: &[u8], serialized_readable: &[u8]) -> (r: Result<(), PlError>)
        requires
            old(self).wf(),
            old(self).actionable(),
        ensures
            final(self).wf(),
            final(self).actionable(),
            final(self).file_path == old(self).file_path,
            final(self).stored.readable == old(self).stored.readable,
            final(self).spec_transient() == old(self).spec_transient(),
            match r {
                Ok(()) => opened(final(self).stored.cipher@, serialized_readable@, final(self).spec_transient().unwrap().password())
                    == Some(serialized_secrets@),
                Err(e) => e == PlError::Crypto && final(self).stored.cipher == old(self).stored.cipher,
            },
    {
        let cipher = match &self.o_transient {
            Some(t) => t.as_cipher(serialized_secrets, serialized_readable),
            None => Err(PlError::PasswordNotAvailable),
        };
        match cipher {
            Ok(c) => {
                self.stored.cipher = c;
                Ok(())
            },
            Err(_) => Err(PlError::Crypto),
        }
    }

    /// Whether two open files hold the same bundles with the same secrets, as
    /// far as both go: used to confirm that a written file reads back.
    pub fn equals_logically(&self, other: &PlFile) -> (r: bool)
        requires
            self.wf(),
            self.actionable(),
            other.wf(),
            other.actionable(),
        ensures
            r == logically_equal(
                self.stored.readable.bundles.entries(),
                other.stored.readable.bundles.entries(),
                self.secrets(),
                other.secrets(),
            ),
    {
        proof {
            self.lemma_creds_resolve();
            other.lemma_creds_resolve();
        }
        let (my_transient, other_transient) = match (&self.o_transient, &other.o_transient) {
            (Some(a), Some(b)) => (a, b),
            _ => {
                return false;
            },
        };
        let mine = self.stored.readable.bundles.iter();
        let theirs = other.stored.readable.bundles.iter();
        let ghost sa = self.secrets();
        let ghost sb = other.secrets();
        let mut i: usize = 0;
        while i < mine.len() && i < theirs.len()
            invariant
                mine@ == self.stored.readable.bundles.entries(),
                theirs@ == other.stored.readable.bundles.entries(),
                sa == self.secrets(),
                sb == other.secrets(),
                my_transient.secrets() == sa,
                other_transient.secrets() == sb,
                i <= mine@.len(),
                i <= theirs@.len(),
                forall|a: int, b: int| 0 <= a < mine@.len() && 0 <= b < mine@[a].1.creds@.len() ==> {
                    &&& sa.contains_key((#[trigger] mine@[a].1.creds@[b]).name.0)
                    &&& sa.contains_key(mine@[a].1.creds@[b].secret.0)
                },
                forall|a: int, b: int| 0 <= a < theirs@.len() && 0 <= b < theirs@[a].1.creds@.len() ==> {
                    &&& sb.contains_key((#[trigger] theirs@[a].1.creds@[b]).name.0)
                    &&& sb.contains_key(theirs@[a].1.creds@[b].secret.0)
                },
                logically_equal(mine@.take(i as int), theirs@.take(i as int), sa, sb),
            decreases mine@.len() - i,
        {
            let (k1, b1) = &mine[i];
            let (k2, b2) = &theirs[i];
            if !k1.same_as(k2) || !str_eq(b1.description.as_str(), b2.description.as_str()) {
                assert(!logically_equal(mine@, theirs@, sa, sb)) by {
                    assert(mine@[i as int].0 == *k1);
                }
                return false;
            }
            let c1 = &b1.creds;
            let c2 = &b2.creds;
            let mut j: usize = 0;
            while j < c1.len() && j < c2.len()
                invariant
                    i < mine@.len(),
                    i < theirs@.len(),
                    mine@ == self.stored.readable.bundles.entries(),
                    theirs@ == other.stored.readable.bundles.entries(),
                    sa == self.secrets(),
                    sb == other.secrets(),
                    *c1 == mine@[i as int].1.creds,
                    *c2 == theirs@[i as int].1.creds,
                    my_transient.secrets() == sa,
                    other_transient.secrets() == sb,
                    j <= c1@.len(),
                    j <= c2@.len(),
                    forall|b: int| 0 <= b < c1@.len() ==> sa.contains_key((#[trigger] c1@[b]).name.0) && sa.contains_key(c1@[b].secret.0),
                    forall|b: int| 0 <= b < c2@.len() ==> sb.contains_key((#[trigger] c2@[b]).name.0) && sb.contains_key(c2@[b].secret.0),
                    creds_equal(c1@.take(j as int), c2@.take(j as int), sa, sb),
                decreases c1@.len() - j,
            {
                let x = &c1[j];
                let y = &c2[j];
                if !str_eq(x.name(my_transient), y.name(other_transient)) || !str_eq(x.secret(my_transient), y.secret(other_transient)) {
                    assert(!creds_equal(c1@, c2@, sa, sb)) by {
                        assert(c1@[j as int] == *x);
                    }
                    assert(!logically_equal(mine@, theirs@, sa, sb)) by {
                        if logically_equal(mine@, theirs@, sa, sb) {
                            let t = mine@[i as int];
                            assert(creds_equal(t.1.creds@, theirs@[i as int].1.creds@, sa, sb));
                            assert(t.1.creds@ == c1@);
                            assert(theirs@[i as int].1.creds@ == c2@);
                        }
                    }
                    return false;
                }
                j = j + 1;
                assert forall|b: int| 0 <= b < j && 0 <= b < j implies sa[(#[trigger] c1@.take(j as int)[b]).name.0] == sb[c2@.take(j as int)[b].name.0]
                    && sa[c1@.take(j as int)[b].secret.0] == sb[c2@.take(j as int)[b].secret.0] by {
                    if b < j - 1 {
                        assert(c1@.take(j as int)[b] == c1@.take(j - 1)[b]);
                        assert(c2@.take(j as int)[b] == c2@.take(j - 1)[b]);
                    }
                }
            }
            assert(creds_equal(c1@, c2@, sa, sb)) by {
                if j == c1@.len() {
                    assert(c1@.take(j as int) =~= c1@);
                    assert forall|b: int| 0 <= b < c1@.len() && 0 <= b < c2@.len() implies sa[(#[trigger] c1@[b]).name.0] == sb[c2@[b].name.0]
                        && sa[c1@[b].secret.0] == sb[c2@[b].secret.0] by {
                        assert(c1@.take(j as int)[b] == c1@[b]);
                        assert(c2@.take(j as int)[b] == c2@[b]);
                    }
                } else {
                    assert forall|b: int| 0 <= b < c1@.len() && 0 <= b < c2@.len() implies sa[(#[trigger] c1@[b]).name.0] == sb[c2@[b].name.0]
                        && sa[c1@[b].secret.0] == sb[c2@[b].secret.0] by {
                        assert(c1@.take(j as int)[b] == c1@[b]);
                        assert(c2@.take(j as int)[b] == c2@[b]);
                    }
                }
            }
            i = i + 1;
            assert forall|a: int| 0 <= a < i && 0 <= a < i implies {
                &&& (#[trigger] mine@.take(i as int)[a]).0.id() == theirs@.take(i as int)[a].0.id()
                &&& mine@.take(i as int)[a].1.description@ == theirs@.take(i as int)[a].1.description@
                &&& creds_equal(mine@.take(i as int)[a].1.creds@, theirs@.take(i as int)[a].1.creds@, sa, sb)
            } by {
                assert(mine@.take(i as int)[a] == mine@[a]);
                assert(theirs@.take(i as int)[a] == theirs@[a]);
                if a < i - 1 {
                    assert(mine@.take(i - 1)[a] == mine@[a]);
                    assert(theirs@.take(i - 1)[a] == theirs@[a]);
                }
            }
        }
        assert forall|a: int| 0 <= a < mine@.len() && 0 <= a < theirs@.len() implies {
            &&& (#[trigger] mine@[a]).0.id() == theirs@[a].0.id()
            &&& mine@[a].1.description@ == theirs@[a].1.description@
            &&& creds_equal(mine@[a].1.creds@, theirs@[a].1.creds@, sa, sb)
        } by {
            assert(mine@.take(i as int)[a] == mine@[a]);
            assert(theirs@.take(i as int)[a] == theirs@[a]);
        }
        true
    }
}

/// `char::is_whitespace`: the characters with the Unicode property White_Space.
pub open spec fn is_white(c: char) -> bool {
    ('\u{9}' <= c && c <= '\u{d}') || c == ' ' || c == '\u{85}' || c == '\u{a0}' || c == '\u{1680}'
        || ('\u{2000}' <= c && c <= '\u{200a}') || c == '\u{2028}' || c == '\u{2029}' || c
        == '\u{202f}' || c == '\u{205f}' || c == '\u{3000}'
}

/// Whether `c` is white space (as `char::is_whitespace` says).
pub fn white(c: char) -> (r: bool)
    ensures
        r == is_white(c),
{
    ('\u{9}' <= c && c <= '\u{d}') || c == ' ' || c == '\u{85}' || c == '\u{a0}' || c == '\u{1680}'
        || ('\u{2000}' <= c && c <= '\u{200a}') || c == '\u{2028}' || c == '\u{2029}' || c
        == '\u{202f}' || c == '\u{205f}' || c == '\u{3000}'
}

/// The position of the first line break at or after `i`.
pub open spec fn newline_after(s: Seq<char>, i: int) -> Option<int>
    decreases s.len() - i,
{
    if i < 0 || i >= s.len() {
        None
    } else if s[i] == '\n' {
        Some(i)
    } else {
        newline_after(s, i + 1)
    }
}

/// A line break at `j` with none in `[i, j)` is the first one at or after `i`.
proof fn lemma_newline_after_found(s: Seq<char>, i: int, j: int)
    requires
        0 <= i <= j < s.len(),
        s[j] == '\n',
        newline_after(s, i) == newline_after(s, j),
    ensures
        newline_after(s, i) == Some(j),
{
}

/// The position of the first character in `[i, end)` that is not white space.
pub open spec fn first_non_white(s: Seq<char>, i: int, end: int) -> Option<int>
    decreases end - i,
{
    if i < 0 || i >= end {
        None
    } else if is_white(s[i]) {
        first_non_white(s, i + 1, end)
    } else {
        Some(i)
    }
}

/// Whether the line `[start, end)` is empty, white space, or a comment (its
/// first character that is not white space is `#`).
pub open spec fn skippable_line(s: Seq<char>, start: int, end: int) -> bool {
    match first_non_white(s, start, end) {
        None => true,
        Some(k) => s[k] == '#',
    }
}

/// Where the content starts, looking from `start` on: after every complete
/// line (one ended by a line break) that is empty, white space or a comment.
pub open spec fn content_start(s: Seq<char>, start: int) -> int
    decreases s.len() - start,
{
    if start < 0 || start >= s.len() {
        start
    } else {
        match newline_after(s, start) {
            None => start,
            Some(j) => if start <= j < s.len() && skippable_line(s, start, j) {
                content_start(s, j + 1)
            } else {
                start
            },
        }
    }
}

/// The file content without the leading empty lines and comment lines (the
/// preface); the last line is kept even where it is empty or a comment,
/// unless it ends with a line break.
pub fn skip_over_comments_and_empty_lines(file_content: &str) -> (r: &str)
    ensures
        r@ == file_content@.skip(content_start(file_content@, 0)),
{
    let ghost s = file_content@;
    let n = file_content.unicode_len();
    let mut start: usize = 0;
    loop
        invariant
            s == file_content@,
            n == s.len(),
            start <= n,
            content_start(s, 0) == content_start(s, start as int),
        ensures
            start <= n,
            content_start(s, 0) == start,
        decreases n - start,
    {
        if start >= n {
            break;
        }
        let mut j: usize = start;
        while j < n && file_content.get_char(j) != '\n'
            invariant
                s == file_content@,
                n == s.len(),
                start <= j <= n,
                start < n,
                newline_after(s, start as int) == newline_after(s, j as int),
            decreases n - j,
        {
            j = j + 1;
        }
        if j >= n {
            break;
        }
        proof {
            lemma_newline_after_found(s, start as int, j as int);
        }
        let mut k: usize = start;
        while k < j && white(file_content.get_char(k))
            invariant
                s == file_content@,
                n == s.len(),
                start <= k <= j,
                j < n,
                first_non_white(s, start as int, j as int) == first_non_white(s, k as int, j as int),
            decreases j - k,
        {
            k = k + 1;
        }
        if k < j && file_content.get_char(k) != '#' {
            break;
        }
        start = j + 1;
    }
    file_content.substring_char(start, n)
}

/// Dropping one reference together with the secret it refers to keeps
/// references and secrets matched.
proof fn lemma_match_remove_one(rest: Multiset<u64>, r: u64, secrets: Map<u64, Seq<char>>)
    requires
        refs_match(rest.insert(r), secrets),
    ensures
        refs_match(rest, secrets.remove(r)),
{
    broadcast use vstd::multiset::group_multiset_axioms;

    assert forall|x: u64| #[trigger] rest.count(x) == if secrets.remove(r).contains_key(x) {
        1nat
    } else {
        0nat
    } by {
        assert(rest.insert(r).count(x) == if secrets.contains_key(x) { 1nat } else { 0nat });
    }
}

/// Adding a fresh secret together with one reference to it keeps references
/// and secrets matched.
proof fn lemma_match_insert(refs: Multiset<u64>, secrets: Map<u64, Seq<char>>, k: u64, v: Seq<char>)
    requires
        refs_match(refs, secrets),
        !secrets.contains_key(k),
    ensures
        refs_match(refs.insert(k), secrets.insert(k, v)),
{
    broadcast use vstd::multiset::group_multiset_axioms;

    assert forall|r: u64| #[trigger] refs.insert(k).count(r) == if secrets.insert(k, v).contains_key(r) {
        1nat
    } else {
        0nat
    } by {
        assert(refs.count(r) == if secrets.contains_key(r) { 1nat } else { 0nat });
    }
}

/// Dropping references together with the secrets they refer to keeps
/// references and secrets matched.
proof fn lemma_match_remove(rest: Multiset<u64>, gone: Seq<u64>, secrets: Map<u64, Seq<char>>)
    requires
        refs_match(rest.add(gone.to_multiset()), secrets),
    ensures
        refs_match(rest, secrets.remove_keys(gone.to_set())),
{
    broadcast use vstd::multiset::group_multiset_axioms;

    assert forall|r: u64| #[trigger] rest.count(r) == if secrets.remove_keys(gone.to_set()).contains_key(r) {
        1nat
    } else {
        0nat
    } by {
        assert(rest.add(gone.to_multiset()).count(r) == if secrets.contains_key(r) { 1nat } else { 0nat });
        if gone.contains(r) {
            vstd::seq_lib::to_multiset_contains(gone, r);
        } else {
            vstd::seq_lib::to_multiset_contains(gone, r);
        }
    }
}

/// Whether two strings are equal.
pub fn str_eq(a: &str, b: &str) -> (r: bool)
    ensures
        r == (a@ == b@),
{
    let x = a.as_bytes();
    let y = b.as_bytes();
    let r = bytes_eq(x, y);
    proof {
        if r {
            vstd::utf8::encode_utf8_decode_utf8(a@);
            vstd::utf8::encode_utf8_decode_utf8(b@);
        }
    }
    r
}

/// Whether two byte strings are equal.
pub fn bytes_eq(a: &[u8], b: &[u8]) -> (r: bool)
    ensures
        r == (a@ == b@),
{
    if a.len() != b.len() {
        return false;
    }
    let mut i: usize = 0;
    while i < a.len()
        invariant
            a.len() == b.len(),
            i <= a.len(),
            forall|j: int| 0 <= j < i ==> a@[j] == b@[j],
        decreases a.len() - i,
    {
        if a[i] != b[i] {
            return false;
        }
        i = i + 1;
    }
    assert(a@ =~= b@);
    true
}

/// Whether two lists are equal.
fn vec_eq(a: &Vec<u64>, b: &Vec<u64>) -> (r: bool)
    ensures
        r == (a@ == b@),
{
    if a.len() != b.len() {
        return false;
    }
    let mut i: usize = 0;
    while i < a.len()
        invariant
            a.len() == b.len(),
            i <= a.len(),
            forall|j: int| 0 <= j < i ==> a@[j] == b@[j],
        decreases a.len() - i,
    {
        if a[i] != b[i] {
            return false;
        }
        i = i + 1;
    }
    assert(a@ =~= b@);
    true
}

/// Two sorted lists with the same elements (with multiplicity) are equal.
proof fn lemma_sorted_same_multiset(a: Seq<u64>, b: Seq<u64>)
    requires
        super::sorting::is_sorted(a),
        super::sorting::is_sorted(b),
        a.to_multiset() == b.to_multiset(),
    ensures
        a == b,
    decreases a.len(),
{
    broadcast use vstd::multiset::group_multiset_axioms;

    vstd::seq_lib::to_multiset_len(a);
    vstd::seq_lib::to_multiset_len(b);
    if a.len() > 0 {
        let x = a.last();
        let y = b.last();
        vstd::seq_lib::to_multiset_contains(a, y);
        vstd::seq_lib::to_multiset_contains(b, x);
        let i = choose|i: int| 0 <= i < a.len() && a[i] == y;
        let j = choose|j: int| 0 <= j < b.len() && b[j] == x;
        assert(y <= x);
        assert(x <= y);
        assert(a =~= a.drop_last().push(x));
        assert(b =~= b.drop_last().push(y));
        vstd::seq_lib::to_multiset_build(a.drop_last(), x);
        vstd::seq_lib::to_multiset_build(b.drop_last(), y);
        assert(a.drop_last().to_multiset() =~= b.drop_last().to_multiset()) by {
            assert(a.drop_last().to_multiset() =~= a.to_multiset().remove(x));
            assert(b.drop_last().to_multiset() =~= b.to_multiset().remove(x));
        }
        lemma_sorted_same_multiset(a.drop_last(), b.drop_last());
    } else {
        assert(a =~= b);
    }
}

/// A file whose cipher was set reads back: once `set_cipher` has encrypted
/// the serialized secrets with the file's password and the serialized
/// readable part, `decrypt` with that password and readable part gives the
/// serialized secrets back.
pub proof fn law_saved_secrets_read_back(f: PlFile, serialized_secrets: Seq<u8>, serialized_readable: Seq<u8>)
    requires
        f.wf(),
        f.actionable(),
        opened(f.stored.cipher@, serialized_readable, f.spec_transient().unwrap().password())
            == Some(serialized_secrets),
    ensures
        cipher_parts(f.stored.cipher@) matches Some((s, t, n)) && decrypted(
            PBKDF2_ROUNDS,
            s,
            t,
            n,
            serialized_readable,
            f.spec_transient().unwrap().password(),
        ) == Some(serialized_secrets),
{
}

/// Deleting the bundle that was just added undoes the addition: the file
/// holds the same bundles and documents as before.
pub proof fn law_delete_undoes_add_bundle(before: PlFile, added: PlFile, deleted: PlFile, name: Seq<char>)
    requires
        !before.bundle_map().contains_key(super::key::folded(name)),
        added.bundle_map().dom() == before.bundle_map().dom().insert(super::key::folded(name)),
        forall|id: Seq<u8>| #[trigger]
            before.bundle_map().contains_key(id) ==> added.bundle_map()[id] == before.bundle_map()[id],
        added.document_map() == before.document_map(),
        deleted.bundle_map() == added.bundle_map().remove(super::key::folded(name)),
        deleted.document_map() == added.document_map(),
    ensures
        deleted.bundle_map() == before.bundle_map(),
        deleted.document_map() == before.document_map(),
{
    assert(deleted.bundle_map() =~= before.bundle_map());
}

/// Deleting the document that was just added undoes the addition: the file
/// holds the same documents and bundles as before.
pub proof fn law_delete_undoes_add_document(before: PlFile, added: PlFile, deleted: PlFile, name: Seq<char>)
    requires
        !before.document_map().contains_key(super::key::folded(name)),
        added.document_map().dom() == before.document_map().dom().insert(super::key::folded(name)),
        forall|id: Seq<u8>| #[trigger]
            before.document_map().contains_key(id) ==> added.document_map()[id] == before.document_map()[id],
        added.bundle_map() == before.bundle_map(),
        deleted.document_map() == added.document_map().remove(super::key::folded(name)),
        deleted.bundle_map() == added.bundle_map(),
    ensures
        deleted.document_map() == before.document_map(),
        deleted.bundle_map() == before.bundle_map(),
{
    assert(deleted.document_map() =~= before.document_map());
}

} // verus!
