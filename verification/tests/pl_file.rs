use prolock::data::bundles::Bundles;
use prolock::data::documents::Documents;
use prolock::data::error::PlError;
use prolock::data::key::Key;
use prolock::data::pl_file::{
    skip_over_comments_and_empty_lines, str_eq, FileHeader, PlFile, Readable, Stored,
    CURRENT_FORMAT_VERSION,
};
use prolock::data::secrets::Secrets;
use std::collections::HashMap;

fn key(s: &str) -> Key {
    Key::new(s.to_string())
}

fn open_file() -> PlFile {
    let mut f = PlFile::new_initial("/tmp/prolock_test_file".to_string(), "en".to_string());
    // a file never saved opens with no secrets and is to be saved
    assert!(f.set_actionable("pw".to_string(), Secrets::new()));
    f
}

fn creds(pairs: &[(&str, &str)]) -> Vec<(String, String)> {
    pairs.iter().map(|(a, b)| (a.to_string(), b.to_string())).collect()
}

fn cred_texts(f: &PlFile, name: &str) -> Vec<(String, String)> {
    let t = f.transient().unwrap();
    f.bundles()
        .get(&key(name))
        .unwrap()
        .creds()
        .iter()
        .map(|c| (c.name(t).to_string(), c.secret(t).to_string()))
        .collect()
}

#[test]
fn new_file_is_empty_and_closed() {
    let f = PlFile::new_initial("some/path".to_string(), "de".to_string());
    assert_eq!(f.file_path(), "some/path");
    assert!(f.is_empty());
    assert!(!f.is_actionable());
    assert!(f.transient().is_none());
    assert!(f.is_new_file());
    assert_eq!(f.update_counter(), Some(0));
    assert_eq!(f.language(), "de");
    assert_eq!(f.stored.readable.header.format_version, CURRENT_FORMAT_VERSION);
    assert!(f.documents().is_empty());
}

#[test]
fn header_keeps_the_counter() {
    let h = FileHeader::new(0, "en".to_string(), Some(7));
    assert_eq!(h.counter(), Some(7));
    let h = FileHeader::new(0, "en".to_string(), None);
    assert_eq!(h.counter(), None);
}

#[test]
fn adding_updating_and_deleting_bundles() {
    let mut f = open_file();
    assert!(f
        .save_with_added_bundle("Bank".to_string(), "money".to_string(), creds(&[("user", "secret")]))
        .is_ok());
    assert!(f.has_bundle("bank"));
    assert!(!f.is_empty());
    assert_eq!(cred_texts(&f, "bank"), creds(&[("user", "secret")]));
    assert_eq!(f.bundles().get(&key("BANK")).unwrap().description(), "money");

    assert!(matches!(
        f.save_with_added_bundle(String::new(), "x".to_string(), vec![]),
        Err(PlError::EmptyName)
    ));
    assert!(matches!(
        f.save_with_added_bundle("BANK".to_string(), "x".to_string(), vec![]),
        Err(PlError::Exists(_))
    ));

    // renaming with new credentials; the old secrets are dropped
    assert!(f
        .save_with_updated_bundle("Bank", "Savings".to_string(), "more".to_string(), creds(&[("u2", "p2"), ("u3", "p3")]))
        .is_ok());
    assert!(!f.has_bundle("bank"));
    assert!(f.has_bundle("savings"));
    assert_eq!(cred_texts(&f, "savings"), creds(&[("u2", "p2"), ("u3", "p3")]));
    assert_eq!(f.transient().unwrap().refs().len(), 4);

    // a name that differs only in case is taken by the bundle itself
    assert!(matches!(
        f.save_with_updated_bundle("Savings", "SAVINGS".to_string(), "d".to_string(), vec![]),
        Err(PlError::Exists(_))
    ));
    // keeping the name replaces description and credentials
    assert!(f
        .save_with_updated_bundle("Savings", "Savings".to_string(), "d".to_string(), vec![])
        .is_ok());
    assert!(f.has_bundle("savings"));
    assert_eq!(f.bundles().get(&key("savings")).unwrap().description(), "d");
    assert_eq!(f.transient().unwrap().refs().len(), 0);

    assert!(matches!(
        f.save_with_deleted_bundle("nothing".to_string()),
        Err(PlError::Missing(_))
    ));
    assert!(matches!(f.save_with_deleted_bundle(String::new()), Err(PlError::EmptyName)));
    assert!(f.save_with_deleted_bundle("savings".to_string()).is_ok());
    assert!(f.is_empty());
}

#[test]
fn updating_a_bundle_to_a_taken_name_is_refused() {
    let mut f = open_file();
    assert!(f.save_with_added_bundle("A".to_string(), "a".to_string(), vec![]).is_ok());
    assert!(f.save_with_added_bundle("B".to_string(), "b".to_string(), vec![]).is_ok());
    assert!(matches!(
        f.save_with_updated_bundle("A", "b".to_string(), "x".to_string(), vec![]),
        Err(PlError::Exists(_))
    ));
    assert_eq!(f.bundles().get(&key("a")).unwrap().description(), "a");
}

#[test]
fn adding_updating_and_deleting_documents() {
    let mut f = open_file();
    assert!(f.save_with_added_document("Notes".to_string(), "hello".to_string()).is_ok());
    let t = f.transient().unwrap();
    assert_eq!(f.documents().get(&key("notes")).unwrap().text(t), "hello");
    assert!(matches!(
        f.save_with_added_document("NOTES".to_string(), "x".to_string()),
        Err(PlError::Exists(_))
    ));
    assert!(matches!(
        f.save_with_added_document(String::new(), "x".to_string()),
        Err(PlError::EmptyName)
    ));
    assert!(f.save_with_updated_document(&key("notes"), key("Diary"), "today".to_string()).is_ok());
    assert!(!f.documents().contains_key(&key("notes")));
    let t = f.transient().unwrap();
    assert_eq!(f.documents().get(&key("diary")).unwrap().text(t), "today");
    assert_eq!(t.refs().len(), 1);
    assert!(matches!(
        f.save_with_deleted_document(&key("notes")),
        Err(PlError::Missing(_))
    ));
    assert!(f.save_with_deleted_document(&key("DIARY")).is_ok());
    assert!(f.documents().is_empty());
    assert_eq!(f.transient().unwrap().refs().len(), 0);
}

#[test]
fn passwords_are_checked_and_changed() {
    let mut f = open_file();
    assert!(f.check_password("pw").is_ok());
    assert!(matches!(f.check_password("nope"), Err(PlError::WrongPassword)));
    assert!(matches!(f.change_password("nope", "new".to_string()), Err(PlError::WrongPassword)));
    assert!(f.change_password("pw", "new".to_string()).is_ok());
    assert!(f.check_password("new").is_ok());
    assert!(f.check_password("pw").is_err());
}

#[test]
fn language_changes_are_reported() {
    let mut f = open_file();
    assert!(f.set_language("de"));
    assert_eq!(f.language(), "de");
    assert!(!f.set_language("de"));
}

#[test]
fn concurrent_updates_are_detected() {
    let mut f = open_file();
    assert!(f.check_not_updated_concurrently(Some(0)).is_ok());
    assert!(matches!(
        f.check_not_updated_concurrently(Some(3)),
        Err(PlError::ConcurrentUpdate)
    ));
    assert!(f.check_not_updated_concurrently(None).is_err());
    assert!(f.begin_save().is_ok());
    assert_eq!(f.update_counter(), Some(1));
    assert!(!f.is_new_file());
    let mut closed = PlFile::new_initial("p".to_string(), "en".to_string());
    assert!(matches!(closed.begin_save(), Err(PlError::PasswordNotAvailable)));
    assert_eq!(closed.update_counter(), Some(0));
}

#[test]
fn cipher_round_trip() {
    let mut f = open_file();
    assert!(f.set_cipher(b"serialized secrets", b"readable part").is_ok());
    assert_ne!(f.stored.cipher, "");
    assert_eq!(f.decrypt("pw", b"readable part").unwrap(), b"serialized secrets".to_vec());
    assert!(matches!(f.decrypt("wrong", b"readable part"), Err(PlError::Crypto)));
    assert!(matches!(f.decrypt("pw", b"tampered part"), Err(PlError::Crypto)));
}

#[test]
fn malformed_cipher_is_reported() {
    let readable = Readable {
        header: FileHeader::new(0, "en".to_string(), Some(2)),
        bundles: Bundles::new(),
        documents: Documents::new(),
    };
    let f = PlFile::from_stored("p".to_string(), Stored { readable, cipher: "no colons here".to_string() });
    assert!(!f.is_actionable());
    assert_eq!(f.update_counter(), Some(2));
    assert!(matches!(f.decrypt("pw", b"x"), Err(PlError::CipherFormat)));
}

fn stored_file(cipher: &str) -> PlFile {
    let readable = Readable {
        header: FileHeader::new(0, "en".to_string(), Some(2)),
        bundles: Bundles::new(),
        documents: Documents::new(),
    };
    PlFile::from_stored("p".to_string(), Stored { readable, cipher: cipher.to_string() })
}

#[test]
fn secrets_without_references_open_an_inconsistent_file() {
    let mut f = stored_file("a:b:c");
    assert!(f.has_cipher());
    assert!(f.is_consistent());
    let mut map = HashMap::new();
    map.insert(5, "orphan".to_string());
    assert!(!f.set_actionable("pw".to_string(), Secrets::from_map(map, String::new())));
    assert!(f.is_actionable());
    assert_eq!(f.transient().unwrap().get_secret(5), Some(&"orphan".to_string()));
    assert!(!f.is_consistent());
}

#[test]
fn a_file_never_saved_opens_with_no_secrets() {
    let mut f = stored_file("");
    assert!(!f.has_cipher());
    let mut map = HashMap::new();
    map.insert(5, "ignored".to_string());
    assert!(f.set_actionable("pw".to_string(), Secrets::from_map(map, String::new())));
    assert!(f.is_actionable());
    assert_eq!(f.transient().unwrap().refs(), Vec::<u64>::new());
    assert_eq!(f.transient().unwrap().get_storage_password(), "pw");
    assert!(f.is_consistent());
}

#[test]
fn a_closed_file_refuses_changes_after_checking_the_name() {
    let mut f = PlFile::new_initial("p".to_string(), "en".to_string());
    assert!(matches!(f.save_with_added_bundle(String::new(), "d".to_string(), vec![]), Err(PlError::EmptyName)));
    assert!(matches!(
        f.save_with_added_bundle("A".to_string(), "d".to_string(), vec![]),
        Err(PlError::PasswordNotAvailable)
    ));
    assert!(matches!(f.save_with_deleted_bundle("A".to_string()), Err(PlError::Missing(_))));
    assert!(matches!(
        f.save_with_added_document("D".to_string(), "t".to_string()),
        Err(PlError::PasswordNotAvailable)
    ));
    assert!(matches!(f.save_with_deleted_document(&key("D")), Err(PlError::Missing(_))));
    assert!(f.is_empty());
    assert!(!f.is_actionable());
}

#[test]
fn adding_bundles_grows_the_count_by_one() {
    let mut f = open_file();
    assert_eq!(f.bundles().len(), 0);
    assert!(f.save_with_added_bundle("A".to_string(), "a".to_string(), vec![]).is_ok());
    assert_eq!(f.bundles().len(), 1);
    assert!(f.save_with_added_bundle("B".to_string(), "b".to_string(), vec![]).is_ok());
    assert_eq!(f.bundles().len(), 2);
    assert!(f.save_with_added_bundle("a".to_string(), "x".to_string(), vec![]).is_err());
    assert_eq!(f.bundles().len(), 2);
}

#[test]
fn a_file_equals_itself_logically() {
    let mut f = open_file();
    assert!(f.save_with_added_bundle("A".to_string(), "a".to_string(), creds(&[("n", "s")])).is_ok());
    let mut g = open_file();
    assert!(g.save_with_added_bundle("A".to_string(), "a".to_string(), creds(&[("n", "s")])).is_ok());
    assert!(f.equals_logically(&f));
    assert!(f.equals_logically(&g));
    // entries are compared as far as both files go
    assert!(g.save_with_added_bundle("B".to_string(), "b".to_string(), vec![]).is_ok());
    assert!(f.equals_logically(&g));
    let mut h = open_file();
    assert!(h.save_with_added_bundle("A".to_string(), "a".to_string(), creds(&[("n", "other")])).is_ok());
    assert!(!f.equals_logically(&h));
    assert!(g.save_with_added_bundle("0".to_string(), "zero".to_string(), vec![]).is_ok());
    assert!(!f.equals_logically(&g));
}

#[test]
fn preface_is_skipped() {
    assert_eq!(
        skip_over_comments_and_empty_lines("\n\n    # c\n\nHello\nworld!"),
        "Hello\nworld!"
    );
    assert_eq!(skip_over_comments_and_empty_lines("# only\n# comments\n"), "");
    assert_eq!(skip_over_comments_and_empty_lines("# last line\n# kept"), "# kept");
    assert_eq!(skip_over_comments_and_empty_lines("{}"), "{}");
    assert_eq!(skip_over_comments_and_empty_lines(""), "");
}

#[test]
fn string_equality() {
    assert!(str_eq("abc", "abc"));
    assert!(!str_eq("abc", "abd"));
    assert!(!str_eq("abc", "ab"));
}

#[test]
fn deleting_what_was_added_restores_the_file() {
    let mut f = open_file();
    assert!(f.save_with_added_bundle("A".to_string(), "a".to_string(), creds(&[("n", "s")])).is_ok());
    assert!(f.save_with_added_document("D".to_string(), "text".to_string()).is_ok());
    let refs_before = f.transient().unwrap().refs();
    assert!(f.save_with_added_bundle("B".to_string(), "b".to_string(), creds(&[("m", "t")])).is_ok());
    assert!(f.save_with_deleted_bundle("B".to_string()).is_ok());
    assert!(f.save_with_added_document("E".to_string(), "more".to_string()).is_ok());
    assert!(f.save_with_deleted_document(&key("E")).is_ok());
    assert_eq!(f.bundles().len(), 1);
    assert!(f.has_bundle("a"));
    assert_eq!(f.documents().iter_keys().len(), 1);
    assert_eq!(f.transient().unwrap().refs(), refs_before);
}

#[test]
fn refused_changes_leave_the_file_as_it_was() {
    let mut f = open_file();
    assert!(f.save_with_added_bundle("A".to_string(), "a".to_string(), creds(&[("n", "s")])).is_ok());
    assert!(f.set_cipher(b"secrets", b"readable").is_ok());
    let cipher = f.stored.cipher.clone();
    let refs = f.transient().unwrap().refs();
    assert!(f.save_with_added_bundle("a".to_string(), "x".to_string(), creds(&[("m", "t")])).is_err());
    assert!(f.save_with_added_bundle(String::new(), "x".to_string(), vec![]).is_err());
    assert!(f.save_with_deleted_bundle("zzz".to_string()).is_err());
    assert!(f.change_password("wrong", "new".to_string()).is_err());
    assert_eq!(f.stored.cipher, cipher);
    assert_eq!(f.transient().unwrap().refs(), refs);
    assert_eq!(f.update_counter(), Some(0));
    assert!(f.check_password("pw").is_ok());
    // the next secret still gets the next reference
    assert!(f.save_with_added_bundle("B".to_string(), "b".to_string(), creds(&[("u", "v")])).is_ok());
    assert_eq!(f.transient().unwrap().refs(), vec![1, 2, 3, 4]);
}
