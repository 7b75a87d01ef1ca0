use prolock::data::bundle::Bundle;
use prolock::data::bundles::Bundles;
use prolock::data::cred::Cred;
use prolock::data::document::Document;
use prolock::data::documents::Documents;
use prolock::data::error::PlError;
use prolock::data::key::Key;
use prolock::data::secret::Secret;
use prolock::data::secrets::Secrets;
use prolock::data::sorting::{insert_sorted, sorted};
use prolock::data::text::{eq_ignore_ascii_case, lower_byte, lt_ignore_ascii_case};
use prolock::data::transient::Transient;
use std::collections::HashMap;

fn key(s: &str) -> Key {
    Key::new(s.to_string())
}

fn transient() -> Transient {
    Transient::new("pw".to_string(), Secrets::new())
}

#[test]
fn keys_compare_ignoring_case() {
    assert!(key("GitHub") == key("github"));
    assert!(key("GitHub").same_as(&key("GITHUB")));
    assert!(!(key("GitHub") == key("GitLab")));
    assert!(key("apple").sorts_before(&key("Banana")));
    assert!(key("Apple").sorts_before(&key("banana")));
    assert!(!key("banana").sorts_before(&key("Apple")));
    assert!(!key("abc").sorts_before(&key("ABC")));
    assert!(key("ab").sorts_before(&key("abc")));
}

#[test]
fn key_accessors() {
    let mut k = key("Mail");
    assert_eq!(k.as_str(), "Mail");
    assert!(!k.is_empty());
    assert!(key("").is_empty());
    k.as_mut().push_str("box");
    assert_eq!(k.as_str(), "Mailbox");
    assert_eq!(k.duplicate().as_str(), "Mailbox");
    let from: Key = Key::from("x".to_string());
    assert_eq!(from.as_str(), "x");
}

#[test]
fn ascii_case_helpers() {
    assert_eq!(lower_byte(b'Q'), b'q');
    assert_eq!(lower_byte(b'q'), b'q');
    assert_eq!(lower_byte(b'1'), b'1');
    assert!(eq_ignore_ascii_case(b"HeLLo", b"hello"));
    assert!(!eq_ignore_ascii_case(b"hello", b"hell"));
    assert!(lt_ignore_ascii_case(b"Alpha", b"beta"));
    assert!(!lt_ignore_ascii_case(b"beta", b"ALPHA"));
    assert!(lt_ignore_ascii_case(b"", b"a"));
}

#[test]
fn sorting_keeps_all_values() {
    let mut v = vec![1, 5, 9];
    insert_sorted(&mut v, 6);
    assert_eq!(v, vec![1, 5, 6, 9]);
    insert_sorted(&mut v, 0);
    assert_eq!(v, vec![0, 1, 5, 6, 9]);
    assert_eq!(sorted(&vec![7, 3, 7, 1]), vec![1, 3, 7, 7]);
    assert_eq!(sorted(&vec![]), Vec::<u64>::new());
}

#[test]
fn secrets_add_get_remove() {
    let mut s = Secrets::new();
    assert_eq!(s.add(3, "three".to_string()), None);
    assert_eq!(s.add(3, "drei".to_string()), Some("three".to_string()));
    assert_eq!(s.get(3), Some(&"drei".to_string()));
    assert_eq!(s.get(4), None);
    s.add(9, "nine".to_string());
    let mut keys = s.key_list();
    keys.sort();
    assert_eq!(keys, vec![3, 9]);
    s.remove(3);
    assert_eq!(s.get(3), None);
    assert_eq!(s.key_list(), vec![9]);
}

#[test]
fn secrets_filler_is_renewed_by_prepare() {
    let mut map = HashMap::new();
    map.insert(1, "one".to_string());
    let mut s = Secrets::from_map(map, "fill".to_string());
    assert_eq!(s.filler(), "fill");
    s.prepare();
    let n = s.filler().chars().count();
    assert!((20..80).contains(&n));
    assert_eq!(s.get(1), Some(&"one".to_string()));
    assert_eq!(s.content().len(), 1);
}

#[test]
fn transient_hands_out_fresh_references() {
    let mut map = HashMap::new();
    map.insert(4, "four".to_string());
    map.insert(2, "two".to_string());
    let mut t = Transient::new("pw".to_string(), Secrets::from_map(map, String::new()));
    assert_eq!(t.get_storage_password(), "pw");
    let a = t.add_secret("new".to_string());
    assert_eq!(a, 5);
    let b = t.add_secret("newer".to_string());
    assert_eq!(b, 6);
    assert_eq!(t.get_secret(5), Some(&"new".to_string()));
    assert_eq!(t.get_secret(2), Some(&"two".to_string()));
    assert_eq!(t.refs(), vec![2, 4, 5, 6]);
    t.remove_secret(4);
    assert_eq!(t.get_secret(4), None);
    assert_eq!(t.refs(), vec![2, 5, 6]);
    // a removed reference is not handed out again
    assert_eq!(t.add_secret("x".to_string()), 7);
    t.set_storage_password("other".to_string());
    assert_eq!(t.get_storage_password(), "other");
    assert!(t.can_add_secret());
    assert!(t.can_add_secrets(3));
}

#[test]
fn transient_on_empty_secrets_starts_after_zero() {
    let mut t = transient();
    assert_eq!(t.add_secret("a".to_string()), 1);
    assert_eq!(t.stored_secrets().get(1), Some(&"a".to_string()));
}

#[test]
fn transient_without_room() {
    let mut map = HashMap::new();
    map.insert(u64::MAX, "last".to_string());
    let t = Transient::new("pw".to_string(), Secrets::from_map(map, String::new()));
    assert!(!t.can_add_secret());
}

#[test]
fn credentials_and_documents_resolve_their_secrets() {
    let mut t = transient();
    let cred = Cred::new("user".to_string(), "secret".to_string(), &mut t);
    assert_eq!(cred.name(&t), "user");
    assert_eq!(cred.secret(&t), "secret");
    let s = Secret::new("body".to_string(), &mut t);
    let r = s.reff();
    let doc = Document::new(s);
    assert_eq!(doc.reff(), r);
    assert_eq!(doc.text(&t), "body");
    assert_eq!(doc.secret().reff(), r);
    let bundle = Bundle::new("descr".to_string(), vec![cred]);
    assert_eq!(bundle.description(), "descr");
    assert_eq!(bundle.creds().len(), 1);
    assert_eq!(bundle.refs(), vec![1, 2]);
}

#[test]
fn bundles_add_get_modify_remove() {
    let mut t = transient();
    let mut bundles = Bundles::new();
    assert!(bundles.is_empty());
    let c1 = Cred::new("u1".to_string(), "p1".to_string(), &mut t);
    assert!(bundles.add(key("Bank"), Bundle::new("money".to_string(), vec![c1])).is_ok());
    let c2 = Cred::new("u2".to_string(), "p2".to_string(), &mut t);
    assert!(bundles.add(key("apple"), Bundle::new("fruit".to_string(), vec![c2])).is_ok());
    assert_eq!(bundles.len(), 2);
    // the list is ordered ignoring case
    let names: Vec<&str> = bundles.iter().iter().map(|(k, _)| k.as_str()).collect();
    assert_eq!(names, vec!["apple", "Bank"]);
    // adding under an existing key, in any case, is refused
    match bundles.add(key("BANK"), Bundle::new("x".to_string(), vec![])) {
        Err(PlError::Exists(name)) => assert_eq!(name, "Bank"),
        _ => panic!("expected Exists"),
    }
    assert_eq!(bundles.get(&key("bank")).unwrap().description(), "money");
    assert!(bundles.contains_key(&key("APPLE")));
    assert_eq!(bundles.stored_key(&key("bank")).unwrap().as_str(), "Bank");
    assert_eq!(bundles.count_secrets(), 2);
    assert_eq!(bundles.refs(), vec![3, 4, 1, 2]);
    assert!(bundles.modify(&key("bank"), Bundle::new("cash".to_string(), vec![])).is_ok());
    assert_eq!(bundles.get(&key("Bank")).unwrap().description(), "cash");
    match bundles.modify(&key("zebra"), Bundle::new("x".to_string(), vec![])) {
        Err(PlError::Missing(name)) => assert_eq!(name, "zebra"),
        _ => panic!("expected Missing"),
    }
    assert!(bundles.remove_bundle_with_refs(&key("apple"), &mut t).is_ok());
    assert!(!bundles.contains_key(&key("apple")));
    assert_eq!(t.get_secret(3), None);
    assert_eq!(t.get_secret(4), None);
    assert!(matches!(bundles.remove_bundle_with_refs(&key("apple"), &mut t), Err(PlError::Missing(_))));
    assert_eq!(bundles.len(), 1);
}

#[test]
fn documents_add_get_modify_remove() {
    let mut t = transient();
    let mut docs = Documents::new();
    assert!(docs.is_empty());
    let d = Document::new(Secret::new("text one".to_string(), &mut t));
    assert!(docs.add(key("Notes"), d).is_ok());
    let d2 = Document::new(Secret::new("text two".to_string(), &mut t));
    assert!(docs.add(key("agenda"), d2).is_ok());
    let keys: Vec<&str> = docs.iter_keys().iter().map(|k| k.as_str()).collect();
    assert_eq!(keys, vec!["agenda", "Notes"]);
    assert_eq!(docs.get(&key("NOTES")).unwrap().text(&t), "text one");
    let dup = Document::new(Secret::new("x".to_string(), &mut t));
    assert!(matches!(docs.add(key("notes"), dup), Err(PlError::Exists(_))));
    assert_eq!(docs.refs(), vec![1, 2]);
    let d3 = Document::new(Secret::new("changed".to_string(), &mut t));
    assert!(docs.modify(&key("notes"), d3).is_ok());
    assert_eq!(docs.get(&key("Notes")).unwrap().text(&t), "changed");
    assert!(docs.remove_document_with_ref(&key("agenda"), &mut t).is_ok());
    assert!(!docs.contains_key(&key("agenda")));
    assert_eq!(t.get_secret(2), None);
    assert!(matches!(docs.remove_document_with_ref(&key("agenda"), &mut t), Err(PlError::Missing(_))));
    assert_eq!(docs.iter().len(), 1);
}
