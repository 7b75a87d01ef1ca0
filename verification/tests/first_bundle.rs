use prolock::bundle::{Bundle, Secret};
use prolock::data::secrets::Secrets;
use prolock::data::transient::Transient;

#[test]
fn named_secrets_are_replaced_and_stored() {
    let mut t = Transient::new("pw".to_string(), Secrets::new());
    let mut b = Bundle::new("mail");
    assert!(b.is_empty());
    b.add_cred("bob".to_string(), "pw-b".to_string());
    b.add_cred("alice".to_string(), "pw-a".to_string());
    b.add_cred("Zed".to_string(), "pw-z".to_string());
    assert_eq!(b.len(), 3);
    assert!(!b.is_storable());
    assert_eq!(b.secret("alice", &t), "pw-a");
    b.convert_to_refs(&mut t);
    assert!(b.is_storable());
    // references are handed out in the byte order of the names: "Zed" < "alice" < "bob"
    assert_eq!(t.get_secret(1), Some(&"pw-z".to_string()));
    assert_eq!(t.get_secret(2), Some(&"pw-a".to_string()));
    assert_eq!(t.get_secret(3), Some(&"pw-b".to_string()));
    assert_eq!(b.secret("bob", &t), "pw-b");
    // a name that exists already gets the new value
    b.add_cred("alice".to_string(), "changed".to_string());
    assert_eq!(b.len(), 3);
    assert!(!b.is_storable());
    assert_eq!(b.secret("alice", &t), "changed");
    b.convert_to_refs(&mut t);
    assert_eq!(t.get_secret(4), Some(&"changed".to_string()));
    assert_eq!(b.secret("alice", &t), "changed");
    b.update_description("post");
    assert_eq!(b.len(), 3);
}

#[test]
fn secrets_resolve() {
    let mut t = Transient::new("pw".to_string(), Secrets::new());
    let idx = t.add_secret("stored".to_string());
    assert_eq!(Secret::Ref(idx).resolve(&t), "stored");
    assert_eq!(Secret::New("fresh".to_string()).resolve(&t), "fresh");
    assert_eq!(Secret::default().resolve(&t), "");
}
