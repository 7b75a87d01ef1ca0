use prolock::data::file_list::FileList;
use prolock::data::paths::{document_folder_in, document_path_in, language_of_locale};
use prolock::data::settings::Settings;
use prolock::secrets::Secrets;

fn settings(files: &[&str], current: usize) -> Settings {
    Settings {
        files: files.iter().map(|f| f.to_string()).collect(),
        current_file: current,
        language: "en".to_string(),
    }
}

#[test]
fn languages_of_locales() {
    assert_eq!(language_of_locale(Some("de-DE".to_string())), "de");
    assert_eq!(language_of_locale(Some("en".to_string())), "en");
    assert_eq!(language_of_locale(None), "en");
    assert_eq!(language_of_locale(Some("not a tag!".to_string())), "en");
}

#[test]
fn document_folders() {
    assert_eq!(document_folder_in("/home/u", false), "/home/u/.prolock");
    assert_eq!(document_folder_in("/home/u", true), "/home/u/.prolock_test");
}

#[test]
fn default_settings_use_the_default_file() {
    if let Some(s) = Settings::default(true) {
        assert_eq!(s.files.len(), 1);
        assert_eq!(s.current_file, 0);
        assert!(s.current_file().ends_with(".prolock_test/secrets"));
        assert!(Settings::my_file(true).unwrap().ends_with(".prolock_test/settings"));
        assert!(Settings::temp_document_path(false).unwrap().ends_with(".prolock/secrets_temp"));
    }
}

#[test]
fn adding_and_choosing_files() {
    let mut s = settings(&["a"], 0);
    s.add_and_set_file("b".to_string());
    assert_eq!(s.files, vec!["a".to_string(), "b".to_string()]);
    assert_eq!(s.current_file, 1);
    assert_eq!(s.current_file(), "b");
    s.set_current_file(0);
    assert_eq!(s.current_file(), "a");
    s.set_language("de");
    assert_eq!(s.language, "de");
}

#[test]
fn forgetting_files_keeps_the_current_one() {
    let mut s = settings(&["a", "b", "c", "b"], 2);
    assert!(s.forget_file("b"));
    assert_eq!(s.files, vec!["a".to_string(), "c".to_string()]);
    assert_eq!(s.current_file(), "c");
    assert!(!s.forget_file("c"));
    assert!(!s.forget_file("unknown"));
    assert_eq!(s.files.len(), 2);
    assert!(s.forget_file("a"));
    assert_eq!(s.current_file, 0);
    assert_eq!(s.current_file(), "c");
}

#[test]
fn file_list_adds_and_chooses() {
    let mut l = FileList { files: vec!["x".to_string()], current_file: 0 };
    l.add_and_set_file("y".to_string());
    assert_eq!(l.current_file(), "y");
    l.set_current_file(0);
    assert_eq!(l.current_file(), "x");
    if let Some(d) = FileList::default(false) {
        assert!(d.current_file().ends_with(".prolock/secrets"));
    }
}

#[test]
fn first_secrets_map() {
    let mut s = Secrets::new();
    assert_eq!(s.add(1, "one".to_string()), None);
    assert_eq!(s.add(1, "uno".to_string()), Some("one".to_string()));
    assert_eq!(s.get(1), Some(&"uno".to_string()));
    assert_eq!(s.get(2), None);
    assert_eq!(s.keys().count(), 1);
}

#[test]
fn defaults_for_a_home_directory() {
    assert_eq!(document_path_in("/home/u", true, "settings"), "/home/u/.prolock_test/settings");
    let s = Settings::default_in("/home/u", false, Some("de-AT".to_string()));
    assert_eq!(s.files, vec!["/home/u/.prolock/secrets".to_string()]);
    assert_eq!(s.current_file, 0);
    assert_eq!(s.language, "de");
    let l = FileList::default_in("/home/u", true);
    assert_eq!(l.current_file(), "/home/u/.prolock_test/secrets");
}

#[test]
fn temporary_and_default_files_differ() {
    if let (Some(temp), Some(doc)) = (Settings::temp_document_path(true), Settings::prod_document_path(true)) {
        assert!(temp.ends_with("secrets_temp"));
        assert!(doc.ends_with("secrets"));
        assert_ne!(temp, doc);
    }
}
