use prolock::controller::{Action as FirstAction, Controller as FirstController, PlModal};
use prolock::data::key::Key;
use prolock::data::pl_file::PlFile;
use prolock::data::secrets::Secrets;
use prolock::ui::controller::{Action, Command, Controller, Refresh};
use prolock::ui::documents::visible_documents;
use prolock::ui::modals::{confirm_file_choice, confirm_password_change, confirm_password_to_open};
use prolock::ui::viz::{
    BundleState, DocumentState, FileSelection, MainState, ModalState, Pw, PwFocus, VEditBundle, V,
};

fn key(s: &str) -> Key {
    Key::new(s.to_string())
}

fn open_file() -> PlFile {
    let mut f = PlFile::new_initial("p".to_string(), "en".to_string());
    assert!(f.set_actionable("pw".to_string(), Secrets::new()));
    f
}

fn act(c: &mut Controller, f: &PlFile, v: &mut V, action: Action) -> Command {
    c.set_action(action);
    c.act(f, v, 0, "en".to_string())
}

#[test]
fn dialog_opens_ignores_foreign_actions_and_closes_on_cancel() {
    let f = open_file();
    let mut c = Controller::new();
    let mut v = V::new();
    assert!(matches!(act(&mut c, &f, &mut v, Action::ShowAbout), Command::Nothing));
    assert!(matches!(v.modal_state, ModalState::About));
    // while the dialog is open, other actions change nothing
    assert!(matches!(act(&mut c, &f, &mut v, Action::StartAddBundle), Command::Nothing));
    assert!(matches!(v.modal_state, ModalState::About));
    assert!(matches!(act(&mut c, &f, &mut v, Action::ShowLog), Command::Nothing));
    assert!(!v.show_log);
    assert!(matches!(act(&mut c, &f, &mut v, Action::Cancel), Command::Nothing));
    assert!(matches!(v.modal_state, ModalState::NoModal));
    assert!(matches!(act(&mut c, &f, &mut v, Action::ShowLog), Command::Nothing));
    assert!(v.show_log);
}

#[test]
fn adding_a_bundle_failure_then_success() {
    let f = open_file();
    let mut c = Controller::new();
    let mut v = V::new();
    act(&mut c, &f, &mut v, Action::StartAddBundle);
    match &v.modal_state {
        ModalState::AddBundle { v_edit_bundle, error } => {
            assert!(v_edit_bundle.key.is_empty());
            assert!(v_edit_bundle.request_focus);
            assert!(error.is_none());
        }
        _ => panic!("expected the add dialog"),
    }
    let cmd = act(&mut c, &f, &mut v, Action::FinalizeAddBundle(key("Bank")));
    assert!(matches!(&cmd, Command::SaveAddedBundle(k) if k.as_str() == "Bank"));
    let refresh = Controller::conclude(&mut v, cmd, Err("disk full".to_string()), 0);
    assert!(matches!(refresh, Refresh::Nothing));
    assert!(matches!(&v.modal_state, ModalState::AddBundle { error: Some(e), .. } if e == "disk full"));
    let cmd = act(&mut c, &f, &mut v, Action::FinalizeAddBundle(key("Bank")));
    let refresh = Controller::conclude(&mut v, cmd, Ok(()), 0);
    assert!(matches!(&refresh, Refresh::Bundles(Some(k)) if k.as_str() == "Bank"));
    assert!(matches!(v.modal_state, ModalState::NoModal));
}

#[test]
fn switching_files() {
    let f = open_file();
    let mut c = Controller::new();
    let mut v = V::new();
    c.set_action(Action::StartChangeFile);
    c.act(&f, &mut v, 2, "en".to_string());
    assert!(matches!(v.modal_state, ModalState::ChangeFile));
    assert_eq!(v.file_selection.current, 2);
    assert!(v.file_selection.new.is_empty());
    let cmd = act(&mut c, &f, &mut v, Action::SwitchToKnownFile(1));
    assert!(matches!(cmd, Command::SwitchToKnownFile(1)));
    let refresh = Controller::conclude(&mut v, cmd, Err("locked".to_string()), 2);
    assert!(matches!(refresh, Refresh::Nothing));
    assert_eq!(v.file_selection.error.as_deref(), Some("locked"));
    assert!(matches!(v.modal_state, ModalState::ChangeFile));
    let cmd = act(&mut c, &f, &mut v, Action::SwitchToNewFile("x/y".to_string()));
    assert!(matches!(&cmd, Command::SwitchToNewFile(p) if p == "x/y"));
    let refresh = Controller::conclude(&mut v, cmd, Ok(()), 3);
    assert!(matches!(refresh, Refresh::All));
    assert!(matches!(v.modal_state, ModalState::NoModal));
    assert_eq!(v.file_selection.current, 3);
    assert!(v.file_selection.error.is_none());
}

#[test]
fn switching_files_outside_the_dialog_is_ignored() {
    let f = open_file();
    let mut c = Controller::new();
    let mut v = V::new();
    assert!(matches!(act(&mut c, &f, &mut v, Action::SwitchToKnownFile(1)), Command::Nothing));
}

#[test]
fn wrong_password_asks_again() {
    let f = PlFile::new_initial("p".to_string(), "en".to_string());
    let mut c = Controller::new();
    let mut v = V::new();
    v.pw.pw1 = "guess".to_string();
    let cmd = act(&mut c, &f, &mut v, Action::SwitchToActionable);
    assert!(matches!(cmd, Command::OpenWithPassword));
    let refresh = Controller::conclude(&mut v, cmd, Err("wrong password".to_string()), 0);
    assert!(matches!(refresh, Refresh::Nothing));
    assert_eq!(v.pw.error.as_deref(), Some("wrong password"));
    assert_eq!(v.pw.focus, PwFocus::Pw1);
    assert_eq!(v.pw.pw1, "guess");
    let cmd = act(&mut c, &f, &mut v, Action::SwitchToActionable);
    let refresh = Controller::conclude(&mut v, cmd, Ok(()), 0);
    assert!(matches!(refresh, Refresh::All));
    assert!(v.pw.error.is_none());
    assert!(v.find_request_focus);
}

#[test]
fn changing_the_password() {
    let f = open_file();
    let mut c = Controller::new();
    let mut v = V::new();
    act(&mut c, &f, &mut v, Action::StartChangePassword);
    assert!(matches!(v.modal_state, ModalState::ChangePassword));
    assert!(v.pw.pw1.is_empty() && v.pw.pw2.is_empty() && v.pw.pw3.is_empty());
    v.pw.pw1 = "old".to_string();
    v.pw.pw2 = "new".to_string();
    v.pw.pw3 = "neu".to_string();
    confirm_password_change(&mut v.pw, &mut c, "no match".to_string());
    assert_eq!(v.pw.error.as_deref(), Some("no match"));
    // nothing was requested
    assert!(matches!(c.act(&f, &mut v, 0, "en".to_string()), Command::Nothing));
    v.pw.pw3 = "new".to_string();
    confirm_password_change(&mut v.pw, &mut c, "no match".to_string());
    let cmd = c.act(&f, &mut v, 0, "en".to_string());
    assert!(matches!(&cmd, Command::ChangePassword { old, new } if old == "old" && new == "new"));
    Controller::conclude(&mut v, cmd, Ok(()), 0);
    assert!(matches!(v.modal_state, ModalState::NoModal));
}

#[test]
fn opening_with_a_repeated_password() {
    let mut c = Controller::new();
    let mut pw = Pw::new();
    pw.pw1 = "a".to_string();
    pw.pw2 = "b".to_string();
    confirm_password_to_open(true, &mut pw, &mut c, "differ".to_string());
    assert_eq!(pw.error.as_deref(), Some("differ"));
    let f = PlFile::new_initial("p".to_string(), "en".to_string());
    let mut v = V::new();
    assert!(matches!(c.act(&f, &mut v, 0, "en".to_string()), Command::Nothing));
    confirm_password_to_open(false, &mut pw, &mut c, "differ".to_string());
    assert!(matches!(c.act(&f, &mut v, 0, "en".to_string()), Command::OpenWithPassword));
    let mut pw = Pw::new();
    pw.pw1 = "same".to_string();
    pw.pw2 = "same".to_string();
    confirm_password_to_open(true, &mut pw, &mut c, "differ".to_string());
    assert!(pw.error.is_none());
    assert!(matches!(c.act(&f, &mut v, 0, "en".to_string()), Command::OpenWithPassword));
}

#[test]
fn choosing_a_file() {
    let f = open_file();
    let mut c = Controller::new();
    let mut v = V::new();
    act(&mut c, &f, &mut v, Action::StartChangeFile);
    let selection = FileSelection { current: 1, new: "other".to_string(), error: None };
    confirm_file_choice(&selection, 3, &mut c);
    assert!(matches!(c.act(&f, &mut v, 0, "en".to_string()), Command::SwitchToKnownFile(1)));
    let selection = FileSelection { current: 3, new: "other".to_string(), error: None };
    confirm_file_choice(&selection, 3, &mut c);
    assert!(matches!(&c.act(&f, &mut v, 0, "en".to_string()), Command::SwitchToNewFile(p) if p == "other"));
}

#[test]
fn changing_the_language() {
    let f = open_file();
    let mut c = Controller::new();
    let mut v = V::new();
    c.set_action(Action::StartChangeLanguage);
    c.act(&f, &mut v, 0, "de".to_string());
    assert!(matches!(v.modal_state, ModalState::ChangeLanguage));
    assert_eq!(v.lang.selected, "de");
    let cmd = act(&mut c, &f, &mut v, Action::FinalizeChangeLanguage);
    assert!(matches!(cmd, Command::SetLanguage));
    Controller::conclude(&mut v, cmd, Err("unsupported".to_string()), 0);
    assert_eq!(v.lang.error.as_deref(), Some("unsupported"));
    let cmd = act(&mut c, &f, &mut v, Action::FinalizeChangeLanguage);
    Controller::conclude(&mut v, cmd, Ok(()), 0);
    assert!(matches!(v.modal_state, ModalState::NoModal));
}

#[test]
fn modifying_a_bundle_reads_it_from_the_file() {
    let mut f = open_file();
    assert!(f
        .save_with_added_bundle("Bank".to_string(), "money".to_string(), vec![("u".to_string(), "p".to_string())])
        .is_ok());
    let mut c = Controller::new();
    let mut v = V::new();
    act(&mut c, &f, &mut v, Action::StartModifyBundle(key("bank")));
    match &v.main_state {
        MainState::Bundles(BundleState::ModifyBundle { v_edit_bundle, error }) => {
            assert_eq!(v_edit_bundle.key.as_str(), "bank");
            assert_eq!(v_edit_bundle.description, "money");
            assert_eq!(v_edit_bundle.cred_pairs(), vec![("u".to_string(), "p".to_string())]);
            assert!(error.is_none());
        }
        _ => panic!("expected the bundle in modification"),
    }
    let cmd = act(&mut c, &f, &mut v, Action::FinalizeModifyBundle);
    assert!(matches!(cmd, Command::SaveModifiedBundle));
    let refresh = Controller::conclude(&mut v, cmd, Ok(()), 0);
    assert!(matches!(refresh, Refresh::Bundles(None)));
    assert!(matches!(v.main_state, MainState::Bundles(BundleState::Default)));
}

#[test]
fn documents_tab_and_filter() {
    let mut f = open_file();
    assert!(f.save_with_added_document("Notes".to_string(), "text".to_string()).is_ok());
    let mut c = Controller::new();
    let mut v = V::new();
    assert!(matches!(act(&mut c, &f, &mut v, Action::StartFilter), Command::FilterBundles));
    v.main_state = MainState::Documents(DocumentState::Default(None));
    assert!(matches!(act(&mut c, &f, &mut v, Action::StartFilter), Command::FilterDocuments));
    act(&mut c, &f, &mut v, Action::StartModifyDocument(key("notes")));
    match &v.main_state {
        MainState::Documents(DocumentState::ModifyDocument { v_edit_document, .. }) => {
            assert_eq!(v_edit_document.text, "text");
        }
        _ => panic!("expected the document in modification"),
    }
    act(&mut c, &f, &mut v, Action::Cancel);
    assert!(matches!(&v.main_state, MainState::Documents(DocumentState::Default(Some(k))) if k.as_str() == "notes"));
}

#[test]
fn edited_bundle_starts_empty() {
    let e = VEditBundle::new();
    assert!(e.key.is_empty());
    assert!(e.description.is_empty());
    assert!(e.cred_pairs().is_empty());
}

#[test]
fn counting_visible_documents() {
    assert_eq!(visible_documents(&vec![true, false, false, true]), 2);
    assert_eq!(visible_documents(&vec![]), 0);
}

#[test]
fn first_controller_keeps_the_dialog() {
    let mut c = FirstController::new();
    assert_eq!(*c.current_modal(), PlModal::Closed);
    c.set_action(FirstAction::ShowAbout);
    assert_eq!(*c.current_modal(), PlModal::Closed);
}
