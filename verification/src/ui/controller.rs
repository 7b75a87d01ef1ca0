//! The controller: decides, for the action the user took and the state of the
//! screen, how the screen changes and what work is to be done; and, once that
//! work is done, how its outcome shows on the screen.
//!
//! The work itself (reading and writing files, decrypting) is done by the
//! caller between `act` and `conclude`.
use super::viz::{
    BundleState, DocumentState, FileSelection, LangSelection, MainState, ModalState, Pw, PwFocus,
    VEditBundle, VEditDocument, V,
};
use crate::data::key::Key;
use crate::data::pl_file::PlFile;
use vstd::prelude::*;

verus! {

/// What the user asked for.
pub enum Action {
    Nothing,
    ShowAbout,
    ShowLog,
    StartChangeFile,
    SwitchToKnownFile(usize),
    SwitchToNewFile(String),
    StartChangePassword,
    FinalizeChangePassword { old: String, new: String },
    SwitchToActionable,
    StartFilter,
    StartChangeLanguage,
    FinalizeChangeLanguage,
    StartAddBundle,
    FinalizeAddBundle(Key),
    StartModifyBundle(Key),
    FinalizeModifyBundle,
    StartDeleteBundle(Key),
    FinalizeDeleteBundle,
    StartAddDocument,
    FinalizeAddDocument(Key),
    StartModifyDocument(Key),
    FinalizeModifyDocument,
    StartDeleteDocument(Key),
    FinalizeDeleteDocument,
    Cancel,
    SilentCancel,
}

/// The work that the caller is to do after `act`; its outcome is then handed
/// to `conclude`. Where the work needs the edited values, they are in the
/// state of the screen.
pub enum Command {
    Nothing,
    /// Make the known file with this index the current one and open it.
    SwitchToKnownFile(usize),
    /// Add this file to the known files, make it the current one and open it.
    SwitchToNewFile(String),
    /// Set the language selected in the language dialog.
    SetLanguage,
    /// Open the file with the password entered.
    OpenWithPassword,
    /// Apply the filter to the bundles shown.
    FilterBundles,
    /// Apply the filter to the documents shown.
    FilterDocuments,
    /// Change the password of the file and save it.
    ChangePassword { old: String, new: String },
    /// Add the bundle of the add dialog and save the file.
    SaveAddedBundle(Key),
    /// Replace the bundle being modified and save the file.
    SaveModifiedBundle,
    /// Delete the bundle of the delete dialog and save the file.
    SaveDeletedBundle,
    /// Add the document of the add dialog and save the file.
    SaveAddedDocument(Key),
    /// Replace the document being modified and save the file.
    SaveModifiedDocument,
    /// Delete the document of the delete dialog and save the file.
    SaveDeletedDocument,
}

/// Which lists the caller is to rebuild after `conclude`, and which entry to select.
pub enum Refresh {
    Nothing,
    Bundles(Option<Key>),
    Documents(Option<Key>),
    All,
}

/// Which rule of the controller applies.
pub enum Case {
    Idle,
    StartChangeFile,
    SwitchToKnownFile,
    SwitchToNewFile,
    ShowAbout,
    ShowLog,
    StartChangeLanguage,
    FinalizeChangeLanguage,
    SwitchToActionable,
    FilterBundles,
    FilterDocuments,
    StartChangePassword,
    FinalizeChangePassword,
    StartAddBundle,
    FinalizeAddBundle,
    StartModifyBundle,
    FinalizeModifyBundle,
    StartDeleteBundle,
    FinalizeDeleteBundle,
    StartAddDocument,
    FinalizeAddDocument,
    StartModifyDocument,
    FinalizeModifyDocument,
    StartDeleteDocument,
    FinalizeDeleteDocument,
    Cancel,
    Unhandled,
}

/// The rule that applies to `action` in the given state of the screen: each
/// action is handled only in the states listed; anything else is ignored.
pub open spec fn case_of(main: MainState, modal: ModalState, action: Action) -> Case {
    let no_modal = modal is NoModal;
    let bundles_default = main matches MainState::Bundles(BundleState::Default);
    let documents_default = main matches MainState::Documents(DocumentState::Default(_));
    match action {
        Action::Nothing => if no_modal { Case::Idle } else { Case::Unhandled },
        Action::StartChangeFile => if no_modal { Case::StartChangeFile } else { Case::Unhandled },
        Action::SwitchToKnownFile(_) => if modal is ChangeFile { Case::SwitchToKnownFile } else { Case::Unhandled },
        Action::SwitchToNewFile(_) => if modal is ChangeFile { Case::SwitchToNewFile } else { Case::Unhandled },
        Action::ShowAbout => if no_modal { Case::ShowAbout } else { Case::Unhandled },
        Action::ShowLog => if no_modal { Case::ShowLog } else { Case::Unhandled },
        Action::StartChangeLanguage => if no_modal { Case::StartChangeLanguage } else { Case::Unhandled },
        Action::FinalizeChangeLanguage => if modal is ChangeLanguage { Case::FinalizeChangeLanguage } else { Case::Unhandled },
        Action::SwitchToActionable => if no_modal { Case::SwitchToActionable } else { Case::Unhandled },
        Action::StartFilter => if !no_modal {
            Case::Unhandled
        } else if main is Bundles {
            Case::FilterBundles
        } else {
            Case::FilterDocuments
        },
        Action::StartChangePassword => if no_modal { Case::StartChangePassword } else { Case::Unhandled },
        Action::FinalizeChangePassword { .. } => if modal is ChangePassword { Case::FinalizeChangePassword } else { Case::Unhandled },
        Action::StartAddBundle => if bundles_default && no_modal { Case::StartAddBundle } else { Case::Unhandled },
        Action::FinalizeAddBundle(_) => if bundles_default && modal is AddBundle { Case::FinalizeAddBundle } else { Case::Unhandled },
        Action::StartModifyBundle(_) => if bundles_default && no_modal { Case::StartModifyBundle } else { Case::Unhandled },
        Action::FinalizeModifyBundle => if main matches MainState::Bundles(BundleState::ModifyBundle { .. }) && no_modal {
            Case::FinalizeModifyBundle
        } else {
            Case::Unhandled
        },
        Action::StartDeleteBundle(_) => if bundles_default && no_modal { Case::StartDeleteBundle } else { Case::Unhandled },
        Action::FinalizeDeleteBundle => if bundles_default && modal is DeleteBundle { Case::FinalizeDeleteBundle } else { Case::Unhandled },
        Action::StartAddDocument => if documents_default && no_modal { Case::StartAddDocument } else { Case::Unhandled },
        Action::FinalizeAddDocument(_) => if documents_default && modal is AddDocument { Case::FinalizeAddDocument } else { Case::Unhandled },
        Action::StartModifyDocument(_) => if documents_default && no_modal { Case::StartModifyDocument } else { Case::Unhandled },
        Action::FinalizeModifyDocument => if main matches MainState::Documents(DocumentState::ModifyDocument { .. }) && no_modal {
            Case::FinalizeModifyDocument
        } else {
            Case::Unhandled
        },
        Action::StartDeleteDocument(_) => if documents_default && no_modal { Case::StartDeleteDocument } else { Case::Unhandled },
        Action::FinalizeDeleteDocument => if documents_default && modal is DeleteDocument { Case::FinalizeDeleteDocument } else { Case::Unhandled },
        Action::Cancel => Case::Cancel,
        Action::SilentCancel => Case::Cancel,
    }
}

/// The main area after a cancel: back to the list, the modified document
/// (if any) selected.
pub open spec fn main_after_cancel(main: MainState) -> MainState {
    match main {
        MainState::Bundles(_) => MainState::Bundles(BundleState::Default),
        MainState::Documents(DocumentState::ModifyDocument { v_edit_document, .. }) => MainState::Documents(
            DocumentState::Default(Some(v_edit_document.key)),
        ),
        MainState::Documents(DocumentState::Default(_)) => MainState::Documents(DocumentState::Default(None)),
    }
}

/// Empty password fields, no error, no focus.
pub open spec fn fresh_pw(p: Pw) -> bool {
    p.pw1@.len() == 0 && p.pw2@.len() == 0 && p.pw3@.len() == 0 && p.error is None && p.focus == PwFocus::NoFocus
}

/// An empty bundle edit.
pub open spec fn fresh_edit_bundle(e: VEditBundle) -> bool {
    e.key.text().len() == 0 && e.orig_key.text().len() == 0 && e.description@.len() == 0
        && e.v_edit_creds@.len() == 0 && e.request_focus
}

/// An empty document edit.
pub open spec fn fresh_edit_document(e: VEditDocument) -> bool {
    e.key.text().len() == 0 && e.orig_key.text().len() == 0 && e.text@.len() == 0 && e.request_focus
}

/// `n` equals `o` in all parts but main area, dialog and password fields.
pub open spec fn same_but(o: V, n: V) -> bool {
    n.show_log == o.show_log && n.lang == o.lang && n.file_selection == o.file_selection
        && n.find_request_focus == o.find_request_focus
}

/// What `act` does, rule by rule: how the screen `o` becomes `n`, and which
/// work `cmd` is left to do, for `action` (with the current file index and the
/// language of the settings).
pub open spec fn acted(o: V, action: Action, current_file: usize, language: String, n: V, cmd: Command) -> bool {
    match case_of(o.main_state, o.modal_state, action) {
        Case::Idle | Case::Unhandled => n == o && cmd is Nothing,
        Case::StartChangeFile => n == V {
            modal_state: ModalState::ChangeFile,
            file_selection: n.file_selection,
            ..o
        } && n.file_selection.is_reset(current_file) && cmd is Nothing,
        Case::SwitchToKnownFile => n == o && cmd == Command::SwitchToKnownFile(action->SwitchToKnownFile_0),
        Case::SwitchToNewFile => n == o && cmd == Command::SwitchToNewFile(action->SwitchToNewFile_0),
        Case::ShowAbout => n == V { modal_state: ModalState::About, ..o } && cmd is Nothing,
        Case::ShowLog => n == V { show_log: true, ..o } && cmd is Nothing,
        Case::StartChangeLanguage => n == V {
            modal_state: ModalState::ChangeLanguage,
            lang: LangSelection { selected: language, error: None },
            ..o
        } && cmd is Nothing,
        Case::FinalizeChangeLanguage => n == o && cmd is SetLanguage,
        Case::SwitchToActionable => n == o && cmd is OpenWithPassword,
        Case::FilterBundles => n == o && cmd is FilterBundles,
        Case::FilterDocuments => n == o && cmd is FilterDocuments,
        Case::StartChangePassword => n.main_state == o.main_state && n.modal_state is ChangePassword
            && fresh_pw(n.pw) && same_but(o, n) && cmd is Nothing,
        Case::FinalizeChangePassword => n == o && cmd == Command::ChangePassword {
            old: action->old,
            new: action->new,
        },
        Case::StartAddBundle => n.main_state == o.main_state && n.pw == o.pw && same_but(o, n)
            && cmd is Nothing && (n.modal_state matches ModalState::AddBundle { v_edit_bundle, error }
            && fresh_edit_bundle(v_edit_bundle) && error is None),
        Case::FinalizeAddBundle => n == o && cmd == Command::SaveAddedBundle(action->FinalizeAddBundle_0),
        Case::StartModifyBundle => n.modal_state is NoModal && n.pw == o.pw && same_but(o, n)
            && cmd is Nothing && (n.main_state matches MainState::Bundles(BundleState::ModifyBundle { v_edit_bundle, error })
            && v_edit_bundle.key.id() == action->StartModifyBundle_0.id() && error is None),
        Case::FinalizeModifyBundle => n == o && cmd is SaveModifiedBundle,
        Case::StartDeleteBundle => n == V {
            modal_state: ModalState::DeleteBundle { key: action->StartDeleteBundle_0, error: None },
            ..o
        } && cmd is Nothing,
        Case::FinalizeDeleteBundle => n == o && cmd is SaveDeletedBundle,
        Case::StartAddDocument => n.main_state == o.main_state && n.pw == o.pw && same_but(o, n)
            && cmd is Nothing && (n.modal_state matches ModalState::AddDocument { v_edit_document, error }
            && fresh_edit_document(v_edit_document) && error is None),
        Case::FinalizeAddDocument => n == o && cmd == Command::SaveAddedDocument(action->FinalizeAddDocument_0),
        Case::StartModifyDocument => n.modal_state == o.modal_state && n.pw == o.pw && same_but(o, n)
            && cmd is Nothing && (n.main_state matches MainState::Documents(DocumentState::ModifyDocument { v_edit_document, error })
            && v_edit_document.key.id() == action->StartModifyDocument_0.id() && error is None),
        Case::FinalizeModifyDocument => n == o && cmd is SaveModifiedDocument,
        Case::StartDeleteDocument => n == V {
            modal_state: ModalState::DeleteDocument { key: action->StartDeleteDocument_0, error: None },
            ..o
        } && cmd is Nothing,
        Case::FinalizeDeleteDocument => n == o && cmd is SaveDeletedDocument,
        Case::Cancel => n == V {
            modal_state: ModalState::NoModal,
            main_state: main_after_cancel(o.main_state),
            ..o
        } && cmd is Nothing,
    }
}

/// The screen right after switching to another file.
pub open spec fn fresh_screen(n: V, current_file: usize) -> bool {
    &&& n.main_state matches MainState::Bundles(BundleState::Default)
    &&& n.modal_state is NoModal
    &&& !n.show_log
    &&& fresh_pw(n.pw)
    &&& n.lang.selected@.len() == 0 && n.lang.error is None
    &&& n.file_selection.is_reset(current_file)
    &&& !n.find_request_focus
}

/// The dialog with `msg` as its error, where it is one that shows errors of
/// saving; other dialogs stay as they are.
pub open spec fn with_error(modal: ModalState, msg: String) -> ModalState {
    match modal {
        ModalState::AddBundle { v_edit_bundle, .. } => ModalState::AddBundle { v_edit_bundle, error: Some(msg) },
        ModalState::DeleteBundle { key, .. } => ModalState::DeleteBundle { key, error: Some(msg) },
        ModalState::AddDocument { v_edit_document, .. } => ModalState::AddDocument { v_edit_document, error: Some(msg) },
        ModalState::DeleteDocument { key, .. } => ModalState::DeleteDocument { key, error: Some(msg) },
        other => other,
    }
}

/// The main area after saving a modified document: the document selected.
pub open spec fn main_after_document_saved(main: MainState) -> MainState {
    match main {
        MainState::Documents(DocumentState::ModifyDocument { v_edit_document, .. }) => MainState::Documents(
            DocumentState::Default(Some(v_edit_document.key)),
        ),
        other => other,
    }
}

/// What `conclude` does: how the outcome of the work `cmd` changes the screen
/// `o` into `n`, and which lists are to be rebuilt.
pub open spec fn concluded(o: V, cmd: Command, outcome: Result<(), String>, current_file: usize, n: V, refresh: Refresh) -> bool {
    match cmd {
        Command::Nothing | Command::FilterBundles | Command::FilterDocuments => n == o && refresh is Nothing,
        Command::SwitchToKnownFile(_) | Command::SwitchToNewFile(_) => match outcome {
            Ok(()) => fresh_screen(n, current_file) && refresh is All,
            Err(msg) => n == V {
                file_selection: FileSelection { error: Some(msg), ..o.file_selection },
                ..o
            } && refresh is Nothing,
        },
        Command::SetLanguage => match outcome {
            Ok(()) => n == V { modal_state: ModalState::NoModal, ..o } && refresh is Nothing,
            Err(msg) => n == V { lang: LangSelection { selected: o.lang.selected, error: Some(msg) }, ..o }
                && refresh is Nothing,
        },
        Command::OpenWithPassword => match outcome {
            Ok(()) => n == V {
                pw: Pw { error: None, ..o.pw },
                find_request_focus: true,
                ..o
            } && refresh is All,
            Err(msg) => n == V { pw: Pw { error: Some(msg), focus: PwFocus::Pw1, ..o.pw }, ..o } && refresh is Nothing,
        },
        Command::ChangePassword { .. } => match outcome {
            Ok(()) => n == V { modal_state: ModalState::NoModal, ..o } && refresh is Nothing,
            Err(msg) => n == V { pw: Pw { error: Some(msg), ..o.pw }, ..o } && refresh is Nothing,
        },
        Command::SaveAddedBundle(key) => match outcome {
            Ok(()) => n == V { modal_state: ModalState::NoModal, ..o } && refresh == Refresh::Bundles(Some(key)),
            Err(msg) => n == V { modal_state: with_error(o.modal_state, msg), ..o } && refresh is Nothing,
        },
        Command::SaveModifiedBundle => n == V {
            main_state: MainState::Bundles(BundleState::Default),
            modal_state: ModalState::NoModal,
            ..o
        } && refresh == Refresh::Bundles(None),
        Command::SaveDeletedBundle => match outcome {
            Ok(()) => n == V { modal_state: ModalState::NoModal, ..o } && refresh == Refresh::Bundles(None),
            Err(msg) => n == V { modal_state: with_error(o.modal_state, msg), ..o } && refresh is Nothing,
        },
        Command::SaveAddedDocument(key) => match outcome {
            Ok(()) => n == V {
                modal_state: ModalState::NoModal,
                main_state: MainState::Documents(DocumentState::Default(Some(key))),
                ..o
            } && refresh == Refresh::Documents(Some(key)),
            Err(msg) => n == V { modal_state: with_error(o.modal_state, msg), ..o } && refresh is Nothing,
        },
        Command::SaveModifiedDocument => n == V {
            modal_state: match outcome {
                Ok(()) => ModalState::NoModal,
                Err(_) => o.modal_state,
            },
            main_state: main_after_document_saved(o.main_state),
            ..o
        } && refresh == Refresh::Documents(None),
        Command::SaveDeletedDocument => match outcome {
            Ok(()) => n == V { modal_state: ModalState::NoModal, ..o } && refresh == Refresh::Documents(None),
            Err(msg) => n == V { modal_state: with_error(o.modal_state, msg), ..o } && refresh is Nothing,
        },
    }
}

/// Decides on the actions of the user interface. The user interface code
/// calls `set_action`; the main loop calls `act`, does the work asked for,
/// and calls `conclude`.
pub struct Controller {
    next_action: Action,
}

impl Controller {
    /// The action to be handled next.
    pub closed spec fn pending(&self) -> Action {
        self.next_action
    }

    /// A controller with nothing to do.
    pub fn new() -> (c: Self)
        ensures
            c.pending() is Nothing,
    {
        Controller { next_action: Action::Nothing }
    }

    /// Sets the action to be handled next.
    pub fn set_action(&mut self, action: Action)
        ensures
            final(self).pending() == action,
    {
        self.next_action = action;
    }

    /// Handles the pending action: changes the screen and says which work is
    /// to be done. Opening a bundle or document for modification reads it
    /// from the open file.
    pub fn act(&mut self, pl_file: &PlFile, v: &mut V, current_file: usize, language: String) -> (cmd: Command)
        requires
            case_of(old(v).main_state, old(v).modal_state, old(self).pending()) is StartModifyBundle ==> pl_file.wf()
                && pl_file.actionable() && pl_file.bundle_map().contains_key(old(self).pending()->StartModifyBundle_0.id()),
            case_of(old(v).main_state, old(v).modal_state, old(self).pending()) is StartModifyDocument ==> pl_file.wf()
                && pl_file.actionable() && pl_file.document_map().contains_key(old(self).pending()->StartModifyDocument_0.id()),
        ensures
            final(self).pending() is Nothing,
            acted(*old(v), old(self).pending(), current_file, language, *final(v), cmd),
            case_of(old(v).main_state, old(v).modal_state, old(self).pending()) is StartModifyBundle ==> {
                let key = old(self).pending()->StartModifyBundle_0;
                &&& final(v).main_state matches MainState::Bundles(BundleState::ModifyBundle { v_edit_bundle, .. })
                &&& v_edit_bundle.shows(key, pl_file.bundle_map()[key.id()].1, pl_file.secrets())
            },
            case_of(old(v).main_state, old(v).modal_state, old(self).pending()) is StartModifyDocument ==> {
                let key = old(self).pending()->StartModifyDocument_0;
                &&& final(v).main_state matches MainState::Documents(
                    DocumentState::ModifyDocument { v_edit_document, .. },
                )
                &&& v_edit_document.orig_key == key
                &&& v_edit_document.key == key
                &&& v_edit_document.text@ == pl_file.secrets()[pl_file.document_map()[key.id()].1.secret.0]
            },
    {
        let mut action = Action::Nothing;
        std::mem::swap(&mut action, &mut self.next_action);
        let ghost o = *v;
        let no_modal = matches!(v.modal_state, ModalState::NoModal);
        let bundles_default = matches!(v.main_state, MainState::Bundles(BundleState::Default));
        let documents_default = matches!(v.main_state, MainState::Documents(DocumentState::Default(_)));
        match action {
            Action::Nothing => Command::Nothing,
            Action::StartChangeFile => {
                if no_modal {
                    v.file_selection = FileSelection::reset(current_file);
                    v.modal_state = ModalState::ChangeFile;
                }
                Command::Nothing
            },
            Action::SwitchToKnownFile(idx) => {
                if matches!(v.modal_state, ModalState::ChangeFile) {
                    Command::SwitchToKnownFile(idx)
                } else {
                    Command::Nothing
                }
            },
            Action::SwitchToNewFile(path) => {
                if matches!(v.modal_state, ModalState::ChangeFile) {
                    Command::SwitchToNewFile(path)
                } else {
                    Command::Nothing
                }
            },
            Action::ShowAbout => {
                if no_modal {
                    v.modal_state = ModalState::About;
                }
                Command::Nothing
            },
            Action::ShowLog => {
                if no_modal {
                    v.show_log = true;
                }
                Command::Nothing
            },
            Action::StartChangeLanguage => {
                if no_modal {
                    v.lang = LangSelection { selected: language, error: None };
                    v.modal_state = ModalState::ChangeLanguage;
                }
                Command::Nothing
            },
            Action::FinalizeChangeLanguage => {
                if matches!(v.modal_state, ModalState::ChangeLanguage) {
                    Command::SetLanguage
                } else {
                    Command::Nothing
                }
            },
            Action::SwitchToActionable => {
                if no_modal {
                    Command::OpenWithPassword
                } else {
                    Command::Nothing
                }
            },
            Action::StartFilter => {
                if !no_modal {
                    Command::Nothing
                } else if matches!(v.main_state, MainState::Bundles(_)) {
                    Command::FilterBundles
                } else {
                    Command::FilterDocuments
                }
            },
            Action::StartChangePassword => {
                if no_modal {
                    v.pw = Pw::new();
                    v.modal_state = ModalState::ChangePassword;
                }
                Command::Nothing
            },
            Action::FinalizeChangePassword { old, new } => {
                if matches!(v.modal_state, ModalState::ChangePassword) {
                    Command::ChangePassword { old, new }
                } else {
                    Command::Nothing
                }
            },
            Action::StartAddBundle => {
                if bundles_default && no_modal {
                    v.modal_state = ModalState::AddBundle { v_edit_bundle: VEditBundle::new(), error: None };
                }
                Command::Nothing
            },
            Action::FinalizeAddBundle(key) => {
                if bundles_default && matches!(v.modal_state, ModalState::AddBundle { .. }) {
                    Command::SaveAddedBundle(key)
                } else {
                    Command::Nothing
                }
            },
            Action::StartModifyBundle(key) => {
                if bundles_default && no_modal {
                    let edit = match (pl_file.bundles().get(&key), pl_file.transient()) {
                        (Some(bundle), Some(transient)) => {
                            proof {
                                pl_file.lemma_bundle_resolves(key.id());
                            }
                            VEditBundle::from_bundle(&key, bundle, transient)
                        },
                        _ => VEditBundle::new(),
                    };
                    v.modal_state = ModalState::NoModal;
                    v.main_state = MainState::Bundles(BundleState::ModifyBundle { v_edit_bundle: edit, error: None });
                }
                Command::Nothing
            },
            Action::FinalizeModifyBundle => {
                if no_modal && matches!(v.main_state, MainState::Bundles(BundleState::ModifyBundle { .. })) {
                    Command::SaveModifiedBundle
                } else {
                    Command::Nothing
                }
            },
            Action::StartDeleteBundle(key) => {
                if bundles_default && no_modal {
                    v.modal_state = ModalState::DeleteBundle { key, error: None };
                }
                Command::Nothing
            },
            Action::FinalizeDeleteBundle => {
                if bundles_default && matches!(v.modal_state, ModalState::DeleteBundle { .. }) {
                    Command::SaveDeletedBundle
                } else {
                    Command::Nothing
                }
            },
            Action::StartAddDocument => {
                if documents_default && no_modal {
                    v.modal_state = ModalState::AddDocument { v_edit_document: VEditDocument::new(), error: None };
                }
                Command::Nothing
            },
            Action::FinalizeAddDocument(key) => {
                if documents_default && matches!(v.modal_state, ModalState::AddDocument { .. }) {
                    Command::SaveAddedDocument(key)
                } else {
                    Command::Nothing
                }
            },
            Action::StartModifyDocument(key) => {
                if documents_default && no_modal {
                    let edit = match (pl_file.documents().get(&key), pl_file.transient()) {
                        (Some(document), Some(transient)) => {
                            proof {
                                pl_file.lemma_document_resolves(key.id());
                            }
                            VEditDocument::from_document(&key, document, transient)
                        },
                        _ => VEditDocument::new(),
                    };
                    v.main_state = MainState::Documents(DocumentState::ModifyDocument { v_edit_document: edit, error: None });
                }
                Command::Nothing
            },
            Action::FinalizeModifyDocument => {
                if no_modal && matches!(v.main_state, MainState::Documents(DocumentState::ModifyDocument { .. })) {
                    Command::SaveModifiedDocument
                } else {
                    Command::Nothing
                }
            },
            Action::StartDeleteDocument(key) => {
                if documents_default && no_modal {
                    v.modal_state = ModalState::DeleteDocument { key, error: None };
                }
                Command::Nothing
            },
            Action::FinalizeDeleteDocument => {
                if documents_default && matches!(v.modal_state, ModalState::DeleteDocument { .. }) {
                    Command::SaveDeletedDocument
                } else {
                    Command::Nothing
                }
            },
            Action::Cancel | Action::SilentCancel => {
                v.modal_state = ModalState::NoModal;
                let mut main = MainState::Bundles(BundleState::Default);
                std::mem::swap(&mut main, &mut v.main_state);
                v.main_state = match main {
                    MainState::Bundles(_) => MainState::Bundles(BundleState::Default),
                    MainState::Documents(DocumentState::ModifyDocument { v_edit_document, .. }) => MainState::Documents(
                        DocumentState::Default(Some(v_edit_document.key)),
                    ),
                    MainState::Documents(DocumentState::Default(_)) => MainState::Documents(DocumentState::Default(None)),
                };
                Command::Nothing
            },
        }
    }
}

impl Controller {
    /// Shows the outcome of the work `cmd` (done by the caller after `act`)
    /// on the screen; says which lists are to be rebuilt. `current_file` is
    /// the index of the current file after the work.
    pub fn conclude(v: &mut V, cmd: Command, outcome: Result<(), String>, current_file: usize) -> (refresh: Refresh)
        ensures
            concluded(*old(v), cmd, outcome, current_file, *final(v), refresh),
    {
        match cmd {
            Command::Nothing | Command::FilterBundles | Command::FilterDocuments => Refresh::Nothing,
            Command::SwitchToKnownFile(_) | Command::SwitchToNewFile(_) => match outcome {
                Ok(()) => {
                    *v = V::new();
                    v.file_selection = FileSelection::reset(current_file);
                    Refresh::All
                },
                Err(msg) => {
                    v.file_selection.error = Some(msg);
                    Refresh::Nothing
                },
            },
            Command::SetLanguage => {
                match outcome {
                    Ok(()) => {
                        v.modal_state = ModalState::NoModal;
                    },
                    Err(msg) => {
                        v.lang.error = Some(msg);
                    },
                }
                Refresh::Nothing
            },
            Command::OpenWithPassword => match outcome {
                Ok(()) => {
                    v.pw.error = None;
                    v.find_request_focus = true;
                    Refresh::All
                },
                Err(msg) => {
                    v.pw.focus = PwFocus::Pw1;
                    v.pw.error = Some(msg);
                    Refresh::Nothing
                },
            },
            Command::ChangePassword { .. } => {
                match outcome {
                    Ok(()) => {
                        v.modal_state = ModalState::NoModal;
                    },
                    Err(msg) => {
                        v.pw.error = Some(msg);
                    },
                }
                Refresh::Nothing
            },
            Command::SaveAddedBundle(key) => match outcome {
                Ok(()) => {
                    v.modal_state = ModalState::NoModal;
                    Refresh::Bundles(Some(key))
                },
                Err(msg) => {
                    Self::show_error_in_modal(v, msg);
                    Refresh::Nothing
                },
            },
            Command::SaveModifiedBundle => {
                v.main_state = MainState::Bundles(BundleState::Default);
                v.modal_state = ModalState::NoModal;
                Refresh::Bundles(None)
            },
            Command::SaveDeletedBundle | Command::SaveDeletedDocument => {
                let documents = matches!(cmd, Command::SaveDeletedDocument);
                match outcome {
                    Ok(()) => {
                        v.modal_state = ModalState::NoModal;
                        if documents {
                            Refresh::Documents(None)
                        } else {
                            Refresh::Bundles(None)
                        }
                    },
                    Err(msg) => {
                        Self::show_error_in_modal(v, msg);
                        Refresh::Nothing
                    },
                }
            },
            Command::SaveAddedDocument(key) => match outcome {
                Ok(()) => {
                    v.modal_state = ModalState::NoModal;
                    v.main_state = MainState::Documents(DocumentState::Default(Some(key.duplicate())));
                    Refresh::Documents(Some(key))
                },
                Err(msg) => {
                    Self::show_error_in_modal(v, msg);
                    Refresh::Nothing
                },
            },
            Command::SaveModifiedDocument => {
                if outcome.is_ok() {
                    v.modal_state = ModalState::NoModal;
                }
                let mut main = MainState::Bundles(BundleState::Default);
                std::mem::swap(&mut main, &mut v.main_state);
                v.main_state = match main {
                    MainState::Documents(DocumentState::ModifyDocument { v_edit_document, .. }) => MainState::Documents(
                        DocumentState::Default(Some(v_edit_document.key)),
                    ),
                    other => other,
                };
                Refresh::Documents(None)
            },
        }
    }

    /// Puts the error into the dialog that shows errors of saving.
    fn show_error_in_modal(v: &mut V, msg: String)
        ensures
            *final(v) == (V { modal_state: with_error(old(v).modal_state, msg), ..*old(v) }),
    {
        let mut modal = ModalState::NoModal;
        std::mem::swap(&mut modal, &mut v.modal_state);
        v.modal_state = match modal {
            ModalState::AddBundle { v_edit_bundle, .. } => ModalState::AddBundle { v_edit_bundle, error: Some(msg) },
            ModalState::DeleteBundle { key, .. } => ModalState::DeleteBundle { key, error: Some(msg) },
            ModalState::AddDocument { v_edit_document, .. } => ModalState::AddDocument { v_edit_document, error: Some(msg) },
            ModalState::DeleteDocument { key, .. } => ModalState::DeleteDocument { key, error: Some(msg) },
            other => other,
        };
    }
}

/// Cancelling always closes the dialog and asks for no work, whatever the
/// state of the screen.
pub proof fn law_cancel_closes_dialog(
    o: V,
    action: Action,
    current_file: usize,
    language: String,
    n: V,
    cmd: Command,
)
    requires
        action is Cancel || action is SilentCancel,
        acted(o, action, current_file, language, n, cmd),
    ensures
        n.modal_state is NoModal,
        cmd is Nothing,
        o.main_state is Bundles ==> n.main_state == MainState::Bundles(BundleState::Default),
        o.main_state matches MainState::Documents(DocumentState::ModifyDocument { v_edit_document, .. })
            ==> n.main_state == MainState::Documents(DocumentState::Default(Some(v_edit_document.key))),
        o.main_state matches MainState::Documents(DocumentState::Default(_)) ==> n.main_state
            == MainState::Documents(DocumentState::Default(None)),
        n.pw == o.pw,
        n.show_log == o.show_log,
        n.lang == o.lang,
        n.file_selection == o.file_selection,
        n.find_request_focus == o.find_request_focus,
{
}

/// While a dialog is open, no action but a cancel changes the screen: the
/// actions that belong to the dialog only hand their work to the caller, and
/// all others are ignored.
pub proof fn law_open_dialog_keeps_screen(
    o: V,
    action: Action,
    current_file: usize,
    language: String,
    n: V,
    cmd: Command,
)
    requires
        !(o.modal_state is NoModal),
        !(action is Cancel || action is SilentCancel),
        acted(o, action, current_file, language, n, cmd),
    ensures
        n == o,
{
}

/// Saving from a dialog that failed leaves the dialog open with what was
/// entered, shows the error in it, and leaves the rest of the screen as it
/// was; no list is rebuilt.
pub proof fn law_failed_save_keeps_dialog(
    o: V,
    cmd: Command,
    msg: String,
    current_file: usize,
    n: V,
    refresh: Refresh,
)
    requires
        cmd is SaveAddedBundle || cmd is SaveDeletedBundle || cmd is SaveAddedDocument
            || cmd is SaveDeletedDocument,
        concluded(o, cmd, Err(msg), current_file, n, refresh),
    ensures
        o.modal_state matches ModalState::AddBundle { v_edit_bundle, .. } ==> n.modal_state == (
        ModalState::AddBundle { v_edit_bundle, error: Some(msg) }),
        o.modal_state matches ModalState::DeleteBundle { key, .. } ==> n.modal_state == (ModalState::DeleteBundle {
            key,
            error: Some(msg),
        }),
        o.modal_state matches ModalState::AddDocument { v_edit_document, .. } ==> n.modal_state == (
        ModalState::AddDocument { v_edit_document, error: Some(msg) }),
        o.modal_state matches ModalState::DeleteDocument { key, .. } ==> n.modal_state == (
        ModalState::DeleteDocument { key, error: Some(msg) }),
        !(o.modal_state is AddBundle || o.modal_state is DeleteBundle || o.modal_state is AddDocument
            || o.modal_state is DeleteDocument) ==> n.modal_state == o.modal_state,
        n.main_state == o.main_state,
        n.pw == o.pw,
        n.show_log == o.show_log,
        n.lang == o.lang,
        n.file_selection == o.file_selection,
        n.find_request_focus == o.find_request_focus,
        refresh is Nothing,
{
}

/// Other work that failed keeps its dialog open and shows the error where
/// the dialog shows it: a password change in the password fields, a
/// language change in the language selection, a switch of files in the file
/// selection; what was entered stays, and so does the rest of the screen.
pub proof fn law_failed_work_shows_error(
    o: V,
    cmd: Command,
    msg: String,
    current_file: usize,
    n: V,
    refresh: Refresh,
)
    requires
        cmd is ChangePassword || cmd is SetLanguage || cmd is SwitchToKnownFile || cmd is SwitchToNewFile,
        concluded(o, cmd, Err(msg), current_file, n, refresh),
    ensures
        n.modal_state == o.modal_state,
        n.main_state == o.main_state,
        n.show_log == o.show_log,
        n.find_request_focus == o.find_request_focus,
        refresh is Nothing,
        cmd is ChangePassword ==> n.pw.error == Some(msg) && n.pw.pw1 == o.pw.pw1 && n.pw.pw2 == o.pw.pw2
            && n.pw.pw3 == o.pw.pw3 && n.pw.focus == o.pw.focus && n.lang == o.lang && n.file_selection
            == o.file_selection,
        cmd is SetLanguage ==> n.lang.error == Some(msg) && n.lang.selected == o.lang.selected && n.pw == o.pw
            && n.file_selection == o.file_selection,
        cmd is SwitchToKnownFile || cmd is SwitchToNewFile ==> n.file_selection.error == Some(msg)
            && n.file_selection.current == o.file_selection.current && n.file_selection.new
            == o.file_selection.new && n.pw == o.pw && n.lang == o.lang,
{
}

/// Work that succeeded asks for the lists it changed to be rebuilt, with a
/// new entry selected: an added bundle in the bundle list, an added document
/// in the document list, which the document tab then shows selected; a
/// modified bundle returns the bundle tab to its list, a modified document
/// selects that document; switching files shows the new file's lists; other
/// work rebuilds nothing.
pub proof fn law_success_refreshes_lists(
    o: V,
    cmd: Command,
    current_file: usize,
    n: V,
    refresh: Refresh,
)
    requires
        concluded(o, cmd, Ok(()), current_file, n, refresh),
    ensures
        cmd matches Command::SaveAddedBundle(key) ==> refresh == Refresh::Bundles(Some(key)) && n.main_state
            == o.main_state,
        cmd is SaveModifiedBundle ==> refresh == Refresh::Bundles(None) && n.main_state == MainState::Bundles(
            BundleState::Default,
        ),
        cmd is SaveDeletedBundle ==> refresh == Refresh::Bundles(None) && n.main_state == o.main_state,
        cmd matches Command::SaveAddedDocument(key) ==> refresh == Refresh::Documents(Some(key)) && n.main_state
            == MainState::Documents(DocumentState::Default(Some(key))),
        cmd is SaveModifiedDocument ==> refresh == Refresh::Documents(None),
        o.main_state matches MainState::Documents(DocumentState::ModifyDocument { v_edit_document, .. }) ==> (
        cmd is SaveModifiedDocument ==> n.main_state == MainState::Documents(
            DocumentState::Default(Some(v_edit_document.key)),
        )),
        cmd is SaveDeletedDocument ==> refresh == Refresh::Documents(None) && n.main_state == o.main_state,
        cmd is SwitchToKnownFile || cmd is SwitchToNewFile ==> refresh is All && n.main_state
            == MainState::Bundles(BundleState::Default) && n.modal_state is NoModal
            && n.file_selection.current == current_file && n.pw.pw1@.len() == 0 && n.pw.error is None,
        cmd is OpenWithPassword ==> refresh is All && n.pw.error is None && n.find_request_focus
            && n.main_state == o.main_state && n.modal_state == o.modal_state,
        cmd is SetLanguage || cmd is ChangePassword || cmd is Nothing || cmd is FilterBundles
            || cmd is FilterDocuments ==> refresh is Nothing,
        cmd is SetLanguage || cmd is ChangePassword ==> n.modal_state is NoModal && n.main_state == o.main_state,
{
}

/// With no dialog open, the actions that start something open their dialog
/// with fresh fields, change nothing else on the screen, and ask for no work:
/// the about box, the log, the file selection on the current file, the
/// language selection on the current language, empty password fields, an
/// empty bundle or document to add (on the list of that tab), the entry to
/// delete.
pub proof fn law_start_opens_dialog(
    o: V,
    action: Action,
    current_file: usize,
    language: String,
    n: V,
    cmd: Command,
)
    requires
        o.modal_state is NoModal,
        acted(o, action, current_file, language, n, cmd),
    ensures
        action is ShowAbout ==> n.modal_state is About && n.main_state == o.main_state && cmd is Nothing,
        action is ShowLog ==> n.show_log && n.modal_state is NoModal && n.main_state == o.main_state && cmd is Nothing,
        action is StartChangeFile ==> n.modal_state is ChangeFile && n.file_selection.current == current_file
            && n.file_selection.new@.len() == 0 && n.file_selection.error is None && n.main_state == o.main_state
            && n.pw == o.pw && cmd is Nothing,
        action is StartChangeLanguage ==> n.modal_state is ChangeLanguage && n.lang.selected == language
            && n.lang.error is None && n.main_state == o.main_state && cmd is Nothing,
        action is StartChangePassword ==> n.modal_state is ChangePassword && n.pw.pw1@.len() == 0
            && n.pw.pw2@.len() == 0 && n.pw.pw3@.len() == 0 && n.pw.error is None && n.main_state == o.main_state
            && cmd is Nothing,
        action is StartAddBundle && o.main_state == MainState::Bundles(BundleState::Default) ==> (
        n.modal_state matches ModalState::AddBundle { v_edit_bundle, error } && v_edit_bundle.key.text().len()
            == 0 && v_edit_bundle.description@.len() == 0 && v_edit_bundle.v_edit_creds@.len() == 0
            && error is None) && n.main_state == o.main_state && cmd is Nothing,
        action matches Action::StartDeleteBundle(k) ==> (o.main_state == MainState::Bundles(BundleState::Default)
            ==> n.modal_state == (ModalState::DeleteBundle { key: k, error: None }) && n.main_state == o.main_state
            && cmd is Nothing),
        action is StartAddDocument && (o.main_state matches MainState::Documents(DocumentState::Default(_))) ==> (
        n.modal_state matches ModalState::AddDocument { v_edit_document, error } && v_edit_document.key.text().len()
            == 0 && v_edit_document.text@.len() == 0 && error is None) && n.main_state == o.main_state
            && cmd is Nothing,
        action matches Action::StartDeleteDocument(k) ==> ((o.main_state matches MainState::Documents(
            DocumentState::Default(_),
        )) ==> n.modal_state == (ModalState::DeleteDocument { key: k, error: None }) && n.main_state
            == o.main_state && cmd is Nothing),
        action is StartFilter ==> n == o && (if o.main_state is Bundles {
            cmd is FilterBundles
        } else {
            cmd is FilterDocuments
        }),
        action is SwitchToActionable ==> n == o && cmd is OpenWithPassword,
        n.show_log == o.show_log || action is ShowLog,
        n.lang == o.lang || action is StartChangeLanguage,
        n.file_selection == o.file_selection || action is StartChangeFile,
        n.pw == o.pw || action is StartChangePassword,
        n.find_request_focus == o.find_request_focus,
{
}

/// Confirming a dialog hands its work to the caller and leaves the screen as
/// it is; the outcome of the work decides what the screen shows next.
pub proof fn law_confirm_hands_over_work(
    o: V,
    action: Action,
    current_file: usize,
    language: String,
    n: V,
    cmd: Command,
)
    requires
        acted(o, action, current_file, language, n, cmd),
    ensures
        action matches Action::SwitchToKnownFile(i) ==> (o.modal_state is ChangeFile ==> n == o && cmd
            == Command::SwitchToKnownFile(i)),
        action matches Action::SwitchToNewFile(p) ==> (o.modal_state is ChangeFile ==> n == o && cmd
            == Command::SwitchToNewFile(p)),
        o.modal_state is ChangeLanguage && action is FinalizeChangeLanguage ==> n == o && cmd is SetLanguage,
        action matches Action::FinalizeChangePassword { old, new } ==> (o.modal_state is ChangePassword ==> n == o
            && cmd == (Command::ChangePassword { old, new })),
        action matches Action::FinalizeAddBundle(k) ==> (o.modal_state is AddBundle && o.main_state
            == MainState::Bundles(BundleState::Default) ==> n == o && cmd == Command::SaveAddedBundle(k)),
        o.modal_state is DeleteBundle && o.main_state == MainState::Bundles(BundleState::Default)
            && action is FinalizeDeleteBundle ==> n == o && cmd is SaveDeletedBundle,
        o.modal_state is NoModal && (o.main_state matches MainState::Bundles(BundleState::ModifyBundle { .. }))
            && action is FinalizeModifyBundle ==> n == o && cmd is SaveModifiedBundle,
        action matches Action::FinalizeAddDocument(k) ==> (o.modal_state is AddDocument && (o.main_state matches MainState::Documents(
            DocumentState::Default(_),
        )) ==> n == o && cmd == Command::SaveAddedDocument(k)),
        o.modal_state is DeleteDocument && (o.main_state matches MainState::Documents(DocumentState::Default(_)))
            && action is FinalizeDeleteDocument ==> n == o && cmd is SaveDeletedDocument,
        o.modal_state is NoModal && (o.main_state matches MainState::Documents(DocumentState::ModifyDocument { .. }))
            && action is FinalizeModifyDocument ==> n == o && cmd is SaveModifiedDocument,
{
}

/// Work that succeeded closes the dialog it came from.
pub proof fn law_success_closes_dialog(
    o: V,
    cmd: Command,
    current_file: usize,
    n: V,
    refresh: Refresh,
)
    requires
        !(cmd is Nothing || cmd is FilterBundles || cmd is FilterDocuments || cmd is OpenWithPassword),
        concluded(o, cmd, Ok(()), current_file, n, refresh),
    ensures
        n.modal_state is NoModal,
{
}

/// A password that does not open the file keeps the entered password, shows
/// the error and puts the focus back on the password field.
pub proof fn law_wrong_password_asks_again(
    o: V,
    msg: String,
    current_file: usize,
    n: V,
    refresh: Refresh,
)
    requires
        concluded(o, Command::OpenWithPassword, Err(msg), current_file, n, refresh),
    ensures
        n.pw.pw1 == o.pw.pw1,
        n.pw.error == Some(msg),
        n.pw.focus == PwFocus::Pw1,
        n.main_state == o.main_state,
        n.modal_state == o.modal_state,
        refresh is Nothing,
{
}

/// The last action set wins: setting `first` and then `second` leaves the
/// controller as setting `second` alone does.
pub proof fn law_last_action_wins(after_both: Controller, after_second: Controller, second: Action)
    requires
        after_both.pending() == second,
        after_second.pending() == second,
    ensures
        after_both == after_second,
{
}

/// `act` consumes the pending action: a further `act` without a new action
/// changes nothing on the screen and asks for no work, whatever the state.
pub proof fn law_second_act_changes_nothing(
    o: V,
    current_file: usize,
    language: String,
    n: V,
    cmd: Command,
)
    requires
        acted(o, Action::Nothing, current_file, language, n, cmd),
    ensures
        n == o,
        cmd is Nothing,
{
}

} // verus!
