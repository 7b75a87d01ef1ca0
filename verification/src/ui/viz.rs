//! The state of the user interface that the controller decides on.
use crate::data::bundle::Bundle;
use crate::data::document::Document;
use crate::data::key::Key;
use crate::data::pl_file::{creds_show, PlFile};
use crate::data::transient::Transient;
use vstd::prelude::*;

verus! {

/// A credential as edited: name and secret in clear.
pub struct VEditCred {
    pub name: String,
    pub secret: String,
}

/// A bundle as edited.
pub struct VEditBundle {
    /// The name of the bundle being changed (empty for a new bundle).
    pub orig_key: Key,
    pub key: Key,
    pub description: String,
    pub v_edit_creds: Vec<VEditCred>,
    pub request_focus: bool,
}

/// A document as edited.
pub struct VEditDocument {
    /// The name of the document being changed (empty for a new document).
    pub orig_key: Key,
    pub key: Key,
    pub text: String,
    pub request_focus: bool,
}

/// Which password field has the focus.
#[derive(PartialEq, Eq, Structural, Clone, Copy, Debug)]
pub enum PwFocus {
    NoFocus,
    Pw1,
    Pw2,
    Pw3,
}

/// The password fields.
pub struct Pw {
    pub pw1: String,
    pub pw2: String,
    pub pw3: String,
    pub error: Option<String>,
    pub focus: PwFocus,
}

/// The language selection.
pub struct LangSelection {
    pub selected: String,
    pub error: Option<String>,
}

/// The file selection.
pub struct FileSelection {
    /// The index of the chosen known file; the number of known files stands
    /// for the new file.
    pub current: usize,
    /// The path of a new file.
    pub new: String,
    pub error: Option<String>,
}

/// What the bundle tab shows.
pub enum BundleState {
    Default,
    ModifyBundle { v_edit_bundle: VEditBundle, error: Option<String> },
}

/// What the document tab shows; `Default` names the selected document.
pub enum DocumentState {
    Default(Option<Key>),
    ModifyDocument { v_edit_document: VEditDocument, error: Option<String> },
}

/// The main area: the bundles or the documents.
pub enum MainState {
    Bundles(BundleState),
    Documents(DocumentState),
}

/// The modal dialog that is open, if any.
pub enum ModalState {
    NoModal,
    About,
    ChangePassword,
    ChangeFile,
    ChangeLanguage,
    AddBundle { v_edit_bundle: VEditBundle, error: Option<String> },
    DeleteBundle { key: Key, error: Option<String> },
    AddDocument { v_edit_document: VEditDocument, error: Option<String> },
    DeleteDocument { key: Key, error: Option<String> },
}

/// The state of the user interface.
pub struct V {
    pub main_state: MainState,
    pub modal_state: ModalState,
    pub show_log: bool,
    pub pw: Pw,
    pub lang: LangSelection,
    pub file_selection: FileSelection,
    pub find_request_focus: bool,
}

impl FileSelection {
    /// The selection as the file dialog opens: the current file chosen, no
    /// new path, no error.
    pub open spec fn is_reset(self, current: usize) -> bool {
        self.current == current && self.new@.len() == 0 && self.error is None
    }

    /// A selection that chooses the known file `current`.
    pub fn reset(current: usize) -> (s: Self)
        ensures
            s.is_reset(current),
    {
        FileSelection { current, new: String::new(), error: None }
    }
}

impl Pw {
    /// Empty fields, no error, no focus.
    pub fn new() -> (p: Self)
        ensures
            p.pw1@.len() == 0,
            p.pw2@.len() == 0,
            p.pw3@.len() == 0,
            p.error is None,
            p.focus == PwFocus::NoFocus,
    {
        Pw { pw1: String::new(), pw2: String::new(), pw3: String::new(), error: None, focus: PwFocus::NoFocus }
    }
}

impl V {
    /// The initial state: the bundle tab, no dialog.
    pub fn new() -> (v: Self)
        ensures
            v.main_state matches MainState::Bundles(BundleState::Default),
            v.modal_state is NoModal,
            !v.show_log,
            v.pw.pw1@.len() == 0,
            v.pw.pw2@.len() == 0,
            v.pw.pw3@.len() == 0,
            v.pw.error is None,
            v.pw.focus == PwFocus::NoFocus,
            v.lang.selected@.len() == 0,
            v.lang.error is None,
            v.file_selection.current == 0,
            v.file_selection.new@.len() == 0,
            v.file_selection.error is None,
            !v.find_request_focus,
    {
        V {
            main_state: MainState::Bundles(BundleState::Default),
            modal_state: ModalState::NoModal,
            show_log: false,
            pw: Pw::new(),
            lang: LangSelection { selected: String::new(), error: None },
            file_selection: FileSelection::reset(0),
            find_request_focus: false,
        }
    }
}

impl VEditBundle {
    /// An empty bundle to be filled in.
    pub fn new() -> (e: Self)
        ensures
            e.key.text().len() == 0,
            e.orig_key.text().len() == 0,
            e.description@.len() == 0,
            e.v_edit_creds@.len() == 0,
            e.request_focus,
    {
        VEditBundle {
            orig_key: Key::new(String::new()),
            key: Key::new(String::new()),
            description: String::new(),
            v_edit_creds: Vec::new(),
            request_focus: true,
        }
    }

    /// The credential texts: name and secret of each.
    pub open spec fn texts(&self) -> Seq<(Seq<char>, Seq<char>)> {
        self.v_edit_creds@.map_values(|c: VEditCred| (c.name@, c.secret@))
    }

    /// The edited bundle shows `bundle` under `key`, with the secrets resolved.
    pub open spec fn shows(&self, key: Key, bundle: Bundle, secrets: Map<u64, Seq<char>>) -> bool {
        &&& self.orig_key == key
        &&& self.key == key
        &&& self.description@ == bundle.description@
        &&& creds_show(bundle.creds@, secrets, self.texts())
    }

    /// The bundle under `key`, with its secrets in clear, ready to be edited.
    pub fn from_bundle(key: &Key, bundle: &Bundle, transient: &Transient) -> (e: Self)
        requires
            forall|i: int| 0 <= i < bundle.creds@.len() ==> transient.secrets().contains_key(
                (#[trigger] bundle.creds@[i]).name.0,
            ) && transient.secrets().contains_key(bundle.creds@[i].secret.0),
        ensures
            e.shows(*key, *bundle, transient.secrets()),
    {
        let mut creds: Vec<VEditCred> = Vec::new();
        let mut i: usize = 0;
        while i < bundle.creds.len()
            invariant
                i <= bundle.creds@.len(),
                creds@.len() == i,
                forall|j: int| 0 <= j < bundle.creds@.len() ==> transient.secrets().contains_key(
                    (#[trigger] bundle.creds@[j]).name.0,
                ) && transient.secrets().contains_key(bundle.creds@[j].secret.0),
                forall|j: int| 0 <= j < i ==> (#[trigger] creds@[j]).name@ == transient.secrets()[bundle.creds@[j].name.0]
                    && creds@[j].secret@ == transient.secrets()[bundle.creds@[j].secret.0],
            decreases bundle.creds@.len() - i,
        {
            let c = &bundle.creds[i];
            let name = c.name(transient).to_owned();
            let secret = c.secret(transient).to_owned();
            creds.push(VEditCred { name, secret });
            i = i + 1;
        }
        let e = VEditBundle {
            orig_key: key.duplicate(),
            key: key.duplicate(),
            description: bundle.description.clone(),
            v_edit_creds: creds,
            request_focus: true,
        };
        assert forall|j: int| 0 <= j < bundle.creds@.len() implies {
            &&& transient.secrets().contains_key((#[trigger] bundle.creds@[j]).name.0)
            &&& transient.secrets().contains_key(bundle.creds@[j].secret.0)
            &&& transient.secrets()[bundle.creds@[j].name.0] == e.texts()[j].0
            &&& transient.secrets()[bundle.creds@[j].secret.0] == e.texts()[j].1
        } by {
            assert(e.v_edit_creds@[j] == creds@[j]);
        }
        e
    }

    /// The credentials as pairs of name and secret.
    pub fn cred_pairs(&self) -> (r: Vec<(String, String)>)
        ensures
            crate::data::pl_file::cred_texts(r@) == self.texts(),
    {
        let mut r: Vec<(String, String)> = Vec::new();
        let mut i: usize = 0;
        while i < self.v_edit_creds.len()
            invariant
                i <= self.v_edit_creds@.len(),
                r@.len() == i,
                crate::data::pl_file::cred_texts(r@) == self.texts().take(i as int),
            decreases self.v_edit_creds@.len() - i,
        {
            let c = &self.v_edit_creds[i];
            let ghost before = r@;
            r.push((c.name.clone(), c.secret.clone()));
            assert forall|j: int| 0 <= j < i + 1 implies crate::data::pl_file::cred_texts(r@)[j]
                == self.texts().take(i + 1)[j] by {
                if j < i {
                    assert(r@[j] == before[j]);
                    assert(crate::data::pl_file::cred_texts(before)[j] == self.texts().take(i as int)[j]);
                }
            }
            assert(crate::data::pl_file::cred_texts(r@) =~= self.texts().take(i + 1));
            i = i + 1;
        }
        assert(self.texts().take(self.v_edit_creds@.len() as int) =~= self.texts());
        r
    }
}

impl VEditDocument {
    /// An empty document to be filled in.
    pub fn new() -> (e: Self)
        ensures
            e.key.text().len() == 0,
            e.orig_key.text().len() == 0,
            e.text@.len() == 0,
            e.request_focus,
    {
        VEditDocument {
            orig_key: Key::new(String::new()),
            key: Key::new(String::new()),
            text: String::new(),
            request_focus: true,
        }
    }

    /// The document under `key`, with its text in clear, ready to be edited.
    pub fn from_document(key: &Key, document: &Document, transient: &Transient) -> (e: Self)
        requires
            transient.secrets().contains_key(document.secret.0),
        ensures
            e.orig_key == *key,
            e.key == *key,
            e.text@ == transient.secrets()[document.secret.0],
    {
        VEditDocument {
            orig_key: key.duplicate(),
            key: key.duplicate(),
            text: document.text(transient).to_owned(),
            request_focus: true,
        }
    }
}

} // verus!
