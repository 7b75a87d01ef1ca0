//! The list of known prolock files and the current one.
use super::paths::{
    ends_with, lemma_file_names_plain,document_folder_of, document_path, document_path_in, home_dir, joined, PROD_DOC_FILE, TEMP_DOC_FILE};
use vstd::prelude::*;

verus! {

/// The name of the file list in prolock's folder.
pub const FILE_LIST_FILE: &'static str = "files";

/// The known prolock files and which of them is open.
pub struct FileList {
    pub files: Vec<String>,
    pub current_file: usize,
}

impl FileList {
    /// The current file is one of the known files.
    pub open spec fn wf(&self) -> bool {
        self.current_file < self.files@.len()
    }

    /// The file list on first start: just the default file. `None` where the
    /// home directory is unknown.
    pub fn default(is_test: bool) -> (r: Option<Self>)
        ensures
            r matches Some(s) ==> s.wf() && s.current_file == 0 && s.files@.len() == 1 && exists|home: Seq<char>|
                s.files@[0]@ == joined(document_folder_of(home, is_test), PROD_DOC_FILE@),
    {
        match home_dir() {
            Some(home) => Some(Self::default_in(home.as_str(), is_test)),
            None => None,
        }
    }

    /// The file list on first start for the given home directory: just the
    /// default file.
    pub fn default_in(home: &str, is_test: bool) -> (l: Self)
        ensures
            l.wf(),
            l.current_file == 0,
            l.files@.len() == 1,
            l.files@[0]@ == joined(document_folder_of(home@, is_test), PROD_DOC_FILE@),
    {
        let mut files = Vec::new();
        files.push(document_path_in(home, is_test, PROD_DOC_FILE));
        FileList { files, current_file: 0 }
    }

    /// The path of the current file.
    pub fn current_file(&self) -> (r: &str)
        requires
            self.wf(),
        ensures
            r@ == self.files@[self.current_file as int]@,
    {
        self.files[self.current_file].as_str()
    }

    /// Makes the known file at `idx` the current one; the file list needs to be
    /// saved afterwards.
    pub fn set_current_file(&mut self, idx: usize)
        requires
            old(self).wf(),
            idx < old(self).files@.len(),
        ensures
            final(self).wf(),
            final(self).current_file == idx,
            final(self).files == old(self).files,
    {
        self.current_file = idx;
    }

    /// Adds a file to the known files and makes it the current one; the
    /// file list needs to be saved afterwards.
    pub fn add_and_set_file(&mut self, file: String)
        requires
            old(self).files@.len() < usize::MAX,
        ensures
            final(self).wf(),
            final(self).files@ == old(self).files@.push(file),
            final(self).current_file == old(self).files@.len(),
    {
        self.files.push(file);
        self.current_file = self.files.len() - 1;
    }

    /// The path of the file list.
    pub fn my_file(is_test: bool) -> (r: Option<String>)
        ensures
            r matches Some(p) ==> exists|home: Seq<char>| p@ == joined(document_folder_of(home, is_test), FILE_LIST_FILE@),
    {
        document_path(is_test, FILE_LIST_FILE)
    }

    /// The path of the default prolock file.
    pub fn prod_document_path(is_test: bool) -> (r: Option<String>)
        ensures
            r matches Some(p) ==> exists|home: Seq<char>| p@ == joined(document_folder_of(home, is_test), PROD_DOC_FILE@),
            r matches Some(p) ==> ends_with(p@, PROD_DOC_FILE@),
    {
        proof {
            lemma_file_names_plain();
        }
        document_path(is_test, PROD_DOC_FILE)
    }

    /// The path of the temporary file written while saving.
    pub fn temp_document_path(is_test: bool) -> (r: Option<String>)
        ensures
            r matches Some(p) ==> exists|home: Seq<char>| p@ == joined(document_folder_of(home, is_test), TEMP_DOC_FILE@),
            r matches Some(p) ==> ends_with(p@, TEMP_DOC_FILE@),
    {
        proof {
            lemma_file_names_plain();
        }
        document_path(is_test, TEMP_DOC_FILE)
    }
}

} // verus!
