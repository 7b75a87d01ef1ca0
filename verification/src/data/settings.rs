//! The settings of prolock: the known files, the current one, and the language.
use super::pl_file::str_eq;
use super::paths::{
    ends_with, lemma_file_names_plain,
    document_folder_of, document_path, document_path_in, home_dir, joined, language_of, language_of_locale, opt_text,
    system_locale, PROD_DOC_FILE, TEMP_DOC_FILE,
};
use vstd::prelude::*;

verus! {

/// The name of the settings file in prolock's folder.
pub const SETTINGS_FILE: &'static str = "settings";

/// The known prolock files, which of them is open, and the language.
pub struct Settings {
    pub files: Vec<String>,
    pub current_file: usize,
    pub language: String,
}

impl Settings {
    /// The current file is one of the known files.
    pub open spec fn wf(&self) -> bool {
        self.current_file < self.files@.len()
    }

    /// The settings on first start: the default file, and the language of the
    /// system's locale. `None` where the home directory is unknown.
    pub fn default(is_test: bool) -> (r: Option<Self>)
        ensures
            r matches Some(s) ==> s.wf() && s.current_file == 0 && s.files@.len() == 1 && exists|home: Seq<char>|
                s.files@[0]@ == joined(document_folder_of(home, is_test), PROD_DOC_FILE@),
            r matches Some(s) ==> exists|locale: Option<Seq<char>>| s.language@ == language_of(locale),
    {
        match home_dir() {
            Some(home) => {
                let locale = system_locale();
                let ghost l = opt_text(locale);
                let s = Self::default_in(home.as_str(), is_test, locale);
                assert(s.language@ == language_of(l));
                assert(s.files@[0]@ == joined(document_folder_of(home@, is_test), PROD_DOC_FILE@));
                Some(s)
            },
            None => None,
        }
    }

    /// The settings on first start for the given home directory and system
    /// locale: the default file, and the language of the locale.
    pub fn default_in(home: &str, is_test: bool, locale: Option<String>) -> (s: Self)
        ensures
            s.wf(),
            s.current_file == 0,
            s.files@.len() == 1,
            s.files@[0]@ == joined(document_folder_of(home@, is_test), PROD_DOC_FILE@),
            s.language@ == language_of(opt_text(locale)),
    {
        let mut files = Vec::new();
        files.push(document_path_in(home, is_test, PROD_DOC_FILE));
        Settings { files, current_file: 0, language: language_of_locale(locale) }
    }

    /// The path of the current file.
    pub fn current_file(&self) -> (r: &str)
        requires
            self.wf(),
        ensures
            r@ == self.files@[self.current_file as int]@,
    {
        self.files[self.current_file].as_str()
    }

    /// Makes the known file at `idx` the current one; the settings need to be
    /// saved afterwards.
    pub fn set_current_file(&mut self, idx: usize)
        requires
            old(self).wf(),
            idx < old(self).files@.len(),
        ensures
            final(self).wf(),
            final(self).current_file == idx,
            final(self).files == old(self).files,
            final(self).language == old(self).language,
    {
        self.current_file = idx;
    }

    /// Adds a file to the known files and makes it the current one; the
    /// settings need to be saved afterwards.
    pub fn add_and_set_file(&mut self, file: String)
        requires
            old(self).files@.len() < usize::MAX,
        ensures
            final(self).wf(),
            final(self).files@ == old(self).files@.push(file),
            final(self).current_file == old(self).files@.len(),
            final(self).language == old(self).language,
    {
        self.files.push(file);
        self.current_file = self.files.len() - 1;
    }

    /// Removes `file` from the known files, wherever it occurs; the current
    /// file stays the current one, so it cannot be forgotten itself. Returns
    /// whether anything was removed; the settings need to be saved afterwards.
    pub fn forget_file(&mut self, file: &str) -> (r: bool)
        requires
            old(self).wf(),
        ensures
            final(self).wf(),
            final(self).language == old(self).language,
            r <==> old(self).files@[old(self).current_file as int]@ != file@
                && exists|i: int| 0 <= i < old(self).files@.len() && (#[trigger] old(self).files@[i])@ == file@,
            r ==> final(self).files@ == old(self).files@.filter(|f: String| f@ != file@),
            !r ==> final(self).files == old(self).files && final(self).current_file == old(self).current_file,
            final(self).files@[final(self).current_file as int] == old(self).files@[old(self).current_file as int],
    {
        if str_eq(self.files[self.current_file].as_str(), file) {
            return false;
        }
        let ghost old_files = self.files@;
        let ghost keep = |f: String| f@ != file@;
        let mut kept: Vec<String> = Vec::new();
        let mut new_current: usize = 0;
        let mut found = false;
        let mut i: usize = 0;
        while i < self.files.len()
            invariant
                i <= old_files.len(),
                keep == (|f: String| f@ != file@),
                self.files@ == old_files,
                self.current_file < old_files.len(),
                old_files[self.current_file as int]@ != file@,
                kept@ == old_files.take(i as int).filter(keep),
                i > self.current_file ==> new_current < kept@.len() && kept@[new_current as int]
                    == old_files[self.current_file as int],
                found <==> exists|j: int| 0 <= j < i && (#[trigger] old_files[j])@ == file@,
            decreases old_files.len() - i,
        {
            let f = &self.files[i];
            proof {
                assert(old_files.take(i + 1) == old_files.take(i as int).push(old_files[i as int]));
                old_files.take(i as int).lemma_filter_push(old_files[i as int], keep);
            }
            assert(*f == old_files[i as int]);
            if str_eq(f.as_str(), file) {
                found = true;
            } else {
                if i == self.current_file {
                    new_current = kept.len();
                }
                kept.push(f.clone());
            }
            i += 1;
        }
        proof {
            assert(old_files.take(old_files.len() as int) == old_files);
        }
        if found {
            self.files = kept;
            self.current_file = new_current;
        }
        found
    }

    /// Sets the language; the settings need to be saved afterwards.
    pub fn set_language(&mut self, lang: &str)
        ensures
            final(self).language@ == lang@,
            final(self).files == old(self).files,
            final(self).current_file == old(self).current_file,
    {
        self.language = lang.to_owned();
    }

    /// The path of the settings file.
    pub fn my_file(is_test: bool) -> (r: Option<String>)
        ensures
            r matches Some(p) ==> exists|home: Seq<char>| p@ == joined(document_folder_of(home, is_test), SETTINGS_FILE@),
    {
        document_path(is_test, SETTINGS_FILE)
    }

    /// The path of the default prolock file.
    pub fn prod_document_path(is_test: bool) -> (r: Option<String>)
        ensures
            r matches Some(p) ==> exists|home: Seq<char>| p@ == joined(document_folder_of(home, is_test), PROD_DOC_FILE@),
            r matches Some(p) ==> ends_with(p@, PROD_DOC_FILE@),
    {
        proof {
            lemma_file_names_plain();
        }
        document_path(is_test, PROD_DOC_FILE)
    }

    /// The path of the temporary file written while saving.
    pub fn temp_document_path(is_test: bool) -> (r: Option<String>)
        ensures
            r matches Some(p) ==> exists|home: Seq<char>| p@ == joined(document_folder_of(home, is_test), TEMP_DOC_FILE@),
            r matches Some(p) ==> ends_with(p@, TEMP_DOC_FILE@),
    {
        proof {
            lemma_file_names_plain();
        }
        document_path(is_test, TEMP_DOC_FILE)
    }
}

} // verus!
