//! Where prolock keeps its files, and which language it starts with.
use oxilangtag::LanguageTag;
use std::path::PathBuf;
use vstd::prelude::*;

verus! {

/// The folder below the home directory that holds prolock's files.
pub const PROD_DOC_FOLDER: &'static str = ".prolock";

/// The folder used instead in test mode.
pub const TEST_DOC_FOLDER: &'static str = ".prolock_test";

/// The name of the default prolock file.
pub const PROD_DOC_FILE: &'static str = "secrets";

/// The name of the temporary file written while saving.
pub const TEMP_DOC_FILE: &'static str = "secrets_temp";

/// The language used where the system's locale cannot be used.
pub const DEFAULT_LOCALE: &'static str = "en";

/// The path that `PathBuf::push` makes of `base` and `name`.
pub uninterp spec fn joined(base: Seq<char>, name: Seq<char>) -> Seq<char>;

/// Whether `c` may stand in a plain name: an ASCII letter or digit, `_`,
/// `-` or `.`.
pub open spec fn plain_char(c: char) -> bool {
    ||| 'a' <= c <= 'z'
    ||| 'A' <= c <= 'Z'
    ||| '0' <= c <= '9'
    ||| c == '_'
    ||| c == '-'
    ||| c == '.'
}

/// A plain file or folder name: not empty, of plain characters only; it
/// holds no separator, root or prefix, so it is a relative path.
pub open spec fn plain_name(n: Seq<char>) -> bool {
    n.len() > 0 && forall|i: int| 0 <= i < n.len() ==> plain_char(#[trigger] n[i])
}

/// Whether `p` ends with `n`.
pub open spec fn ends_with(p: Seq<char>, n: Seq<char>) -> bool {
    n.len() <= p.len() && p.skip(p.len() - n.len()) == n
}

/// `PathBuf::push`: `name` appended to `base` as a path component (or
/// replacing it, where `name` is absolute). A relative name is appended as
/// it is, after a separator where one is needed, so the path ends with a
/// plain name pushed onto it.
#[verifier::external_body]
pub(crate) fn join_path(base: &str, name: &str) -> (r: String)
    ensures
        r@ == joined(base@, name@),
        plain_name(name@) ==> ends_with(r@, name@),
{
    let mut p = PathBuf::from(base);
    p.push(name);
    p.to_string_lossy().into_owned()
}

/// `dirs::home_dir`: the home directory of the user, taken from the
/// environment; `None` where it cannot be determined (or is not valid UTF-8).
/// Nothing more is known of the result.
#[verifier::external_body]
pub(crate) fn home_dir() -> (r: Option<String>) {
    dirs::home_dir().and_then(|p| p.into_os_string().into_string().ok())
}

/// `sys_locale::get_locale`: the locale of the system, taken from the
/// environment. Nothing is known of the result.
#[verifier::external_body]
pub(crate) fn system_locale() -> (r: Option<String>) {
    sys_locale::get_locale()
}

/// The primary language subtag of a language tag, or nothing where the tag
/// is not a well-formed RFC 5646 tag (`oxilangtag::LanguageTag::parse`, then
/// `primary_language`).
pub uninterp spec fn primary_language_of(tag: Seq<char>) -> Option<Seq<char>>;

/// `oxilangtag::LanguageTag::parse` followed by `primary_language`; the
/// primary language is a prefix of the tag.
#[verifier::external_body]
pub(crate) fn primary_language(tag: String) -> (r: Option<String>)
    ensures
        match r {
            Some(l) => primary_language_of(tag@) == Some(l@) && tag@.take(l@.len() as int) == l@,
            None => primary_language_of(tag@) is None,
        },
{
    match LanguageTag::parse(tag) {
        Ok(t) => Some(t.primary_language().to_string()),
        Err(_) => None,
    }
}

/// The language of a locale: its primary language, or that of the default
/// locale where the locale is missing or malformed.
pub open spec fn language_of(locale: Option<Seq<char>>) -> Seq<char> {
    let tag = match locale {
        Some(l) => l,
        None => DEFAULT_LOCALE@,
    };
    match primary_language_of(tag) {
        Some(l) => l,
        None => match primary_language_of(DEFAULT_LOCALE@) {
            Some(l) => l,
            None => DEFAULT_LOCALE@,
        },
    }
}

/// The text of an optional string.
pub open spec fn opt_text(o: Option<String>) -> Option<Seq<char>> {
    match o {
        Some(s) => Some(s@),
        None => None,
    }
}

/// The language for a locale (see `language_of`).
pub fn language_of_locale(locale: Option<String>) -> (r: String)
    ensures
        r@ == language_of(opt_text(locale)),
{
    let tag = match locale {
        Some(l) => l,
        None => DEFAULT_LOCALE.to_owned(),
    };
    match primary_language(tag) {
        Some(l) => l,
        None => match primary_language(DEFAULT_LOCALE.to_owned()) {
            Some(l) => l,
            None => DEFAULT_LOCALE.to_owned(),
        },
    }
}

/// The language of the system's locale.
pub fn default_language() -> (r: String)
    ensures
        exists|locale: Option<Seq<char>>| r@ == language_of(locale),
{
    let locale = system_locale();
    let ghost l = opt_text(locale);
    let r = language_of_locale(locale);
    assert(r@ == language_of(l));
    r
}

/// The folder of prolock's files below the home directory.
pub open spec fn document_folder_of(home: Seq<char>, is_test: bool) -> Seq<char> {
    joined(home, if is_test { TEST_DOC_FOLDER@ } else { PROD_DOC_FOLDER@ })
}

/// The folder of prolock's files below the given home directory.
pub fn document_folder_in(home: &str, is_test: bool) -> (r: String)
    ensures
        r@ == document_folder_of(home@, is_test),
{
    join_path(home, if is_test { TEST_DOC_FOLDER } else { PROD_DOC_FOLDER })
}

/// The folder of prolock's files; `None` where the home directory is unknown.
pub fn document_folder(is_test: bool) -> (r: Option<String>)
    ensures
        r matches Some(f) ==> exists|home: Seq<char>| f@ == document_folder_of(home, is_test),
{
    match home_dir() {
        Some(home) => Some(document_folder_in(home.as_str(), is_test)),
        None => None,
    }
}

/// A file in the folder of prolock's files below the given home directory.
pub fn document_path_in(home: &str, is_test: bool, file: &str) -> (r: String)
    ensures
        r@ == joined(document_folder_of(home@, is_test), file@),
        plain_name(file@) ==> ends_with(r@, file@),
{
    let folder = document_folder_in(home, is_test);
    join_path(folder.as_str(), file)
}

/// A file in the folder of prolock's files; `None` where the home directory
/// is unknown.
pub fn document_path(is_test: bool, file: &str) -> (r: Option<String>)
    ensures
        r matches Some(p) ==> exists|home: Seq<char>| p@ == joined(document_folder_of(home, is_test), file@),
        plain_name(file@) ==> (r matches Some(p) ==> ends_with(p@, file@)),
{
    match home_dir() {
        Some(home) => Some(document_path_in(home.as_str(), is_test, file)),
        None => None,
    }
}

/// The names of the default file and of the temporary file are plain names.
pub proof fn lemma_file_names_plain()
    ensures
        plain_name(PROD_DOC_FILE@),
        plain_name(TEMP_DOC_FILE@),
{
    reveal_strlit("secrets");
    reveal_strlit("secrets_temp");
}

/// The temporary file written while saving is never the prolock file itself:
/// a path that ends with the temporary file's name differs from one that ends
/// with the default file's name.
pub proof fn law_temp_path_differs(temp: Seq<char>, document: Seq<char>)
    requires
        ends_with(temp, TEMP_DOC_FILE@),
        ends_with(document, PROD_DOC_FILE@),
    ensures
        temp != document,
{
    reveal_strlit("secrets");
    reveal_strlit("secrets_temp");
    if temp == document {
        let n = temp.len();
        assert(temp.skip(n - 12)[11] == 'p');
        assert(temp[n - 1] == 'p');
        assert(document.skip(n - 7)[6] == 's');
        assert(document[n - 1] == 's');
    }
}

} // verus!
