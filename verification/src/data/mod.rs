//! The data model of a prolock file.
//!
//! In the code, the term bundle stands for what the user interface calls an
//! entry.
pub mod text;
pub mod key;
pub mod counter;
pub mod sorting;
pub mod secrets;
pub mod crypto;
pub mod error;
pub mod transient;
pub mod keyed;
pub mod bundle;
pub mod cred;
pub mod document;
pub mod secret;
pub mod bundles;
pub mod documents;
pub mod pl_file;
pub mod paths;
pub mod file_list;
pub mod settings;
