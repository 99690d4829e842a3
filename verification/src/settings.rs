//! The application settings and the checks applied before they are saved.
use vstd::prelude::*;

use crate::drive_upload::DEFAULT_ROOT_FOLDER_NAME;
use crate::gmail_search::DEFAULT_DTE_QUERY_FILTER;
use crate::i18n::{Language, Messages, DEFAULT_LANGUAGE};
use crate::invoice_files::DEFAULT_DOWNLOAD_DIR;
use crate::text::{owned, trim, trim_str};

verus! {

/// The settings the user can change.
#[derive(Clone, Debug, PartialEq, Eq)]
pub struct AppSettings {
    /// The folder the invoice files are saved in.
    pub download_dir: String,
    /// The Drive folder the yearly folders go in.
    pub drive_root_folder: String,
    /// The filter added to every Gmail search (blank for none).
    pub dte_query_filter: String,
    /// The language of the interface.
    pub language: Language,
}

/// What the settings form hands over when the user saves.
#[derive(Clone, Debug, PartialEq, Eq)]
pub struct SettingsInput {
    pub download_dir: String,
    pub drive_root_folder: String,
    pub dte_query_filter: String,
    pub language: Language,
}

impl Default for AppSettings {
    fn default() -> (s: AppSettings)
        ensures
            s.download_dir@ == DEFAULT_DOWNLOAD_DIR@,
            s.drive_root_folder@ == DEFAULT_ROOT_FOLDER_NAME@,
            s.dte_query_filter@ == DEFAULT_DTE_QUERY_FILTER@,
            s.language == DEFAULT_LANGUAGE,
    {
        AppSettings {
            download_dir: owned(DEFAULT_DOWNLOAD_DIR),
            drive_root_folder: owned(DEFAULT_ROOT_FOLDER_NAME),
            dte_query_filter: owned(DEFAULT_DTE_QUERY_FILTER),
            language: DEFAULT_LANGUAGE,
        }
    }
}

/// The settings a form input stands for, or the message that rejects it: the
/// download folder and the Drive folder must not be blank; every text is
/// trimmed.
pub fn settings_from_input(input: SettingsInput, text: &Messages) -> (r: Result<AppSettings, String>)
    ensures
        trim(input.download_dir@).len() == 0 ==> (r matches Err(m) && m@ == text.settings_empty_download_dir@),
        trim(input.download_dir@).len() != 0 && trim(input.drive_root_folder@).len() == 0 ==> (r matches Err(m)
            && m@ == text.settings_empty_drive_root_folder@),
        trim(input.download_dir@).len() != 0 && trim(input.drive_root_folder@).len() != 0 ==> (r matches Ok(s)
            && s.download_dir@ == trim(input.download_dir@)
            && s.drive_root_folder@ == trim(input.drive_root_folder@)
            && s.dte_query_filter@ == trim(input.dte_query_filter@)
            && s.language == input.language),
{
    let download_dir = trim_str(input.download_dir.as_str());
    if download_dir.as_str().unicode_len() == 0 {
        return Err(owned(text.settings_empty_download_dir));
    }
    let drive_root_folder = trim_str(input.drive_root_folder.as_str());
    if drive_root_folder.as_str().unicode_len() == 0 {
        return Err(owned(text.settings_empty_drive_root_folder));
    }
    Ok(AppSettings {
        download_dir,
        drive_root_folder,
        dte_query_filter: trim_str(input.dte_query_filter.as_str()),
        language: input.language,
    })
}

/// What `Path::new(path).with_extension(extension)` gives, as text.
pub uninterp spec fn path_with_extension(path: Seq<char>, extension: Seq<char>) -> Seq<char>;

/// `path` with its extension replaced (`std::path::Path::with_extension`);
/// only the name `path_with_extension` is claimed of the result. The call
/// panics on an extension that holds a path separator, so such an extension
/// is not admitted.
#[verifier::external_body]
fn with_extension(path: &str, extension: &str) -> (r: String)
    requires
        !extension@.contains('/'),
        !extension@.contains('\\'),
    ensures
        r@ == path_with_extension(path@, extension@),
{
    std::path::Path::new(path).with_extension(extension).to_string_lossy().into_owned()
}

/// The file the settings are written to before they replace the settings
/// file: the same name with the extension `json.tmp`.
pub fn temporary_settings_path(path: &str) -> (r: String)
    ensures
        r@ == path_with_extension(path@, "json.tmp"@),
{
    proof {
        reveal_strlit("json.tmp");
        assert(!"json.tmp"@.contains('/'));
        assert(!"json.tmp"@.contains('\\'));
    }
    with_extension(path, "json.tmp")
}

} // verus!
