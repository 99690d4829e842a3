//! The settings form: its fields, its focus and its reaction to keys.
use vstd::prelude::*;

use crate::i18n::{Language, Messages, DEFAULT_LANGUAGE};
use crate::keys::{KeyCode, KeyInput};
use crate::settings::{AppSettings, SettingsInput};
use crate::text::{pop_char, push_char};

verus! {

/// The field of the form that has the focus.
#[derive(Clone, Copy, Debug, PartialEq, Eq, Structural)]
pub enum SettingsField {
    DownloadDir,
    DriveRootFolder,
    DteQueryFilter,
    Language,
}

/// The outcome of the last save.
#[derive(Clone, Debug, PartialEq, Eq)]
pub enum SettingsStatus {
    Saved,
    Error(String),
}

/// The outcome of the last save, as text.
pub enum SettingsStatusView {
    Saved,
    Error(Seq<char>),
}

/// What the form asks of the application after a key.
pub enum SettingsPageAction {
    Continue,
    Back,
    Quit,
    Save(SettingsInput),
}

/// The settings form.
pub struct SettingsPage {
    focused_field: SettingsField,
    download_dir: String,
    drive_root_folder: String,
    dte_query_filter: String,
    language: Language,
    status: Option<SettingsStatus>,
}

/// The content of the settings form.
pub struct SettingsPageView {
    pub focused_field: SettingsField,
    pub download_dir: Seq<char>,
    pub drive_root_folder: Seq<char>,
    pub dte_query_filter: Seq<char>,
    pub language: Language,
    pub status: Option<SettingsStatusView>,
}

impl View for SettingsPage {
    type V = SettingsPageView;

    closed spec fn view(&self) -> SettingsPageView {
        SettingsPageView {
            focused_field: self.focused_field,
            download_dir: self.download_dir@,
            drive_root_folder: self.drive_root_folder@,
            dte_query_filter: self.dte_query_filter@,
            language: self.language,
            status: match self.status {
                Some(SettingsStatus::Saved) => Some(SettingsStatusView::Saved),
                Some(SettingsStatus::Error(m)) => Some(SettingsStatusView::Error(m@)),
                None => None,
            },
        }
    }
}

/// The field after `f`, from the last back to the first.
pub open spec fn next_field(f: SettingsField) -> SettingsField {
    match f {
        SettingsField::DownloadDir => SettingsField::DriveRootFolder,
        SettingsField::DriveRootFolder => SettingsField::DteQueryFilter,
        SettingsField::DteQueryFilter => SettingsField::Language,
        SettingsField::Language => SettingsField::DownloadDir,
    }
}

/// The field before `f`, from the first back to the last.
pub open spec fn previous_field(f: SettingsField) -> SettingsField {
    match f {
        SettingsField::DownloadDir => SettingsField::Language,
        SettingsField::DriveRootFolder => SettingsField::DownloadDir,
        SettingsField::DteQueryFilter => SettingsField::DriveRootFolder,
        SettingsField::Language => SettingsField::DteQueryFilter,
    }
}

/// The other language.
pub open spec fn other_language(l: Language) -> Language {
    match l {
        Language::Spanish => Language::English,
        Language::English => Language::Spanish,
    }
}

/// `v` with the text of its focused field changed by `f`, the status cleared;
/// unchanged when the language has the focus.
pub open spec fn edit_focused(v: SettingsPageView, f: spec_fn(Seq<char>) -> Seq<char>) -> SettingsPageView {
    match v.focused_field {
        SettingsField::DownloadDir => SettingsPageView { download_dir: f(v.download_dir), status: None, ..v },
        SettingsField::DriveRootFolder => SettingsPageView { drive_root_folder: f(v.drive_root_folder), status: None, ..v },
        SettingsField::DteQueryFilter => SettingsPageView { dte_query_filter: f(v.dte_query_filter), status: None, ..v },
        SettingsField::Language => v,
    }
}

/// The text after a Backspace: the last character gone, if any.
pub open spec fn without_last(s: Seq<char>) -> Seq<char> {
    if s.len() > 0 {
        s.drop_last()
    } else {
        s
    }
}

/// The form after a key: Ctrl+q, Esc and Enter leave it as it is; Tab and
/// Shift+Tab move the focus; Backspace deletes the last character of the
/// focused text; Space and the arrows switch the language while it has the
/// focus; any other character is typed into the focused text.
pub open spec fn settings_key(v: SettingsPageView, key: KeyInput) -> SettingsPageView {
    match key.code {
        KeyCode::Char(c) => if c == 'q' && key.control {
            v
        } else if c == ' ' && v.focused_field == SettingsField::Language {
            SettingsPageView { language: other_language(v.language), status: None, ..v }
        } else {
            edit_focused(v, |s: Seq<char>| s.push(c))
        },
        KeyCode::Tab => SettingsPageView { focused_field: next_field(v.focused_field), ..v },
        KeyCode::BackTab => SettingsPageView { focused_field: previous_field(v.focused_field), ..v },
        KeyCode::Backspace => edit_focused(v, |s: Seq<char>| without_last(s)),
        KeyCode::Left | KeyCode::Right => if v.focused_field == SettingsField::Language {
            SettingsPageView { language: other_language(v.language), status: None, ..v }
        } else {
            v
        },
        _ => v,
    }
}

impl SettingsPage {
    /// An empty form, the download folder focused, in the default language.
    pub fn new() -> (page: SettingsPage)
        ensures
            page@.focused_field == SettingsField::DownloadDir,
            page@.download_dir.len() == 0,
            page@.drive_root_folder.len() == 0,
            page@.dte_query_filter.len() == 0,
            page@.language == DEFAULT_LANGUAGE,
            page@.status is None,
    {
        SettingsPage {
            focused_field: SettingsField::DownloadDir,
            download_dir: String::new(),
            drive_root_folder: String::new(),
            dte_query_filter: String::new(),
            language: DEFAULT_LANGUAGE,
            status: None,
        }
    }

    /// Fills the form with `settings`, the download folder focused, no status.
    pub fn reset(&mut self, settings: &AppSettings)
        ensures
            final(self)@.focused_field == SettingsField::DownloadDir,
            final(self)@.download_dir == settings.download_dir@,
            final(self)@.drive_root_folder == settings.drive_root_folder@,
            final(self)@.dte_query_filter == settings.dte_query_filter@,
            final(self)@.language == settings.language,
            final(self)@.status is None,
    {
        self.focused_field = SettingsField::DownloadDir;
        self.download_dir = settings.download_dir.clone();
        self.drive_root_folder = settings.drive_root_folder.clone();
        self.dte_query_filter = settings.dte_query_filter.clone();
        self.language = settings.language;
        self.status = None;
    }

    /// The field with the focus.
    pub fn focused_field(&self) -> (f: SettingsField)
        ensures
            f == self@.focused_field,
    {
        self.focused_field
    }

    /// The outcome of the last save, if any since the form was filled.
    pub fn status(&self) -> (s: Option<&SettingsStatus>)
        ensures
            match (s, self@.status) {
                (None, None) => true,
                (Some(SettingsStatus::Saved), Some(SettingsStatusView::Saved)) => true,
                (Some(SettingsStatus::Error(m)), Some(SettingsStatusView::Error(v))) => m@ == v,
                _ => false,
            },
    {
        match &self.status {
            Some(status) => Some(status),
            None => None,
        }
    }

    /// The line under the form: that the settings were saved, why they were
    /// not, or nothing.
    pub fn status_text<'a>(&'a self, text: &'a Messages) -> (s: &'a str)
        ensures
            s@ == (match self@.status {
                Some(SettingsStatusView::Saved) => text.settings_saved@,
                Some(SettingsStatusView::Error(m)) => m,
                None => ""@,
            }),
    {
        match &self.status {
            Some(SettingsStatus::Saved) => text.settings_saved,
            Some(SettingsStatus::Error(message)) => message.as_str(),
            None => "",
        }
    }

    /// Records that the settings were saved.
    pub fn mark_saved(&mut self)
        ensures
            final(self)@ == (SettingsPageView { status: Some(SettingsStatusView::Saved), ..old(self)@ }),
    {
        self.status = Some(SettingsStatus::Saved);
    }

    /// Records that saving failed with `message`.
    pub fn mark_error(&mut self, message: String)
        ensures
            final(self)@ == (SettingsPageView { status: Some(SettingsStatusView::Error(message@)), ..old(self)@ }),
    {
        self.status = Some(SettingsStatus::Error(message));
    }

    /// Moves the focus to the next field.
    pub fn focus_next(&mut self)
        ensures
            final(self)@ == (SettingsPageView { focused_field: next_field(old(self)@.focused_field), ..old(self)@ }),
    {
        self.focused_field = match self.focused_field {
            SettingsField::DownloadDir => SettingsField::DriveRootFolder,
            SettingsField::DriveRootFolder => SettingsField::DteQueryFilter,
            SettingsField::DteQueryFilter => SettingsField::Language,
            SettingsField::Language => SettingsField::DownloadDir,
        };
    }

    /// Moves the focus to the previous field.
    pub fn focus_previous(&mut self)
        ensures
            final(self)@ == (SettingsPageView { focused_field: previous_field(old(self)@.focused_field), ..old(self)@ }),
    {
        self.focused_field = match self.focused_field {
            SettingsField::DownloadDir => SettingsField::Language,
            SettingsField::DriveRootFolder => SettingsField::DownloadDir,
            SettingsField::DteQueryFilter => SettingsField::DriveRootFolder,
            SettingsField::Language => SettingsField::DteQueryFilter,
        };
    }

    /// Types `character` into the focused text field.
    pub fn push_character(&mut self, character: char)
        ensures
            final(self)@ == edit_focused(old(self)@, |s: Seq<char>| s.push(character)),
    {
        match self.focused_field {
            SettingsField::DownloadDir => {
                self.status = None;
                push_char(&mut self.download_dir, character);
            },
            SettingsField::DriveRootFolder => {
                self.status = None;
                push_char(&mut self.drive_root_folder, character);
            },
            SettingsField::DteQueryFilter => {
                self.status = None;
                push_char(&mut self.dte_query_filter, character);
            },
            SettingsField::Language => {},
        }
    }

    /// Deletes the last character of the focused text field.
    pub fn delete_character(&mut self)
        ensures
            final(self)@ == edit_focused(old(self)@, |s: Seq<char>| without_last(s)),
    {
        match self.focused_field {
            SettingsField::DownloadDir => {
                self.status = None;
                pop_char(&mut self.download_dir);
            },
            SettingsField::DriveRootFolder => {
                self.status = None;
                pop_char(&mut self.drive_root_folder);
            },
            SettingsField::DteQueryFilter => {
                self.status = None;
                pop_char(&mut self.dte_query_filter);
            },
            SettingsField::Language => {},
        }
    }

    /// Switches between Spanish and English.
    pub fn toggle_language(&mut self)
        ensures
            final(self)@ == (SettingsPageView { language: other_language(old(self)@.language), status: None, ..old(self)@ }),
    {
        self.status = None;
        self.language = match self.language {
            Language::Spanish => Language::English,
            Language::English => Language::Spanish,
        };
    }

    /// The form's current values, as a save hands them over.
    pub fn input(&self) -> (input: SettingsInput)
        ensures
            input.download_dir@ == self@.download_dir,
            input.drive_root_folder@ == self@.drive_root_folder,
            input.dte_query_filter@ == self@.dte_query_filter,
            input.language == self@.language,
    {
        SettingsInput {
            download_dir: self.download_dir.clone(),
            drive_root_folder: self.drive_root_folder.clone(),
            dte_query_filter: self.dte_query_filter.clone(),
            language: self.language,
        }
    }

    /// Reacts to a key: Ctrl+q quits, Esc goes back, Enter saves, Tab and
    /// Shift+Tab move the focus, Backspace deletes, Space and the arrows switch
    /// the language while it has the focus, any other character is typed.
    pub fn handle_key(&mut self, key: KeyInput) -> (action: SettingsPageAction)
        ensures
            final(self)@ == settings_key(old(self)@, key),
            action is Quit <==> (key.code == KeyCode::Char('q') && key.control),
            action is Back <==> key.code == KeyCode::Esc,
            key.code == KeyCode::Enter <==> action is Save,
            action matches SettingsPageAction::Save(input) ==> input.download_dir@ == old(self)@.download_dir
                && input.drive_root_folder@ == old(self)@.drive_root_folder
                && input.dte_query_filter@ == old(self)@.dte_query_filter && input.language == old(self)@.language,
    {
        match key.code {
            KeyCode::Char(c) => {
                if c == 'q' && key.control {
                    SettingsPageAction::Quit
                } else if c == ' ' && self.focused_field == SettingsField::Language {
                    self.toggle_language();
                    SettingsPageAction::Continue
                } else {
                    self.push_character(c);
                    SettingsPageAction::Continue
                }
            },
            KeyCode::Esc => SettingsPageAction::Back,
            KeyCode::Enter => SettingsPageAction::Save(self.input()),
            KeyCode::Tab => {
                self.focus_next();
                SettingsPageAction::Continue
            },
            KeyCode::BackTab => {
                self.focus_previous();
                SettingsPageAction::Continue
            },
            KeyCode::Backspace => {
                self.delete_character();
                SettingsPageAction::Continue
            },
            KeyCode::Left | KeyCode::Right => {
                if self.focused_field == SettingsField::Language {
                    self.toggle_language();
                }
                SettingsPageAction::Continue
            },
            _ => SettingsPageAction::Continue,
        }
    }
}

/// Moving the focus forward and then back returns to the same field, and four
/// moves forward visit every field and come back.
pub proof fn law_focus_round_trip(f: SettingsField)
    ensures
        previous_field(next_field(f)) == f,
        next_field(previous_field(f)) == f,
        next_field(next_field(next_field(next_field(f)))) == f,
{
}

/// Switching the language twice gives back the first language.
pub proof fn law_language_toggle_involution(l: Language)
    ensures
        other_language(other_language(l)) == l,
        other_language(l) != l,
{
}

/// Typing a character and deleting it leaves every text field as it was.
pub proof fn law_type_then_delete(v: SettingsPageView, c: char)
    ensures
        edit_focused(edit_focused(v, |s: Seq<char>| s.push(c)), |s: Seq<char>| without_last(s)).download_dir == v.download_dir,
        edit_focused(edit_focused(v, |s: Seq<char>| s.push(c)), |s: Seq<char>| without_last(s)).drive_root_folder == v.drive_root_folder,
        edit_focused(edit_focused(v, |s: Seq<char>| s.push(c)), |s: Seq<char>| without_last(s)).dte_query_filter == v.dte_query_filter,
        edit_focused(edit_focused(v, |s: Seq<char>| s.push(c)), |s: Seq<char>| without_last(s)).focused_field == v.focused_field,
{
    assert(v.download_dir.push(c).drop_last() =~= v.download_dir);
    assert(v.drive_root_folder.push(c).drop_last() =~= v.drive_root_folder);
    assert(v.dte_query_filter.push(c).drop_last() =~= v.dte_query_filter);
}

} // verus!
