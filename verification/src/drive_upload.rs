//! Uploading the files of an invoice to Google Drive through `gws`, into
//! `<root>/<year>/<month>/Compras`.
use vstd::prelude::*;

use crate::i18n::{command_failed_text, drive_upload_error_message, Language};
use crate::invoice::InvoiceSummary;
use crate::invoice_files::SavedInvoiceFiles;
use crate::gmail_search::RunnerStep;
use crate::json::{
    array, decode_all, json_quote, json_quoted, lemma_decode_all_error_persists, object,
    object_spec, required_string, array_spec, member_spec, string_spec,
};
use crate::text::{
    all_digits, chars_of, owned, parse_unsigned, parse_unsigned_in, split_chars, split_spec,
    string_from_chars, strings_view,
};

verus! {

/// The Drive folder the yearly folders go in unless the settings name another.
pub const DEFAULT_ROOT_FOLDER_NAME: &'static str = "CARLOS ROLANDO MORAN CAMPOS";

/// The folder of each month that receives the purchase invoices.
pub const PURCHASES_FOLDER_NAME: &'static str = "Compras";

/// The MIME type of a Drive folder.
pub const FOLDER_MIME_TYPE: &'static str = "application/vnd.google-apps.folder";

/// Where the files of an invoice went on Drive.
#[derive(Clone, Debug, PartialEq, Eq)]
pub struct UploadedInvoiceFiles {
    pub folder_path: String,
    pub folder_id: String,
    pub json_file_id: String,
    pub pdf_file_id: String,
}

/// Why an upload failed.
#[derive(Debug, PartialEq, Eq)]
pub enum DriveUploadError {
    /// `gws` is not installed.
    CliNotFound,
    /// `gws` ran and failed.
    CommandFailed { command: String, status: String, stderr: String },
    /// `gws` could not be run.
    Io(String),
    /// What `gws` printed could not be read.
    Json { context: String, message: String },
    /// The issue date of the invoice names no month folder.
    InvalidIssueDate { value: String },
    /// The path has no file name to upload under.
    MissingFileName { path: String },
}

/// A [`DriveUploadError`] with its texts as character sequences.
pub enum DriveUploadErrorView {
    CliNotFound,
    CommandFailed { command: Seq<char>, status: Seq<char>, stderr: Seq<char> },
    Io(Seq<char>),
    Json { context: Seq<char>, message: Seq<char> },
    InvalidIssueDate { value: Seq<char> },
    MissingFileName { path: Seq<char> },
}

impl View for DriveUploadError {
    type V = DriveUploadErrorView;

    open spec fn view(&self) -> DriveUploadErrorView {
        match self {
            DriveUploadError::CliNotFound => DriveUploadErrorView::CliNotFound,
            DriveUploadError::CommandFailed { command, status, stderr } => DriveUploadErrorView::CommandFailed {
                command: command@,
                status: status@,
                stderr: stderr@,
            },
            DriveUploadError::Io(m) => DriveUploadErrorView::Io(m@),
            DriveUploadError::Json { context, message } => DriveUploadErrorView::Json { context: context@, message: message@ },
            DriveUploadError::InvalidIssueDate { value } => DriveUploadErrorView::InvalidIssueDate { value: value@ },
            DriveUploadError::MissingFileName { path } => DriveUploadErrorView::MissingFileName { path: path@ },
        }
    }
}

/// The English description of an upload error.
pub open spec fn drive_error_description(error: DriveUploadError) -> Seq<char> {
    match error {
        DriveUploadError::CliNotFound => "gws CLI was not found in PATH."@,
        DriveUploadError::CommandFailed { command, status, stderr } => command_failed_text(Language::English, command@, status@, stderr@),
        DriveUploadError::Io(e) => "Failed to run gws: "@ + e@,
        DriveUploadError::Json { context, message } => "Failed to parse gws JSON for "@ + context@ + ": "@ + message@,
        DriveUploadError::InvalidIssueDate { value } => "Invalid invoice issue date `"@ + value@ + "`."@,
        DriveUploadError::MissingFileName { path } => "Could not determine file name for `"@ + path@ + "`."@,
    }
}

impl DriveUploadError {
    /// The English description of the error.
    pub fn message(&self) -> (m: String)
        ensures
            m@ == drive_error_description(*self),
    {
        match self {
            DriveUploadError::CliNotFound => owned("gws CLI was not found in PATH."),
            DriveUploadError::CommandFailed { .. } => drive_upload_error_message(Language::English, self),
            DriveUploadError::Io(e) => {
                let mut m = owned("Failed to run gws: ");
                m.append(e.as_str());
                m
            },
            DriveUploadError::Json { context, message } => {
                let mut m = framed("Failed to parse gws JSON for ", context.as_str(), ": ");
                m.append(message.as_str());
                m
            },
            DriveUploadError::InvalidIssueDate { value } => framed("Invalid invoice issue date `", value.as_str(), "`."),
            DriveUploadError::MissingFileName { path } => framed("Could not determine file name for `", path.as_str(), "`."),
        }
    }
}

/// Runs `gws` with the given arguments and hands back what it printed.
pub trait CommandRunner {
    /// Whether `output` is an answer the runner may give to a run of `gws`
    /// with the arguments `args`. A runner that says nothing more may give
    /// any answer; what the library states of a runner's answers holds for
    /// every runner.
    closed spec fn answers(&self, args: Seq<Seq<char>>, output: Result<String, DriveUploadError>) -> bool {
        true
    }

    fn run(&self, args: &[String]) -> (output: Result<String, DriveUploadError>)
        ensures
            self.answers(strings_view(args@), output),
    ;
}

// ---------------------------------------------------------------------------
// The period folder of an invoice
// ---------------------------------------------------------------------------

/// The year and the Spanish month name of an issue date.
#[derive(Clone, Debug, PartialEq, Eq)]
pub struct DrivePeriod {
    pub year: String,
    pub month_name: String,
}

/// The Spanish name of the month `month`, for `1..=12`.
pub open spec fn spanish_month_spec(month: int) -> Option<Seq<char>> {
    if month == 1 {
        Some("Enero"@)
    } else if month == 2 {
        Some("Febrero"@)
    } else if month == 3 {
        Some("Marzo"@)
    } else if month == 4 {
        Some("Abril"@)
    } else if month == 5 {
        Some("Mayo"@)
    } else if month == 6 {
        Some("Junio"@)
    } else if month == 7 {
        Some("Julio"@)
    } else if month == 8 {
        Some("Agosto"@)
    } else if month == 9 {
        Some("Septiembre"@)
    } else if month == 10 {
        Some("Octubre"@)
    } else if month == 11 {
        Some("Noviembre"@)
    } else if month == 12 {
        Some("Diciembre"@)
    } else {
        None
    }
}

/// The Spanish name of the month `month`, for `1..=12`.
pub fn spanish_month_name(month: u8) -> (name: Option<&'static str>)
    ensures
        match name {
            Some(n) => spanish_month_spec(month as int) == Some(n@),
            None => spanish_month_spec(month as int) is None,
        },
{
    match month {
        1 => Some("Enero"),
        2 => Some("Febrero"),
        3 => Some("Marzo"),
        4 => Some("Abril"),
        5 => Some("Mayo"),
        6 => Some("Junio"),
        7 => Some("Julio"),
        8 => Some("Agosto"),
        9 => Some("Septiembre"),
        10 => Some("Octubre"),
        11 => Some("Noviembre"),
        12 => Some("Diciembre"),
        _ => None,
    }
}

/// The year and month name of an issue date `YYYY-MM-DD`: the text split at
/// `-` into exactly three pieces, a year of four ASCII digits, a month that
/// reads as a number from 1 to 12, a day that reads as a number from 1 to 31.
pub open spec fn drive_period_spec(issue_date: Seq<char>) -> Option<(Seq<char>, Seq<char>)> {
    let parts = split_spec(issue_date, '-');
    let year = parts[0];
    let month = if parts.len() > 1 { parse_unsigned(parts[1], 0xff) } else { None };
    let month_name = match month {
        Some(m) => spanish_month_spec(m as int),
        None => None,
    };
    let day = if parts.len() > 2 { parse_unsigned(parts[2], 0xff) } else { None };
    if year.len() == 4 && all_digits(year) && (day matches Some(d) && 1 <= d <= 31) && parts.len() <= 3
        && month_name is Some {
        Some((year, month_name->0))
    } else {
        None
    }
}

proof fn lemma_split_nonempty(s: Seq<char>, sep: char)
    ensures
        split_spec(s, sep).len() >= 1,
{
    reveal_with_fuel(split_spec, 1);
}

impl DrivePeriod {
    /// The period folder of an invoice issued on `issue_date`.
    pub fn from_issue_date(issue_date: &str) -> (r: Result<DrivePeriod, DriveUploadError>)
        ensures
            match drive_period_spec(issue_date@) {
                Some((year, month_name)) => r matches Ok(p) && p.year@ == year && p.month_name@ == month_name,
                None => r matches Err(DriveUploadError::InvalidIssueDate { value }) && value@ == issue_date@,
            },
    {
        let chars = chars_of(issue_date);
        let parts = split_chars(&chars, '-');
        let ghost pieces = parts@.map_values(|l: Vec<char>| l@);
        proof {
            lemma_split_nonempty(issue_date@, '-');
            assert(pieces.len() == parts@.len());
        }
        let year = &parts[0];
        let month_name = if parts.len() > 1 {
            proof {
                assert(parts@[1]@ == pieces[1]);
                assert(parts@[1]@.subrange(0, parts@[1]@.len() as int) =~= parts@[1]@);
            }
            match parse_unsigned_in(&parts[1], 0, parts[1].len(), 0xff) {
                Some(m) => spanish_month_name(m as u8),
                None => None,
            }
        } else {
            None
        };
        let day = if parts.len() > 2 {
            proof {
                assert(parts@[2]@ == pieces[2]);
                assert(parts@[2]@.subrange(0, parts@[2]@.len() as int) =~= parts@[2]@);
            }
            parse_unsigned_in(&parts[2], 0, parts[2].len(), 0xff)
        } else {
            None
        };
        let day_ok = match day {
            Some(d) => 1 <= d && d <= 31,
            None => false,
        };
        proof {
            assert(year@ == pieces[0]);
        }
        if year.len() != 4 || !all_ascii_digits(year) || !day_ok || parts.len() > 3 || month_name.is_none() {
            return Err(DriveUploadError::InvalidIssueDate { value: owned(issue_date) });
        }
        let month = match month_name {
            Some(n) => n,
            None => "",
        };
        Ok(DrivePeriod { year: string_from_chars(year), month_name: owned(month) })
    }
}

/// Whether every character is an ASCII digit.
fn all_ascii_digits(s: &Vec<char>) -> (b: bool)
    ensures
        b == all_digits(s@),
{
    let mut i: usize = 0;
    while i < s.len()
        invariant
            i <= s.len(),
            forall|k: int| 0 <= k < i ==> '0' <= #[trigger] s@[k] <= '9',
        decreases s.len() - i,
    {
        if !('0' <= s[i] && s[i] <= '9') {
            return false;
        }
        i = i + 1;
    }
    true
}

// ---------------------------------------------------------------------------
// Drive queries
// ---------------------------------------------------------------------------

/// The escape of one character in a Drive query string: `\` and `'` get a
/// backslash before them.
pub open spec fn drive_escape(c: char) -> Seq<char> {
    if c == '\\' {
        seq!['\\', '\\']
    } else if c == '\'' {
        seq!['\\', '\'']
    } else {
        seq![c]
    }
}

/// `value` with every character escaped for a Drive query string.
pub open spec fn drive_escaped(value: Seq<char>) -> Seq<char>
    decreases value.len(),
{
    if value.len() == 0 {
        Seq::empty()
    } else {
        drive_escape(value[0]) + drive_escaped(value.drop_first())
    }
}

proof fn lemma_drive_escaped_push(value: Seq<char>, c: char)
    ensures
        drive_escaped(value.push(c)) == drive_escaped(value) + drive_escape(c),
    decreases value.len(),
{
    if value.len() == 0 {
        assert(value.push(c).drop_first() =~= Seq::<char>::empty());
        assert(drive_escaped(Seq::<char>::empty()) == Seq::<char>::empty());
        assert(value =~= Seq::<char>::empty());
        assert(drive_escape(c) + Seq::<char>::empty() =~= drive_escape(c));
        assert(drive_escaped(value.push(c)) =~= drive_escape(c));
    } else {
        assert(value.push(c).drop_first() =~= value.drop_first().push(c));
        lemma_drive_escaped_push(value.drop_first(), c);
        assert(drive_escaped(value.push(c)) =~= drive_escaped(value) + drive_escape(c));
    }
}

/// Escapes `\` and `'` for a string in a Drive query
/// (`value.replace('\\', "\\\\").replace('\'', "\\'")`).
pub fn escape_drive_query_value(value: &str) -> (r: String)
    ensures
        r@ == drive_escaped(value@),
{
    let chars = chars_of(value);
    let mut out: Vec<char> = Vec::new();
    let mut i: usize = 0;
    proof {
        assert(chars@.take(0) =~= Seq::<char>::empty());
    }
    while i < chars.len()
        invariant
            i <= chars.len(),
            chars@ == value@,
            out@ == drive_escaped(chars@.take(i as int)),
        decreases chars.len() - i,
    {
        let c = chars[i];
        if c == '\\' || c == '\'' {
            out.push('\\');
        }
        out.push(c);
        proof {
            assert(chars@.take(i + 1) =~= chars@.take(i as int).push(c));
            lemma_drive_escaped_push(chars@.take(i as int), c);
        }
        i = i + 1;
        proof {
            assert(out@ =~= drive_escaped(chars@.take(i as int)));
        }
    }
    proof {
        assert(chars@.take(i as int) =~= chars@);
    }
    string_from_chars(&out)
}

/// Reads an escaped Drive query string back: a backslash and the character
/// after it stand for that character.
pub open spec fn drive_unescaped(text: Seq<char>) -> Seq<char>
    decreases text.len(),
{
    if text.len() == 0 {
        Seq::empty()
    } else if text[0] == '\\' && text.len() >= 2 {
        seq![text[1]] + drive_unescaped(text.skip(2))
    } else {
        seq![text[0]] + drive_unescaped(text.skip(1))
    }
}

/// Escaping loses nothing: reading an escaped value back gives the value, so
/// two different folder names never give the same query.
pub proof fn law_drive_escape_round_trip(value: Seq<char>)
    ensures
        drive_unescaped(drive_escaped(value)) == value,
    decreases value.len(),
{
    if value.len() > 0 {
        law_drive_escape_round_trip(value.drop_first());
        let c = value[0];
        let rest = drive_escaped(value.drop_first());
        let e = drive_escaped(value);
        assert(e == drive_escape(c) + rest);
        if c == '\\' || c == '\'' {
            assert(e.skip(2) =~= rest);
        } else {
            assert(e.skip(1) =~= rest);
        }
        assert(value =~= seq![c] + value.drop_first());
    }
}

/// Two values with the same escape are the same value.
pub proof fn law_drive_escape_injective(a: Seq<char>, b: Seq<char>)
    requires
        drive_escaped(a) == drive_escaped(b),
    ensures
        a == b,
{
    law_drive_escape_round_trip(a);
    law_drive_escape_round_trip(b);
}

/// The Drive query for the folder `name` directly inside the folder `parent_id`.
pub open spec fn folder_query(name: Seq<char>, parent_id: Seq<char>) -> Seq<char> {
    "mimeType='application/vnd.google-apps.folder' and name='"@ + drive_escaped(name) + "' and '"@
        + drive_escaped(parent_id) + "' in parents and trashed=false"@
}

/// The `--params` of the folder lookup, as `json!` writes them.
pub open spec fn find_params(name: Seq<char>, parent_id: Seq<char>) -> Seq<char> {
    "{\"fields\":\"files(id,name,mimeType)\",\"includeItemsFromAllDrives\":true,\"pageSize\":10,\"q\":"@
        + json_quoted(folder_query(name, parent_id)) + ",\"supportsAllDrives\":true}"@
}

/// The arguments of `gws` that look the folder up.
pub open spec fn find_args_spec(name: Seq<char>, parent_id: Seq<char>) -> Seq<Seq<char>> {
    seq!["drive"@, "files"@, "list"@, "--params"@, find_params(name, parent_id)]
}

/// The `--params` of a file creation.
pub open spec fn create_params() -> Seq<char> {
    "{\"fields\":\"id,name,mimeType\",\"supportsAllDrives\":true}"@
}

/// The `--json` body that creates the folder `name` inside `parent_id`.
pub open spec fn folder_body(name: Seq<char>, parent_id: Seq<char>) -> Seq<char> {
    "{\"mimeType\":\"application/vnd.google-apps.folder\",\"name\":"@ + json_quoted(name) + ",\"parents\":["@
        + json_quoted(parent_id) + "]}"@
}

/// The arguments of `gws` that create the folder.
pub open spec fn create_args_spec(name: Seq<char>, parent_id: Seq<char>) -> Seq<Seq<char>> {
    seq!["drive"@, "files"@, "create"@, "--params"@, create_params(), "--json"@, folder_body(name, parent_id)]
}

/// The `--json` body that uploads a file `filename` into `parent_id`.
pub open spec fn file_body(filename: Seq<char>, parent_id: Seq<char>) -> Seq<char> {
    "{\"name\":"@ + json_quoted(filename) + ",\"parents\":["@ + json_quoted(parent_id) + "]}"@
}

/// The arguments of `gws` that upload the file at `path`.
pub open spec fn upload_args_spec(path: Seq<char>, filename: Seq<char>, parent_id: Seq<char>, content_type: Seq<char>) -> Seq<Seq<char>> {
    seq![
        "drive"@,
        "files"@,
        "create"@,
        "--params"@,
        create_params(),
        "--json"@,
        file_body(filename, parent_id),
        "--upload"@,
        path,
        "--upload-content-type"@,
        content_type,
    ]
}

/// A new list of strings holding the given texts.
fn strings_of(texts: &[&str]) -> (v: Vec<String>)
    ensures
        strings_view(v@) == texts@.map_values(|s: &str| s@),
{
    let mut v: Vec<String> = Vec::new();
    let mut i: usize = 0;
    while i < texts.len()
        invariant
            i <= texts.len(),
            strings_view(v@) == texts@.take(i as int).map_values(|s: &str| s@),
        decreases texts.len() - i,
    {
        let ghost before = strings_view(v@);
        v.push(owned(texts[i]));
        proof {
            assert(strings_view(v@) =~= before.push(texts@[i as int]@));
            assert(texts@.take(i + 1).map_values(|s: &str| s@) =~= texts@.take(i as int).map_values(|s: &str| s@).push(texts@[i as int]@));
        }
        i = i + 1;
    }
    proof {
        assert(texts@.take(i as int) =~= texts@);
    }
    v
}

/// Appends a string to a list of strings.
fn push_text(v: &mut Vec<String>, s: String)
    ensures
        strings_view(final(v)@) == strings_view(old(v)@).push(s@),
{
    let ghost before = strings_view(v@);
    let ghost text = s@;
    v.push(s);
    proof {
        assert(strings_view(v@) =~= before.push(text));
    }
}

/// The `gws` arguments that look up the folder `name` in `parent_id`.
pub fn find_args(name: &str, parent_id: &str) -> (args: Vec<String>)
    ensures
        strings_view(args@) == find_args_spec(name@, parent_id@),
{
    let mut query = owned("mimeType='application/vnd.google-apps.folder' and name='");
    let escaped_name = escape_drive_query_value(name);
    query.append(escaped_name.as_str());
    query.append("' and '");
    let escaped_parent = escape_drive_query_value(parent_id);
    query.append(escaped_parent.as_str());
    query.append("' in parents and trashed=false");
    let mut params = owned("{\"fields\":\"files(id,name,mimeType)\",\"includeItemsFromAllDrives\":true,\"pageSize\":10,\"q\":");
    let quoted = json_quote(query.as_str());
    params.append(quoted.as_str());
    params.append(",\"supportsAllDrives\":true}");
    let mut args = strings_of(&["drive", "files", "list", "--params"]);
    push_text(&mut args, params);
    proof {
        assert(strings_view(args@) =~= find_args_spec(name@, parent_id@));
    }
    args
}

/// The `gws` arguments that create the folder `name` in `parent_id`.
pub fn create_args(name: &str, parent_id: &str) -> (args: Vec<String>)
    ensures
        strings_view(args@) == create_args_spec(name@, parent_id@),
{
    let mut body = owned("{\"mimeType\":\"application/vnd.google-apps.folder\",\"name\":");
    let quoted_name = json_quote(name);
    body.append(quoted_name.as_str());
    body.append(",\"parents\":[");
    let quoted_parent = json_quote(parent_id);
    body.append(quoted_parent.as_str());
    body.append("]}");
    let mut args = strings_of(&["drive", "files", "create", "--params"]);
    push_text(&mut args, owned("{\"fields\":\"id,name,mimeType\",\"supportsAllDrives\":true}"));
    push_text(&mut args, owned("--json"));
    push_text(&mut args, body);
    proof {
        assert(strings_view(args@) =~= create_args_spec(name@, parent_id@));
    }
    args
}

/// The `gws` arguments that upload the file at `path` as `filename` into
/// `parent_id`, with its content type.
pub fn upload_args(path: &str, filename: &str, parent_id: &str, content_type: &str) -> (args: Vec<String>)
    ensures
        strings_view(args@) == upload_args_spec(path@, filename@, parent_id@, content_type@),
{
    let mut body = owned("{\"name\":");
    let quoted_name = json_quote(filename);
    body.append(quoted_name.as_str());
    body.append(",\"parents\":[");
    let quoted_parent = json_quote(parent_id);
    body.append(quoted_parent.as_str());
    body.append("]}");
    let mut args = strings_of(&["drive", "files", "create", "--params"]);
    push_text(&mut args, owned("{\"fields\":\"id,name,mimeType\",\"supportsAllDrives\":true}"));
    push_text(&mut args, owned("--json"));
    push_text(&mut args, body);
    push_text(&mut args, owned("--upload"));
    push_text(&mut args, owned(path));
    push_text(&mut args, owned("--upload-content-type"));
    push_text(&mut args, owned(content_type));
    proof {
        assert(strings_view(args@) =~= upload_args_spec(path@, filename@, parent_id@, content_type@));
    }
    args
}

// ---------------------------------------------------------------------------
// Reading what `gws` printed
// ---------------------------------------------------------------------------

/// Reads a Drive file object: its id.
pub open spec fn decode_file_spec(text: Seq<char>) -> Result<Seq<char>, Seq<char>> {
    match object_spec(text, "DriveFile"@) {
        Err(e) => Err(e),
        Ok(fields) => match string_spec(member_spec(fields, "id"@), "id"@) {
            Err(e) => Err(e),
            Ok(id) => Ok(id@),
        },
    }
}

/// Reads a list of Drive file objects, in order.
pub open spec fn decode_files_spec(items: Seq<String>) -> Result<Seq<Seq<char>>, Seq<char>> {
    decode_all(items, |t: Seq<char>| decode_file_spec(t))
}

/// Reads a Drive file list: the ids of its files; a missing list is empty.
pub open spec fn decode_file_list_spec(text: Seq<char>) -> Result<Seq<Seq<char>>, Seq<char>> {
    match object_spec(text, "DriveFileList"@) {
        Err(e) => Err(e),
        Ok(fields) => match array_spec(member_spec(fields, "files"@), "files"@) {
            Err(e) => Err(e),
            Ok(items) => decode_files_spec(items),
        },
    }
}

fn decode_file(text: &str) -> (r: Result<String, String>)
    ensures
        match r {
            Ok(id) => decode_file_spec(text@) == Ok::<Seq<char>, Seq<char>>(id@),
            Err(e) => decode_file_spec(text@) == Err::<Seq<char>, Seq<char>>(e@),
        },
{
    let fields = object(text, "DriveFile")?;
    required_string(&fields, "id")
}

#[verifier::loop_isolation(false)]
fn decode_file_list(text: &str) -> (r: Result<Vec<String>, String>)
    ensures
        match r {
            Ok(ids) => decode_file_list_spec(text@) == Ok::<Seq<Seq<char>>, Seq<char>>(strings_view(ids@)),
            Err(e) => decode_file_list_spec(text@) == Err::<Seq<Seq<char>>, Seq<char>>(e@),
        },
{
    let fields = object(text, "DriveFileList")?;
    let items = array(&fields, "files")?;
    let ghost f = |t: Seq<char>| decode_file_spec(t);
    let mut ids: Vec<String> = Vec::new();
    let mut i: usize = 0;
    proof {
        assert(strings_view(ids@) =~= Seq::<Seq<char>>::empty());
        assert(items@.take(0) =~= Seq::<String>::empty());
    }
    while i < items.len()
        invariant
            i <= items.len(),
            f == (|t: Seq<char>| decode_file_spec(t)),
            decode_all(items@.take(i as int), f) == Ok::<Seq<Seq<char>>, Seq<char>>(strings_view(ids@)),
        decreases items.len() - i,
    {
        proof {
            assert(items@.take(i + 1).drop_last() =~= items@.take(i as int));
            assert(items@.take(i + 1).last() == items@[i as int]);
        }
        let id = match decode_file(items[i].as_str()) {
            Ok(id) => id,
            Err(e) => {
                proof {
                    lemma_decode_all_error_persists(items@, f, (i + 1) as nat, items@.len());
                    assert(items@.take(items@.len() as int) =~= items@);
                    assert(decode_files_spec(items@) == Err::<Seq<Seq<char>>, Seq<char>>(e@));
                }
                return Err(e);
            },
        };
        push_text(&mut ids, id);
        i = i + 1;
    }
    proof {
        assert(items@.take(i as int) =~= items@);
    }
    Ok(ids)
}

/// "folder lookup `name`"
pub open spec fn lookup_context(name: Seq<char>) -> Seq<char> {
    "folder lookup `"@ + name + "`"@
}

/// `before + text + after`.
fn framed(before: &str, text: &str, after: &str) -> (r: String)
    ensures
        r@ == before@ + text@ + after@,
{
    let mut r = owned(before);
    r.append(text);
    r.append(after);
    r
}

/// Reads what the folder lookup printed: the id of the first folder found.
pub fn folder_from_lookup(name: &str, stdout: &str) -> (r: Result<Option<String>, DriveUploadError>)
    ensures
        match decode_file_list_spec(stdout@) {
            Err(message) => r matches Err(DriveUploadError::Json { context, message: m })
                && context@ == lookup_context(name@) && m@ == message,
            Ok(ids) => if ids.len() == 0 {
                r matches Ok(None)
            } else {
                r matches Ok(Some(id)) && id@ == ids[0]
            },
        },
{
    match decode_file_list(stdout) {
        Err(message) => Err(DriveUploadError::Json { context: framed("folder lookup `", name, "`"), message }),
        Ok(ids) => if ids.len() == 0 {
            Ok(None)
        } else {
            Ok(Some(ids[0].clone()))
        },
    }
}

/// Reads what a file creation printed: the id of the new file.
pub fn id_from_creation(context: String, stdout: &str) -> (r: Result<String, DriveUploadError>)
    ensures
        match decode_file_spec(stdout@) {
            Err(message) => r matches Err(DriveUploadError::Json { context: c, message: m })
                && c@ == context@ && m@ == message,
            Ok(id) => r matches Ok(found) && found@ == id,
        },
{
    match decode_file(stdout) {
        Err(message) => Err(DriveUploadError::Json { context, message }),
        Ok(id) => Ok(id),
    }
}

/// What looking up the folder `name` gives when the runner answered
/// `answer`: the id of the first folder found, if any, or why it failed.
#[verifier::opaque]
pub open spec fn lookup_step(name: Seq<char>, answer: Result<String, DriveUploadError>) -> Result<Option<Seq<char>>, DriveUploadErrorView> {
    match answer {
        Err(e) => Err(e@),
        Ok(out) => match decode_file_list_spec(out@) {
            Err(message) => Err(DriveUploadErrorView::Json { context: lookup_context(name), message }),
            Ok(ids) => Ok(if ids.len() == 0 { None } else { Some(ids[0]) }),
        },
    }
}

/// What a file creation gives when the runner answered `answer`: the id of
/// the new file, or why it failed (`context` names the creation).
#[verifier::opaque]
pub open spec fn creation_step(context: Seq<char>, answer: Result<String, DriveUploadError>) -> Result<Seq<char>, DriveUploadErrorView> {
    match answer {
        Err(e) => Err(e@),
        Ok(out) => match decode_file_spec(out@) {
            Err(message) => Err(DriveUploadErrorView::Json { context, message }),
            Ok(id) => Ok(id),
        },
    }
}

/// "create folder `name`"
pub open spec fn create_context(name: Seq<char>) -> Seq<char> {
    "create folder `"@ + name + "`"@
}

/// "upload `filename`"
pub open spec fn upload_context(filename: Seq<char>) -> Seq<char> {
    "upload `"@ + filename + "`"@
}

/// What an upload is asked to do: the issue date of the invoice, the name of
/// the root folder, and the paths of the two files.
pub struct UploadRequest {
    pub issue_date: Seq<char>,
    pub root: Seq<char>,
    pub json_path: Seq<char>,
    pub pdf_path: Seq<char>,
}

/// Where an upload stands.
pub enum UploadStage {
    /// Looking up the folder of the given level (0 the root, 1 the year,
    /// 2 the month, 3 `Compras`) in the folder `parent`.
    Lookup { level: nat, parent: Seq<char> },
    /// Creating that folder in `parent`, as the lookup found none.
    Create { level: nat, parent: Seq<char> },
    /// Uploading the JSON file into the folder `folder`.
    UploadJson { folder: Seq<char> },
    /// Uploading the PDF file into `folder`, the JSON file having the id
    /// `json_id`.
    UploadPdf { folder: Seq<char>, json_id: Seq<char> },
    /// Ended: the folder and the ids of the JSON and the PDF file, or the
    /// failure.
    Finished(Result<(Seq<char>, Seq<char>, Seq<char>), DriveUploadErrorView>),
}

/// The name of the folder of `level`: the root, the year, the month, then
/// `Compras`.
pub open spec fn folder_name(req: UploadRequest, level: nat) -> Seq<char> {
    let period = drive_period_spec(req.issue_date)->0;
    if level == 0 {
        req.root
    } else if level == 1 {
        period.0
    } else if level == 2 {
        period.1
    } else {
        "Compras"@
    }
}

/// The stage after the folder of `level` turned out to have the id `id`:
/// the next folder inside it, or, after `Compras`, the JSON upload into it.
pub open spec fn folder_found(level: nat, id: Seq<char>) -> UploadStage {
    if level < 3 {
        UploadStage::Lookup { level: level + 1, parent: id }
    } else {
        UploadStage::UploadJson { folder: id }
    }
}

/// The stage after the runner answered `answer` to the run that `stage`
/// asked for.
pub open spec fn upload_after(req: UploadRequest, stage: UploadStage, answer: Result<String, DriveUploadError>) -> UploadStage {
    match stage {
        UploadStage::Lookup { level, parent } => match lookup_step(folder_name(req, level), answer) {
            Err(e) => UploadStage::Finished(Err(e)),
            Ok(Some(id)) => folder_found(level, id),
            Ok(None) => UploadStage::Create { level, parent },
        },
        UploadStage::Create { level, parent } => match creation_step(create_context(folder_name(req, level)), answer) {
            Err(e) => UploadStage::Finished(Err(e)),
            Ok(id) => folder_found(level, id),
        },
        UploadStage::UploadJson { folder } => match creation_step(upload_context(path_file_name(req.json_path)->0), answer) {
            Err(e) => UploadStage::Finished(Err(e)),
            Ok(id) => UploadStage::UploadPdf { folder, json_id: id },
        },
        UploadStage::UploadPdf { folder, json_id } => match creation_step(upload_context(path_file_name(req.pdf_path)->0), answer) {
            Err(e) => UploadStage::Finished(Err(e)),
            Ok(id) => UploadStage::Finished(Ok((folder, json_id, id))),
        },
        UploadStage::Finished(outcome) => UploadStage::Finished(outcome),
    }
}

/// Where the upload stands after the runner's answers `answers`, in order.
pub open spec fn upload_stage(req: UploadRequest, answers: Seq<Result<String, DriveUploadError>>) -> UploadStage
    decreases answers.len(),
{
    if answers.len() == 0 {
        if drive_period_spec(req.issue_date) is None {
            UploadStage::Finished(Err(DriveUploadErrorView::InvalidIssueDate { value: req.issue_date }))
        } else {
            UploadStage::Lookup { level: 0, parent: "root"@ }
        }
    } else {
        upload_after(req, upload_stage(req, answers.drop_last()), answers.last())
    }
}

/// The upload after the runner's answers `answers`: the next run of `gws`,
/// or the end with the folder path, the folder id and the two file ids, or
/// the failure. The folders are resolved from the root down, each inside the
/// one before, by a lookup and, when it finds none, a creation; then the
/// JSON file and the PDF file are uploaded into `Compras`, each under its
/// file name and with its content type.
pub open spec fn upload_step(req: UploadRequest, answers: Seq<Result<String, DriveUploadError>>) -> RunnerStep<Result<(Seq<char>, Seq<char>, Seq<char>, Seq<char>), DriveUploadErrorView>> {
    match upload_stage(req, answers) {
        UploadStage::Lookup { level, parent } => RunnerStep::Run(find_args_spec(folder_name(req, level), parent)),
        UploadStage::Create { level, parent } => RunnerStep::Run(create_args_spec(folder_name(req, level), parent)),
        UploadStage::UploadJson { folder } => match path_file_name(req.json_path) {
            None => RunnerStep::Done(Err(DriveUploadErrorView::MissingFileName { path: req.json_path })),
            Some(name) => RunnerStep::Run(upload_args_spec(req.json_path, name, folder, "application/json"@)),
        },
        UploadStage::UploadPdf { folder, json_id } => match path_file_name(req.pdf_path) {
            None => RunnerStep::Done(Err(DriveUploadErrorView::MissingFileName { path: req.pdf_path })),
            Some(name) => RunnerStep::Run(upload_args_spec(req.pdf_path, name, folder, "application/pdf"@)),
        },
        UploadStage::Finished(Err(e)) => RunnerStep::Done(Err(e)),
        UploadStage::Finished(Ok((folder, json_id, pdf_id))) => RunnerStep::Done(Ok((
            purchases_path(req.root, folder_name(req, 1), folder_name(req, 2)),
            folder,
            json_id,
            pdf_id,
        ))),
    }
}

/// `answers` are what `runner` may answer to the runs the upload asked for,
/// one each, in order.
pub open spec fn upload_answered<R: CommandRunner>(runner: R, req: UploadRequest, answers: Seq<Result<String, DriveUploadError>>) -> bool {
    forall|k: int| 0 <= k < answers.len() ==> (#[trigger] upload_step(req, answers.take(k))
        matches RunnerStep::Run(args) && runner.answers(args, answers[k]))
}

/// `outcome` is what an upload of `req` through `runner` may come to: for
/// some answers of the runner to the runs the upload asked for, in order,
/// the upload ends there with that outcome.
pub open spec fn upload_gives<R: CommandRunner>(runner: R, req: UploadRequest, outcome: Result<(Seq<char>, Seq<char>, Seq<char>, Seq<char>), DriveUploadErrorView>) -> bool {
    exists|answers: Seq<Result<String, DriveUploadError>>|
        #![trigger upload_step(req, answers)]
        upload_answered(runner, req, answers) && upload_step(req, answers) == RunnerStep::Done(outcome)
}

/// The outcome of an upload with its texts as character sequences.
pub open spec fn upload_view(r: Result<UploadedInvoiceFiles, DriveUploadError>) -> Result<(Seq<char>, Seq<char>, Seq<char>, Seq<char>), DriveUploadErrorView> {
    match r {
        Ok(u) => Ok((u.folder_path@, u.folder_id@, u.json_file_id@, u.pdf_file_id@)),
        Err(e) => Err(e@),
    }
}

/// One more answer, to the run the upload asked for, keeps the answers in
/// order, and moves the upload on by that answer.
proof fn lemma_upload_answered_push<R: CommandRunner>(
    runner: R,
    req: UploadRequest,
    answers: Seq<Result<String, DriveUploadError>>,
    a: Result<String, DriveUploadError>,
)
    requires
        upload_answered(runner, req, answers),
        upload_step(req, answers) matches RunnerStep::Run(args) && runner.answers(args, a),
    ensures
        upload_answered(runner, req, answers.push(a)),
        upload_stage(req, answers.push(a)) == upload_after(req, upload_stage(req, answers), a),
{
    let next = answers.push(a);
    assert(next.drop_last() =~= answers);
    assert forall|k: int| 0 <= k < next.len() implies (#[trigger] upload_step(req, next.take(k))
        matches RunnerStep::Run(args) && runner.answers(args, next[k])) by {
        if k < answers.len() {
            assert(next.take(k) =~= answers.take(k));
        } else {
            assert(next.take(k) =~= answers);
        }
    }
}

/// What `Path::new(path).file_name()` gives, as text.
pub uninterp spec fn path_file_name(path: Seq<char>) -> Option<Seq<char>>;

/// The last component of `path` (`std::path::Path::file_name`, read as
/// UTF-8); only the name `path_file_name` is claimed of the result.
#[verifier::external_body]
pub(crate) fn file_name_of(path: &str) -> (r: Option<String>)
    ensures
        match r {
            Some(name) => path_file_name(path@) == Some(name@),
            None => path_file_name(path@) is None,
        },
{
    std::path::Path::new(path).file_name().and_then(|name| name.to_str()).map(|name| name.to_string())
}

// ---------------------------------------------------------------------------
// The upload
// ---------------------------------------------------------------------------

/// Uploads invoice files through a [`CommandRunner`].
pub struct DriveUploadService<R> {
    runner: R,
}

/// What `upload_invoice_files` is asked to do for `invoice`, `files` and
/// the root folder `root`.
pub open spec fn upload_request(invoice: InvoiceSummary, files: SavedInvoiceFiles, root: Seq<char>) -> UploadRequest {
    UploadRequest { issue_date: invoice.issue_date@, root, json_path: files.json_path@, pdf_path: files.pdf_path@ }
}

/// The Drive path of the purchases folder of a period.
pub open spec fn purchases_path(root: Seq<char>, year: Seq<char>, month_name: Seq<char>) -> Seq<char> {
    root + "/"@ + year + "/"@ + month_name + "/"@ + "Compras"@
}

impl<R: CommandRunner> DriveUploadService<R> {
    /// The runner the service calls.
    pub closed spec fn runner_of(&self) -> R {
        self.runner
    }

    /// A service that runs `gws` through `runner`.
    pub fn new(runner: R) -> (s: Self)
        ensures
            s.runner_of() == runner,
    {
        DriveUploadService { runner }
    }

    /// Uploads the JSON and the PDF file of an invoice into
    /// `<root>/<year>/<month>/Compras`, creating the folders that are missing.
    /// The runs of `gws` and the outcome are those of `upload_step` for the
    /// runner's answers; the first failure ends the upload, and nothing is
    /// undone.
    pub fn upload_invoice_files(
        &self,
        invoice: &InvoiceSummary,
        files: &SavedInvoiceFiles,
        root_folder_name: &str,
    ) -> (r: Result<UploadedInvoiceFiles, DriveUploadError>)
        ensures
            upload_gives(self.runner_of(), upload_request(*invoice, *files, root_folder_name@), upload_view(r)),
            match drive_period_spec(invoice.issue_date@) {
                None => r matches Err(DriveUploadError::InvalidIssueDate { value }) && value@ == invoice.issue_date@,
                Some((year, month_name)) => r matches Ok(u) ==> u.folder_path@ == purchases_path(root_folder_name@, year, month_name),
            },
    {
        let ghost req = upload_request(*invoice, *files, root_folder_name@);
        let ghost runner = self.runner_of();
        let ghost none = Seq::<Result<String, DriveUploadError>>::empty();
        let period = match DrivePeriod::from_issue_date(invoice.issue_date.as_str()) {
            Ok(p) => p,
            Err(e) => {
                proof {
                    assert(upload_step(req, none) == RunnerStep::Done(upload_view(Err::<UploadedInvoiceFiles, DriveUploadError>(e))));
                }
                return Err(e);
            },
        };
        proof {
            assert(upload_answered(runner, req, none));
            assert(folder_name(req, 1) == period.year@);
            assert(folder_name(req, 2) == period.month_name@);
        }
        let (root, Ghost(after_root)) = self.resolve_folder(Ghost(req), Ghost(0), root_folder_name, "root", Ghost(none));
        let root_id = match root {
            Ok(id) => id,
            Err(e) => {
                proof {
                    assert(upload_step(req, after_root) == RunnerStep::Done(upload_view(Err::<UploadedInvoiceFiles, DriveUploadError>(e))));
                }
                return Err(e);
            },
        };
        let (year, Ghost(after_year)) = self.resolve_folder(Ghost(req), Ghost(1), period.year.as_str(), root_id.as_str(), Ghost(after_root));
        let year_id = match year {
            Ok(id) => id,
            Err(e) => {
                proof {
                    assert(upload_step(req, after_year) == RunnerStep::Done(upload_view(Err::<UploadedInvoiceFiles, DriveUploadError>(e))));
                }
                return Err(e);
            },
        };
        let (month, Ghost(after_month)) = self.resolve_folder(Ghost(req), Ghost(2), period.month_name.as_str(), year_id.as_str(), Ghost(after_year));
        let month_id = match month {
            Ok(id) => id,
            Err(e) => {
                proof {
                    assert(upload_step(req, after_month) == RunnerStep::Done(upload_view(Err::<UploadedInvoiceFiles, DriveUploadError>(e))));
                }
                return Err(e);
            },
        };
        let (purchases, Ghost(after_purchases)) = self.resolve_folder(Ghost(req), Ghost(3), PURCHASES_FOLDER_NAME, month_id.as_str(), Ghost(after_month));
        let purchases_id = match purchases {
            Ok(id) => id,
            Err(e) => {
                proof {
                    assert(upload_step(req, after_purchases) == RunnerStep::Done(upload_view(Err::<UploadedInvoiceFiles, DriveUploadError>(e))));
                }
                return Err(e);
            },
        };
        let (json_upload, Ghost(json_answer)) = self.upload_file(files.json_path.as_str(), purchases_id.as_str(), "application/json");
        let ghost after_json = match json_answer {
            Some(a) => after_purchases.push(a),
            None => after_purchases,
        };
        proof {
            if let Some(a) = json_answer {
                lemma_upload_answered_push(runner, req, after_purchases, a);
            }
        }
        let json_file_id = match json_upload {
            Ok(id) => id,
            Err(e) => {
                proof {
                    assert(upload_step(req, after_json) == RunnerStep::Done(upload_view(Err::<UploadedInvoiceFiles, DriveUploadError>(e))));
                }
                return Err(e);
            },
        };
        let (pdf_upload, Ghost(pdf_answer)) = self.upload_file(files.pdf_path.as_str(), purchases_id.as_str(), "application/pdf");
        let ghost after_pdf = match pdf_answer {
            Some(a) => after_json.push(a),
            None => after_json,
        };
        proof {
            if let Some(a) = pdf_answer {
                lemma_upload_answered_push(runner, req, after_json, a);
            }
        }
        let pdf_file_id = match pdf_upload {
            Ok(id) => id,
            Err(e) => {
                proof {
                    assert(upload_step(req, after_pdf) == RunnerStep::Done(upload_view(Err::<UploadedInvoiceFiles, DriveUploadError>(e))));
                }
                return Err(e);
            },
        };
        proof {
            assert(upload_step(req, after_pdf) == RunnerStep::Done(Ok::<(Seq<char>, Seq<char>, Seq<char>, Seq<char>), DriveUploadErrorView>((
                purchases_path(root_folder_name@, period.year@, period.month_name@),
                purchases_id@,
                json_file_id@,
                pdf_file_id@,
            ))));
        }
        let mut folder_path = owned(root_folder_name);
        folder_path.append("/");
        folder_path.append(period.year.as_str());
        folder_path.append("/");
        folder_path.append(period.month_name.as_str());
        folder_path.append("/");
        folder_path.append(PURCHASES_FOLDER_NAME);
        Ok(UploadedInvoiceFiles { folder_path, folder_id: purchases_id, json_file_id, pdf_file_id })
    }

    /// The id of the folder of `level` (named `name`) in `parent_id`: looked
    /// up and, when the lookup finds none, created; hands back, besides, the
    /// answers so far with the runner's answers to these runs.
    fn resolve_folder(
        &self,
        Ghost(req): Ghost<UploadRequest>,
        Ghost(level): Ghost<nat>,
        name: &str,
        parent_id: &str,
        Ghost(before): Ghost<Seq<Result<String, DriveUploadError>>>,
    ) -> (r: (Result<String, DriveUploadError>, Ghost<Seq<Result<String, DriveUploadError>>>))
        requires
            upload_answered(self.runner_of(), req, before),
            upload_stage(req, before) == (UploadStage::Lookup { level, parent: parent_id@ }),
            folder_name(req, level) == name@,
        ensures
            upload_answered(self.runner_of(), req, r.1@),
            match r.0 {
                Ok(id) => upload_stage(req, r.1@) == folder_found(level, id@),
                Err(e) => upload_stage(req, r.1@) == UploadStage::Finished(Err(e@)),
            },
    {
        let (found, Ghost(a)) = self.find_folder(name, parent_id);
        let ghost after_lookup = before.push(a);
        proof {
            lemma_upload_answered_push(self.runner_of(), req, before, a);
        }
        match found {
            Err(e) => (Err(e), Ghost(after_lookup)),
            Ok(Some(id)) => (Ok(id), Ghost(after_lookup)),
            Ok(None) => {
                let (created, Ghost(b)) = self.create_folder(name, parent_id);
                proof {
                    lemma_upload_answered_push(self.runner_of(), req, after_lookup, b);
                }
                (created, Ghost(after_lookup.push(b)))
            },
        }
    }

    /// Looks the folder `name` up in `parent_id`: the id of the first one
    /// found, if any; hands back, besides, the runner's answer.
    fn find_folder(&self, name: &str, parent_id: &str) -> (r: (Result<Option<String>, DriveUploadError>, Ghost<Result<String, DriveUploadError>>))
        ensures
            self.runner_of().answers(find_args_spec(name@, parent_id@), r.1@),
            match r.0 {
                Ok(Some(id)) => lookup_step(name@, r.1@) == Ok::<Option<Seq<char>>, DriveUploadErrorView>(Some(id@)),
                Ok(None) => lookup_step(name@, r.1@) == Ok::<Option<Seq<char>>, DriveUploadErrorView>(None),
                Err(e) => lookup_step(name@, r.1@) == Err::<Option<Seq<char>>, DriveUploadErrorView>(e@),
            },
    {
        proof {
            reveal(lookup_step);
        }
        let args = find_args(name, parent_id);
        let answer = self.runner.run(args.as_slice());
        let ghost a = answer;
        let stdout = match answer {
            Ok(out) => out,
            Err(e) => return (Err(e), Ghost(a)),
        };
        (folder_from_lookup(name, stdout.as_str()), Ghost(a))
    }

    /// Creates the folder `name` in `parent_id`: its id; hands back, besides,
    /// the runner's answer.
    fn create_folder(&self, name: &str, parent_id: &str) -> (r: (Result<String, DriveUploadError>, Ghost<Result<String, DriveUploadError>>))
        ensures
            self.runner_of().answers(create_args_spec(name@, parent_id@), r.1@),
            match r.0 {
                Ok(id) => creation_step(create_context(name@), r.1@) == Ok::<Seq<char>, DriveUploadErrorView>(id@),
                Err(e) => creation_step(create_context(name@), r.1@) == Err::<Seq<char>, DriveUploadErrorView>(e@),
            },
    {
        proof {
            reveal(creation_step);
        }
        let args = create_args(name, parent_id);
        let answer = self.runner.run(args.as_slice());
        let ghost a = answer;
        let stdout = match answer {
            Ok(out) => out,
            Err(e) => return (Err(e), Ghost(a)),
        };
        (id_from_creation(framed("create folder `", name, "`"), stdout.as_str()), Ghost(a))
    }

    /// Uploads the file at `path` into `parent_id`, under its file name and
    /// with `content_type`: the id of the new file; without a file name no
    /// run is made. Hands back, besides, the runner's answer, if it ran.
    fn upload_file(&self, path: &str, parent_id: &str, content_type: &str) -> (r: (Result<String, DriveUploadError>, Ghost<Option<Result<String, DriveUploadError>>>))
        ensures
            match path_file_name(path@) {
                None => r.1@ is None && (r.0 matches Err(DriveUploadError::MissingFileName { path: p }) && p@ == path@),
                Some(name) => r.1@ is Some && self.runner_of().answers(upload_args_spec(path@, name, parent_id@, content_type@), r.1@->Some_0)
                    && match r.0 {
                        Ok(id) => creation_step(upload_context(name), r.1@->Some_0) == Ok::<Seq<char>, DriveUploadErrorView>(id@),
                        Err(e) => creation_step(upload_context(name), r.1@->Some_0) == Err::<Seq<char>, DriveUploadErrorView>(e@),
                    },
            },
    {
        proof {
            reveal(creation_step);
        }
        let filename = match file_name_of(path) {
            Some(name) => name,
            None => return (Err(DriveUploadError::MissingFileName { path: owned(path) }), Ghost(None)),
        };
        let args = upload_args(path, filename.as_str(), parent_id, content_type);
        let answer = self.runner.run(args.as_slice());
        let ghost a = answer;
        let stdout = match answer {
            Ok(out) => out,
            Err(e) => return (Err(e), Ghost(Some(a))),
        };
        (id_from_creation(framed("upload `", filename.as_str(), "`"), stdout.as_str()), Ghost(Some(a)))
    }
}

/// The Spanish names of the twelve months, January first.
pub open spec fn spanish_month_names() -> Seq<Seq<char>> {
    seq![
        "Enero"@, "Febrero"@, "Marzo"@, "Abril"@, "Mayo"@, "Junio"@, "Julio"@, "Agosto"@, "Septiembre"@,
        "Octubre"@, "Noviembre"@, "Diciembre"@,
    ]
}

/// The month folders are named by the Spanish calendar names, in order:
/// month `m` of `1..=12` gets the `m`-th name, and there is no other month.
pub proof fn law_spanish_month_names_in_order(month: int)
    ensures
        1 <= month <= 12 ==> spanish_month_spec(month) == Some(spanish_month_names()[month - 1]),
        !(1 <= month <= 12) ==> spanish_month_spec(month) is None,
{
}

/// No two months share a folder: different months have different names.
pub proof fn law_spanish_month_names_distinct(a: int, b: int)
    requires
        1 <= a <= 12,
        1 <= b <= 12,
        a != b,
    ensures
        spanish_month_spec(a) != spanish_month_spec(b),
{
    reveal_strlit("Enero");
    reveal_strlit("Febrero");
    reveal_strlit("Marzo");
    reveal_strlit("Abril");
    reveal_strlit("Mayo");
    reveal_strlit("Junio");
    reveal_strlit("Julio");
    reveal_strlit("Agosto");
    reveal_strlit("Septiembre");
    reveal_strlit("Octubre");
    reveal_strlit("Noviembre");
    reveal_strlit("Diciembre");
    let x = spanish_month_spec(a)->0;
    let y = spanish_month_spec(b)->0;
    if x.len() == y.len() {
        if x[0] == y[0] {
            assert(x[1] != y[1] || x[2] != y[2]);
        }
    }
}

} // verus!
