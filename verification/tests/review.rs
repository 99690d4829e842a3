use std::collections::VecDeque;
use std::sync::Mutex;

use automated_invoice_uploader::drive_upload::{self, DriveUploadError, DriveUploadService};
use automated_invoice_uploader::gmail_search::{
    AttachmentSummary, CandidateEmail, DownloadedAttachment, GmailSearchError, GmailSearchService,
};
use automated_invoice_uploader::i18n::{messages_for, Language};
use automated_invoice_uploader::invoice::{InvoiceParseError, InvoiceSummary};
use automated_invoice_uploader::invoice_files::SavedInvoiceFiles;
use automated_invoice_uploader::keys::{KeyCode, KeyInput};
use automated_invoice_uploader::review::{
    load_invoice_review, review_error_message, save_invoice_review, InvoiceReview, ReviewAction, ReviewError,
    ReviewEvent, ReviewPhase, ReviewState, ReviewView,
};
use automated_invoice_uploader::settings::AppSettings;

struct GmailRunner {
    outputs: Mutex<VecDeque<String>>,
}

impl automated_invoice_uploader::gmail_search::CommandRunner for GmailRunner {
    fn run(&self, _args: &[String]) -> Result<String, GmailSearchError> {
        self.outputs.lock().unwrap().pop_front().ok_or_else(|| GmailSearchError::Io("missing fake output".to_string()))
    }
}

struct DriveRunner {
    outputs: Mutex<VecDeque<String>>,
}

impl drive_upload::CommandRunner for DriveRunner {
    fn run(&self, _args: &[String]) -> Result<String, DriveUploadError> {
        self.outputs.lock().unwrap().pop_front().ok_or_else(|| DriveUploadError::Io("missing fake output".to_string()))
    }
}

fn gmail(outputs: Vec<&str>) -> GmailSearchService<GmailRunner> {
    GmailSearchService::new(GmailRunner { outputs: Mutex::new(outputs.into_iter().map(|s| s.to_string()).collect()) })
}

fn drive(outputs: Vec<&str>) -> DriveUploadService<DriveRunner> {
    DriveUploadService::new(DriveRunner { outputs: Mutex::new(outputs.into_iter().map(|s| s.to_string()).collect()) })
}

fn attachment(filename: &str) -> AttachmentSummary {
    AttachmentSummary {
        filename: filename.to_string(),
        attachment_id: Some(format!("{filename}-id")),
        mime_type: String::new(),
        size: None,
    }
}

fn email(id: &str, pdfs: Vec<&str>, jsons: Vec<&str>) -> CandidateEmail {
    CandidateEmail {
        id: id.to_string(),
        thread_id: String::new(),
        from: String::new(),
        subject: String::new(),
        received_at: String::new(),
        snippet: String::new(),
        internal_date_ms: None,
        pdf_attachments: pdfs.into_iter().map(attachment).collect(),
        json_attachments: jsons.into_iter().map(attachment).collect(),
    }
}

fn invoice(issue_date: &str) -> InvoiceSummary {
    InvoiceSummary {
        source_filename: String::new(),
        document_type_code: "03".to_string(),
        document_type_name: String::new(),
        is_ccf: true,
        control_number: "DTE-03-1".to_string(),
        generation_code: String::new(),
        issue_date: issue_date.to_string(),
        issue_time: String::new(),
        currency: String::new(),
        issuer_name: String::new(),
        issuer_nit: String::new(),
        issuer_nrc: String::new(),
        receiver_name: String::new(),
        receiver_nit: String::new(),
        receiver_nrc: String::new(),
        taxed_sales: String::new(),
        exempt_sales: String::new(),
        non_subject_sales: String::new(),
        subtotal_sales: String::new(),
        discount_total: String::new(),
        subtotal: String::new(),
        taxes: Vec::new(),
        income_tax_retention: String::new(),
        vat_retention: String::new(),
        vat_perception: String::new(),
        operation_total: String::new(),
        total_to_pay: String::new(),
        total_in_words: String::new(),
        payment_condition: String::new(),
        line_items: Vec::new(),
    }
}

/// Reads a downloaded file as an invoice when its bytes say `ok`.
fn parse(file: &DownloadedAttachment) -> Result<InvoiceSummary, InvoiceParseError> {
    if file.bytes == b"ok" {
        let mut summary = invoice("2026-05-24");
        summary.source_filename = file.filename.clone();
        Ok(summary)
    } else {
        Err(InvoiceParseError::InvalidJson(file.filename.clone()))
    }
}

fn key(code: KeyCode) -> KeyInput {
    KeyInput { code, control: false }
}

#[test]
fn loads_the_first_json_that_reads() {
    // "YmFk" is "bad", "b2s" is "ok".
    let service = gmail(vec![r#"{"data":"YmFk"}"#, r#"{"data":"b2s"}"#]);
    let review = load_invoice_review(&service, email("m", vec!["a.pdf"], vec!["one.json", "two.json"]), parse).unwrap();
    assert_eq!(review.json_file.filename, "two.json");
    assert_eq!(review.invoice.source_filename, "two.json");
    assert_eq!(review.email.id, "m");
}

#[test]
fn reports_the_last_parse_error_or_missing_json() {
    let service = gmail(vec![r#"{"data":"YmFk"}"#, r#"{"data":"YmFk"}"#]);
    let error = load_invoice_review(&service, email("m", vec![], vec!["one.json", "two.json"]), parse).unwrap_err();
    assert!(matches!(error, ReviewError::Invoice(InvoiceParseError::InvalidJson(ref name)) if name == "two.json"));
    let error = load_invoice_review(&gmail(vec![]), email("m", vec![], vec![]), parse).unwrap_err();
    assert!(matches!(error, ReviewError::MissingJson));
    let error = load_invoice_review(&gmail(vec![]), email("m", vec![], vec!["one.json"]), parse).unwrap_err();
    assert!(matches!(error, ReviewError::Gmail(GmailSearchError::Io(_))));
}

fn loaded_review(issue_date: &str, pdfs: Vec<&str>) -> InvoiceReview {
    InvoiceReview {
        email: email("m", pdfs, vec!["i.json"]),
        json_file: DownloadedAttachment { filename: "i.json".to_string(), bytes: b"ok".to_vec() },
        invoice: invoice(issue_date),
    }
}

fn save_ok(
    _invoice: &InvoiceSummary,
    json: &DownloadedAttachment,
    pdf: &DownloadedAttachment,
    dir: &String,
) -> Result<SavedInvoiceFiles, String> {
    Ok(SavedInvoiceFiles {
        json_path: format!("{dir}/{}", json.filename),
        pdf_path: format!("{dir}/{}", pdf.filename),
        drive_upload: None,
    })
}

#[test]
fn saves_and_uploads_a_review() {
    let settings = AppSettings::default();
    let uploads = drive(vec![
        r#"{"files":[{"id":"r"}]}"#,
        r#"{"files":[{"id":"y"}]}"#,
        r#"{"files":[{"id":"m"}]}"#,
        r#"{"files":[{"id":"c"}]}"#,
        r#"{"id":"j"}"#,
        r#"{"id":"p"}"#,
    ]);
    let saved = save_invoice_review(
        &gmail(vec![r#"{"data":"JVBERg"}"#]),
        &uploads,
        loaded_review("2026-05-24", vec!["a.pdf"]),
        &settings,
        save_ok,
    )
    .unwrap();
    assert_eq!(saved.json_path, "downloaded_invoices/i.json");
    assert_eq!(saved.pdf_path, "downloaded_invoices/a.pdf");
    let upload = saved.drive_upload.unwrap();
    assert_eq!(upload.folder_path, "CARLOS ROLANDO MORAN CAMPOS/2026/Mayo/Compras");
    assert_eq!(upload.pdf_file_id, "p");
}

#[test]
fn saving_fails_for_each_reason() {
    let settings = AppSettings::default();
    let error = save_invoice_review(&gmail(vec![]), &drive(vec![]), loaded_review("2026-05-24", vec![]), &settings, save_ok)
        .unwrap_err();
    assert!(matches!(error, ReviewError::MissingPdf));
    let error = save_invoice_review(
        &gmail(vec![r#"{"data":"JVBERg"}"#]),
        &drive(vec![]),
        loaded_review("2026-05-24", vec!["a.pdf"]),
        &settings,
        |_: &InvoiceSummary, _: &DownloadedAttachment, _: &DownloadedAttachment, _: &String| Err("disk full".to_string()),
    )
    .unwrap_err();
    assert!(matches!(error, ReviewError::Io(ref m) if m == "disk full"));
    let error = save_invoice_review(
        &gmail(vec![r#"{"data":"JVBERg"}"#]),
        &drive(vec![]),
        loaded_review("bad date", vec!["a.pdf"]),
        &settings,
        save_ok,
    )
    .unwrap_err();
    assert!(matches!(error, ReviewError::Drive(DriveUploadError::InvalidIssueDate { .. })));
}

#[test]
fn review_errors_are_described() {
    let text = messages_for(Language::English);
    assert_eq!(review_error_message(ReviewError::MissingJson, &text), text.missing_json_error);
    assert_eq!(review_error_message(ReviewError::MissingPdf, &text), text.missing_pdf_error);
    assert_eq!(
        review_error_message(ReviewError::Io("disk full".to_string()), &text),
        format!("{}: disk full", text.invoice_save_error_prefix)
    );
    assert_eq!(
        review_error_message(ReviewError::Invoice(InvoiceParseError::MissingObject), &text),
        format!("{}: invoice JSON root must be an object", text.invoice_json_error_prefix)
    );
    assert_eq!(review_error_message(ReviewError::Gmail(GmailSearchError::CliNotFound), &text), "gws CLI was not found in PATH.");
}

#[test]
fn a_review_walks_through_every_email() {
    let text = messages_for(Language::English);
    let emails = vec![email("one", vec!["a.pdf"], vec!["a.json"]), email("two", vec!["b.pdf"], vec!["b.json"])];
    let (state, action) = ReviewState::begin(emails);
    assert!(matches!(action, ReviewAction::Load(ref e) if e.id == "one"));
    match state.review_view() {
        ReviewView::Loading { index, total, email } => {
            assert_eq!((index, total), (0, 2));
            assert_eq!(email.id, "one");
        }
        _ => panic!("loading"),
    }

    let (state, action) = state.on_event(ReviewEvent::Loaded(Ok(loaded_review("2026-05-24", vec!["a.pdf"]))), &text);
    assert!(matches!(action, ReviewAction::Nothing));
    assert!(matches!(state.phase(), ReviewPhase::Ready { .. }));
    assert!(state.review().is_some());

    let (state, action) = state.on_key(key(KeyCode::Char('y')));
    assert!(matches!(action, ReviewAction::Save));
    assert!(matches!(state.review_view(), ReviewView::Saving { index: 0, total: 2, .. }));

    let saved = SavedInvoiceFiles { json_path: "j".to_string(), pdf_path: "p".to_string(), drive_upload: None };
    let (state, action) = state.on_event(ReviewEvent::Saved(Ok(saved)), &text);
    assert!(matches!(action, ReviewAction::Load(ref e) if e.id == "two"));

    let (state, _) = state.on_event(ReviewEvent::Loaded(Err(ReviewError::MissingJson)), &text);
    match state.review_view() {
        ReviewView::Error { index, message, email, .. } => {
            assert_eq!(index, 1);
            assert_eq!(email.id, "two");
            assert_eq!(message, text.missing_json_error);
        }
        _ => panic!("error"),
    }

    let (state, action) = state.on_key(key(KeyCode::Enter));
    assert!(matches!(action, ReviewAction::Nothing));
    match state.review_view() {
        ReviewView::Complete { processed, skipped, saved_files } => {
            assert_eq!((processed, skipped), (1, 1));
            assert_eq!(saved_files[0].json_path, "j");
        }
        _ => panic!("complete"),
    }
    let (_, action) = state.on_key(key(KeyCode::Esc));
    assert!(matches!(action, ReviewAction::ShowResults));
}

#[test]
fn quitting_and_stray_events_leave_the_review_alone() {
    let text = messages_for(Language::Spanish);
    let (state, _) = ReviewState::begin(vec![email("one", vec![], vec![])]);
    let (state, action) = state.on_key(key(KeyCode::Char('q')));
    assert!(matches!(action, ReviewAction::Quit));
    let (state, action) = state.on_event(ReviewEvent::Saved(Err(ReviewError::MissingPdf)), &text);
    assert!(matches!(action, ReviewAction::Nothing));
    assert!(matches!(state.phase(), ReviewPhase::Loading { .. }));
    let (state, _) = state.on_event(ReviewEvent::WorkerStopped, &text);
    match state.review_view() {
        ReviewView::Error { message, .. } => assert_eq!(message, text.gmail_search_stopped),
        _ => panic!("error"),
    }
    let (state, action) = state.on_key(key(KeyCode::Char('y')));
    assert!(matches!(action, ReviewAction::Nothing));
    let (state, _) = state.on_key(key(KeyCode::Char('n')));
    assert!(matches!(state.review_view(), ReviewView::Complete { processed: 0, skipped: 1, .. }));
}

#[test]
fn an_empty_selection_completes_at_once() {
    let (state, action) = ReviewState::begin(Vec::new());
    assert!(matches!(action, ReviewAction::Nothing));
    assert!(matches!(state.review_view(), ReviewView::Complete { processed: 0, skipped: 0, .. }));
    assert!(matches!(ReviewState::idle().review_view(), ReviewView::Complete { processed: 0, skipped: 0, .. }));
}

#[test]
fn a_failed_download_after_an_unreadable_json_ends_the_load() {
    // "YmFk" is "bad"; the second download finds no output.
    let service = gmail(vec![r#"{"data":"YmFk"}"#]);
    let error = load_invoice_review(&service, email("m", vec![], vec!["one.json", "two.json"]), parse).unwrap_err();
    assert!(matches!(error, ReviewError::Gmail(GmailSearchError::Io(_))));
}
