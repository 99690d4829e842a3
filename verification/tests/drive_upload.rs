use std::collections::VecDeque;
use std::sync::{Arc, Mutex};

use automated_invoice_uploader::drive_upload::{
    escape_drive_query_value, spanish_month_name, CommandRunner, DrivePeriod, DriveUploadError, DriveUploadService,
    DEFAULT_ROOT_FOLDER_NAME,
};
use automated_invoice_uploader::invoice::InvoiceSummary;
use automated_invoice_uploader::invoice_files::SavedInvoiceFiles;

struct FakeRunner {
    calls: Arc<Mutex<Vec<Vec<String>>>>,
    outputs: Mutex<VecDeque<String>>,
}

impl FakeRunner {
    fn new(outputs: Vec<&str>) -> Self {
        Self {
            calls: Arc::new(Mutex::new(Vec::new())),
            outputs: Mutex::new(outputs.into_iter().map(std::string::ToString::to_string).collect()),
        }
    }
}

impl CommandRunner for FakeRunner {
    fn run(&self, args: &[String]) -> Result<String, DriveUploadError> {
        self.calls.lock().unwrap().push(args.to_vec());
        self.outputs
            .lock()
            .unwrap()
            .pop_front()
            .ok_or_else(|| DriveUploadError::Io("missing fake output".to_string()))
    }
}

fn empty_invoice() -> InvoiceSummary {
    InvoiceSummary {
        source_filename: String::new(),
        document_type_code: String::new(),
        document_type_name: String::new(),
        is_ccf: true,
        control_number: String::new(),
        generation_code: String::new(),
        issue_date: String::new(),
        issue_time: String::new(),
        currency: String::new(),
        issuer_name: String::new(),
        issuer_nit: String::new(),
        issuer_nrc: String::new(),
        receiver_name: String::new(),
        receiver_nit: String::new(),
        receiver_nrc: String::new(),
        taxed_sales: String::new(),
        exempt_sales: String::new(),
        non_subject_sales: String::new(),
        subtotal_sales: String::new(),
        discount_total: String::new(),
        subtotal: String::new(),
        taxes: Vec::new(),
        income_tax_retention: String::new(),
        vat_retention: String::new(),
        vat_perception: String::new(),
        operation_total: String::new(),
        total_to_pay: String::new(),
        total_in_words: String::new(),
        payment_condition: String::new(),
        line_items: Vec::new(),
    }
}

fn saved_files() -> SavedInvoiceFiles {
    SavedInvoiceFiles {
        json_path: "downloaded_invoices/invoice.json".to_string(),
        pdf_path: "downloaded_invoices/invoice.pdf".to_string(),
        drive_upload: None,
    }
}

#[test]
fn maps_issue_date_to_drive_period() {
    assert_eq!(
        DrivePeriod::from_issue_date("2026-05-24").unwrap(),
        DrivePeriod { year: "2026".to_string(), month_name: "Mayo".to_string() }
    );
}

#[test]
fn uploads_to_created_year_month_purchases_path() {
    let runner = FakeRunner::new(vec![
        r#"{"files":[]}"#,
        r#"{"id":"root-folder"}"#,
        r#"{"files":[]}"#,
        r#"{"id":"year-folder"}"#,
        r#"{"files":[]}"#,
        r#"{"id":"month-folder"}"#,
        r#"{"files":[]}"#,
        r#"{"id":"purchases-folder"}"#,
        r#"{"id":"json-file"}"#,
        r#"{"id":"pdf-file"}"#,
    ]);
    let calls = runner.calls.clone();
    let service = DriveUploadService::new(runner);
    let mut invoice = empty_invoice();
    invoice.issue_date = "2026-05-24".to_string();
    let files = saved_files();

    let upload = service.upload_invoice_files(&invoice, &files, DEFAULT_ROOT_FOLDER_NAME).unwrap();

    assert_eq!(upload.folder_path, "CARLOS ROLANDO MORAN CAMPOS/2026/Mayo/Compras");
    assert_eq!(upload.json_file_id, "json-file");
    assert_eq!(upload.pdf_file_id, "pdf-file");
    assert_eq!(calls.lock().unwrap().len(), 10);
}

#[test]
fn reuses_folders_that_exist() {
    let runner = FakeRunner::new(vec![
        r#"{"files":[{"id":"root-folder","name":"root"}]}"#,
        r#"{"files":[{"id":"year-folder"}]}"#,
        r#"{"files":[{"id":"month-folder"}]}"#,
        r#"{"files":[{"id":"purchases-folder"}]}"#,
        r#"{"id":"json-file"}"#,
        r#"{"id":"pdf-file"}"#,
    ]);
    let calls = runner.calls.clone();
    let service = DriveUploadService::new(runner);
    let mut invoice = empty_invoice();
    invoice.issue_date = "2025-12-02".to_string();

    let upload = service.upload_invoice_files(&invoice, &saved_files(), "Root").unwrap();

    assert_eq!(upload.folder_path, "Root/2025/Diciembre/Compras");
    assert_eq!(upload.folder_id, "purchases-folder");
    let calls = calls.lock().unwrap();
    assert_eq!(calls.len(), 6);
    assert_eq!(calls[4][2], "create");
    assert!(calls[4].contains(&"--upload".to_string()));
    assert!(calls[4].contains(&"downloaded_invoices/invoice.json".to_string()));
    assert_eq!(calls[4][6], r#"{"name":"invoice.json","parents":["purchases-folder"]}"#);
    assert!(calls[5].contains(&"application/pdf".to_string()));
}

#[test]
fn rejects_an_issue_date_without_a_month_folder() {
    let runner = FakeRunner::new(vec![]);
    let calls = runner.calls.clone();
    let service = DriveUploadService::new(runner);
    let mut invoice = empty_invoice();
    invoice.issue_date = "2026-13-01".to_string();

    let error = service.upload_invoice_files(&invoice, &saved_files(), "Root").unwrap_err();

    assert_eq!(error, DriveUploadError::InvalidIssueDate { value: "2026-13-01".to_string() });
    assert_eq!(calls.lock().unwrap().len(), 0);
}

#[test]
fn a_runner_error_stops_the_upload() {
    let runner = FakeRunner::new(vec![r#"{"files":[]}"#]);
    let service = DriveUploadService::new(runner);
    let mut invoice = empty_invoice();
    invoice.issue_date = "2026-05-24".to_string();

    let error = service.upload_invoice_files(&invoice, &saved_files(), "Root").unwrap_err();

    assert_eq!(error, DriveUploadError::Io("missing fake output".to_string()));
}

#[test]
fn unreadable_output_is_a_json_error() {
    let runner = FakeRunner::new(vec!["not json"]);
    let service = DriveUploadService::new(runner);
    let mut invoice = empty_invoice();
    invoice.issue_date = "2026-05-24".to_string();

    let error = service.upload_invoice_files(&invoice, &saved_files(), "Root").unwrap_err();

    assert!(matches!(error, DriveUploadError::Json { .. }));
}

#[test]
fn a_path_without_file_name_is_rejected() {
    let runner = FakeRunner::new(vec![
        r#"{"files":[{"id":"a"}]}"#,
        r#"{"files":[{"id":"b"}]}"#,
        r#"{"files":[{"id":"c"}]}"#,
        r#"{"files":[{"id":"d"}]}"#,
    ]);
    let service = DriveUploadService::new(runner);
    let mut invoice = empty_invoice();
    invoice.issue_date = "2026-05-24".to_string();
    let files = SavedInvoiceFiles { json_path: "..".to_string(), pdf_path: "x.pdf".to_string(), drive_upload: None };

    let error = service.upload_invoice_files(&invoice, &files, "Root").unwrap_err();

    assert_eq!(error, DriveUploadError::MissingFileName { path: "..".to_string() });
}

#[test]
fn drive_periods_of_other_dates() {
    assert!(DrivePeriod::from_issue_date("2026-5-24").is_ok());
    assert_eq!(DrivePeriod::from_issue_date("2026-05-24").unwrap().month_name, "Mayo");
    assert!(DrivePeriod::from_issue_date("26-05-24").is_err());
    assert!(DrivePeriod::from_issue_date("2026-05-32").is_err());
    assert!(DrivePeriod::from_issue_date("2026-05-24-1").is_err());
    assert!(DrivePeriod::from_issue_date("2026-00-24").is_err());
    assert_eq!(spanish_month_name(9), Some("Septiembre"));
    assert_eq!(spanish_month_name(0), None);
}

#[test]
fn escapes_backslashes_and_quotes() {
    assert_eq!(escape_drive_query_value(r"O'Brien\Co"), r"O\'Brien\\Co");
    assert_eq!(escape_drive_query_value("plain"), "plain");
}

#[test]
fn a_failed_folder_creation_ends_the_upload_there() {
    let runner = FakeRunner::new(vec![r#"{"files":[{"id":"root-id"}]}"#, r#"{"files":[]}"#, "not json"]);
    let calls = runner.calls.clone();
    let service = DriveUploadService::new(runner);
    let mut invoice = empty_invoice();
    invoice.issue_date = "2026-05-24".to_string();

    let error = service.upload_invoice_files(&invoice, &saved_files(), "Root").unwrap_err();

    match error {
        DriveUploadError::Json { context, .. } => assert_eq!(context, "create folder `2026`"),
        other => panic!("unexpected error {:?}", other),
    }
    let calls = calls.lock().unwrap();
    assert_eq!(calls.len(), 3);
    assert_eq!(calls[1][2], "list");
    assert!(calls[1][4].contains("root-id"));
    assert_eq!(calls[2][2], "create");
    assert!(calls[2][6].contains("\"parents\":[\"root-id\"]"));
}
