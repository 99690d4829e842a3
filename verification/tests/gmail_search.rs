use std::collections::VecDeque;
use std::sync::{Arc, Mutex};

use automated_invoice_uploader::date_range::DateRange;
use automated_invoice_uploader::gmail_search::{
    build_attachment_query, decode_base64_url, decode_message, header_value, intersect_ids, is_json_attachment,
    is_pdf_attachment, message_to_candidate, parse_list_output, AttachmentSummary, CommandRunner, GmailSearchError,
    GmailSearchService, MessageHeader, DEFAULT_DTE_QUERY_FILTER,
};

struct FakeRunner {
    calls: Arc<Mutex<Vec<Vec<String>>>>,
    outputs: Mutex<VecDeque<String>>,
}

impl FakeRunner {
    fn new(outputs: Vec<&str>) -> Self {
        Self {
            calls: Arc::new(Mutex::new(Vec::new())),
            outputs: Mutex::new(outputs.into_iter().map(std::string::ToString::to_string).collect()),
        }
    }
}

impl CommandRunner for FakeRunner {
    fn run(&self, args: &[String]) -> Result<String, GmailSearchError> {
        self.calls.lock().unwrap().push(args.to_vec());
        self.outputs
            .lock()
            .unwrap()
            .pop_front()
            .ok_or_else(|| GmailSearchError::Io("missing fake output".to_string()))
    }
}

const BOTH_MESSAGE: &str = r#"{
    "id": "both",
    "threadId": "thread",
    "internalDate": "1770000000000",
    "payload": {
        "headers": [
            {"name": "From", "value": "Vendor <vendor@example.com>"},
            {"name": "Subject", "value": "Invoice"}
        ],
        "parts": [
            {
                "filename": "invoice.pdf",
                "mimeType": "application/pdf",
                "body": {"attachmentId": "pdf-id"}
            },
            {
                "filename": "invoice.json",
                "mimeType": "application/json",
                "body": {"attachmentId": "json-id"}
            }
        ]
    }
}"#;

fn attachment(filename: &str, mime_type: &str) -> AttachmentSummary {
    AttachmentSummary {
        filename: filename.to_string(),
        attachment_id: Some("attachment-id".to_string()),
        mime_type: mime_type.to_string(),
        size: None,
    }
}

#[test]
fn builds_gmail_attachment_query_with_credito_fiscal_filter() {
    let range = DateRange::parse("2026-05-01", "2026-05-31").unwrap();

    assert_eq!(
        build_attachment_query(&range, "pdf", DEFAULT_DTE_QUERY_FILTER),
        "after:2026/05/01 before:2026/06/01 filename:pdf DTE-03"
    );
}

#[test]
fn omits_credito_fiscal_filter_when_empty() {
    let range = DateRange::parse("2026-05-01", "2026-05-31").unwrap();

    assert_eq!(build_attachment_query(&range, "json", " "), "after:2026/05/01 before:2026/06/01 filename:json");
}

#[test]
fn parses_ndjson_message_list_pages() {
    let stdout = r#"{"messages":[{"id":"one"},{"id":"two"}]}
{"messages":[{"id":"two"},{"id":"three"}]}"#;
    let output = parse_list_output(stdout, "filename:pdf").unwrap();

    assert_eq!(output.message_ids, vec!["one", "two", "three"]);
    assert!(!output.hit_page_limit);
}

#[test]
fn intersects_message_ids_in_pdf_search_order() {
    let pdf_ids = vec!["one".to_string(), "two".to_string(), "three".to_string()];
    let json_ids = vec!["three".to_string(), "one".to_string()];

    assert_eq!(intersect_ids(&pdf_ids, &json_ids), vec!["one", "three"]);
}

#[test]
fn extracts_nested_pdf_and_json_attachments() {
    let message = decode_message(
        r#"{
            "id": "m1",
            "threadId": "t1",
            "internalDate": "1770000000000",
            "snippet": "invoice",
            "payload": {
                "headers": [
                    {"name": "From", "value": "Vendor <vendor@example.com>"},
                    {"name": "Subject", "value": "Factura"},
                    {"name": "Date", "value": "Fri, 01 May 2026 09:00:00 -0600"}
                ],
                "parts": [
                    {
                        "mimeType": "multipart/mixed",
                        "parts": [
                            {
                                "filename": "invoice.PDF",
                                "mimeType": "application/pdf",
                                "body": {"attachmentId": "pdf-1", "size": 12}
                            },
                            {
                                "filename": "invoice.json",
                                "mimeType": "application/json",
                                "body": {"attachmentId": "json-1", "size": 24}
                            }
                        ]
                    }
                ]
            }
        }"#,
    )
    .unwrap();

    let candidate = message_to_candidate(message).unwrap();

    assert_eq!(candidate.pdf_attachments[0].filename, "invoice.PDF");
    assert_eq!(candidate.json_attachments[0].filename, "invoice.json");
    assert_eq!(candidate.from, "Vendor <vendor@example.com>");
}

#[test]
fn searches_with_fake_runner_and_fetches_intersection_only() {
    let runner = FakeRunner::new(vec![
        r#"{"messages":[{"id":"pdf-only"},{"id":"both"}]}"#,
        r#"{"messages":[{"id":"both"},{"id":"json-only"}]}"#,
        BOTH_MESSAGE,
    ]);
    let calls = runner.calls.clone();
    let service = GmailSearchService::new(runner);
    let range = DateRange::parse("2026-05-01", "2026-05-31").unwrap();

    let candidates = service.search_invoice_candidates(&range).unwrap();

    assert_eq!(candidates.len(), 1);
    assert_eq!(candidates[0].id, "both");
    assert_eq!(calls.lock().unwrap().len(), 3);
}

#[test]
fn search_uses_configured_dte_query_filter() {
    let runner = FakeRunner::new(vec![r#"{"messages":[{"id":"both"}]}"#, r#"{"messages":[{"id":"both"}]}"#, BOTH_MESSAGE]);
    let calls = runner.calls.clone();
    let service = GmailSearchService::new(runner).with_dte_query_filter("custom-filter");
    let range = DateRange::parse("2026-05-01", "2026-05-31").unwrap();

    let candidates = service.search_invoice_candidates(&range).unwrap();

    let calls = calls.lock().unwrap();
    assert_eq!(candidates.len(), 1);
    assert!(calls[0][5].contains("custom-filter"));
    assert!(calls[1][5].contains("custom-filter"));
}

#[test]
fn downloads_attachment_data() {
    let runner = FakeRunner::new(vec![r#"{"data":"SGVsbG8"}"#]);
    let service = GmailSearchService::new(runner);
    let attachment = AttachmentSummary {
        filename: "invoice.json".to_string(),
        attachment_id: Some("attachment-id".to_string()),
        mime_type: "application/json".to_string(),
        size: Some(5),
    };

    let downloaded = service.download_attachment("message-id", &attachment).unwrap();

    assert_eq!(downloaded.filename, "invoice.json");
    assert_eq!(downloaded.bytes, b"Hello");
}

#[test]
fn search_sorts_latest_first_and_skips_emails_without_both() {
    let older = BOTH_MESSAGE.replace("\"both\"", "\"older\"").replace("1770000000000", "1760000000000");
    let pdf_only = r#"{"id": "two", "payload": {"parts": [{"filename": "a.pdf", "mimeType": "application/pdf", "body": {}}]}}"#;
    let runner = FakeRunner::new(vec![
        r#"{"messages":[{"id":"older"},{"id":"two"},{"id":"both"}]}"#,
        r#"{"messages":[{"id":"both"},{"id":"older"},{"id":"two"}]}"#,
        &older,
        pdf_only,
        BOTH_MESSAGE,
    ]);
    let service = GmailSearchService::new(runner);
    let range = DateRange::parse("2026-05-01", "2026-05-31").unwrap();

    let candidates = service.search_invoice_candidates(&range).unwrap();

    assert_eq!(candidates.len(), 2);
    assert_eq!(candidates[0].id, "both");
    assert_eq!(candidates[1].id, "older");
    assert_eq!(candidates[0].internal_date_ms, Some(1770000000000));
}

#[test]
fn the_list_call_names_the_inbox_and_the_page_limit() {
    let runner = FakeRunner::new(vec!["", ""]);
    let calls = runner.calls.clone();
    let service = GmailSearchService::new(runner);
    let range = DateRange::parse("2026-05-01", "2026-05-31").unwrap();

    let candidates = service.search_invoice_candidates(&range).unwrap();

    assert!(candidates.is_empty());
    let calls = calls.lock().unwrap();
    assert_eq!(calls.len(), 2);
    assert_eq!(calls[0][0..5], ["gmail", "users", "messages", "list", "--params"]);
    assert!(calls[0][5].contains("\"labelIds\":[\"INBOX\"]"));
    assert!(calls[0][5].contains("\"q\":\"after:2026/05/01 before:2026/06/01 filename:pdf DTE-03\""));
    assert_eq!(calls[0][6..], ["--page-all", "--page-limit", "1000"]);
}

#[test]
fn a_failing_runner_stops_the_search() {
    let service = GmailSearchService::new(FakeRunner::new(vec![]));
    let range = DateRange::parse("2026-05-01", "2026-05-31").unwrap();

    assert_eq!(
        service.search_invoice_candidates(&range),
        Err(GmailSearchError::Io("missing fake output".to_string()))
    );
}

#[test]
fn an_attachment_without_id_is_not_downloadable() {
    let service = GmailSearchService::new(FakeRunner::new(vec![]));
    let mut attachment = attachment("a.json", "application/json");
    attachment.attachment_id = None;

    assert_eq!(
        service.download_attachment("m", &attachment),
        Err(GmailSearchError::AttachmentNotDownloadable { filename: "a.json".to_string() })
    );
}

#[test]
fn an_attachment_without_data_is_reported() {
    let service = GmailSearchService::new(FakeRunner::new(vec![r#"{"size": 3}"#]));

    assert_eq!(
        service.download_attachment("m", &attachment("a.json", "application/json")),
        Err(GmailSearchError::AttachmentMissingData { filename: "a.json".to_string() })
    );
}

#[test]
fn base64_with_or_without_padding() {
    assert_eq!(decode_base64_url("a", "SGVsbG8").unwrap(), b"Hello");
    assert_eq!(decode_base64_url("a", "SGVsbG8=").unwrap(), b"Hello");
    assert_eq!(decode_base64_url("a", "_-8").unwrap(), vec![0xff, 0xef]);
    assert!(matches!(decode_base64_url("a", "***"), Err(GmailSearchError::Base64 { .. })));
}

#[test]
fn page_limit_is_reported_only_with_a_next_page() {
    let mut stdout = String::new();
    for _ in 0..1000 {
        stdout.push_str("{\"messages\":[{\"id\":\"x\"}],\"nextPageToken\":\"t\"}\n");
    }
    let output = parse_list_output(&stdout, "q").unwrap();
    assert!(output.hit_page_limit);
    assert_eq!(output.message_ids, vec!["x"]);
    let output = parse_list_output("{\"messages\":[],\"nextPageToken\":\"t\"}", "q").unwrap();
    assert!(!output.hit_page_limit);
    assert!(parse_list_output("{\"messages\": 3}\n{}", "q").is_err());
    assert!(parse_list_output("   ", "q").unwrap().message_ids.is_empty());
}

#[test]
fn attachment_kinds() {
    assert!(is_pdf_attachment(&attachment("INVOICE.PDF", "")));
    assert!(is_pdf_attachment(&attachment("x", "Application/PDF")));
    assert!(!is_pdf_attachment(&attachment("x.json", "application/json")));
    assert!(is_json_attachment(&attachment("x.JSON", "")));
    assert!(is_json_attachment(&attachment("x", "text/json; charset=utf-8")));
    assert!(!is_json_attachment(&attachment("x.txt", "text/plain")));
}

#[test]
fn header_lookup_ignores_case_and_blank_values() {
    let headers = vec![
        MessageHeader { name: "from".to_string(), value: "  A  ".to_string() },
        MessageHeader { name: "Subject".to_string(), value: "   ".to_string() },
    ];
    assert_eq!(header_value(&headers, "From"), Some("A".to_string()));
    assert_eq!(header_value(&headers, "Subject"), None);
    assert_eq!(header_value(&headers, "Date"), None);
}

#[test]
fn a_message_without_both_attachments_is_no_candidate() {
    let message = decode_message(
        r#"{"id": "m", "payload": {"parts": [{"filename": "a.pdf", "mimeType": "application/pdf"}]}}"#,
    )
    .unwrap();
    assert!(message_to_candidate(message).is_none());
    let message = decode_message(r#"{"id": "m"}"#).unwrap();
    assert!(message_to_candidate(message).is_none());
    assert!(decode_message(r#"{"threadId": "t"}"#).is_err());
}

#[test]
fn unreadable_output_stops_the_search() {
    let service = GmailSearchService::new(FakeRunner::new(vec!["{not json"]));
    let range = DateRange::parse("2026-05-01", "2026-05-31").unwrap();

    match service.search_invoice_candidates(&range) {
        Err(GmailSearchError::Json { context, .. }) => {
            assert_eq!(context, "message list page for query `after:2026/05/01 before:2026/06/01 filename:pdf DTE-03`")
        }
        other => panic!("unexpected {other:?}"),
    }
}

#[test]
fn a_search_that_hits_the_page_limit_fails() {
    let mut stdout = String::new();
    for _ in 0..1000 {
        stdout.push_str("{\"messages\":[{\"id\":\"x\"}],\"nextPageToken\":\"t\"}\n");
    }
    let service = GmailSearchService::new(FakeRunner::new(vec![&stdout]));
    let range = DateRange::parse("2026-05-01", "2026-05-31").unwrap();

    assert_eq!(
        service.search_invoice_candidates(&range),
        Err(GmailSearchError::PageLimitReached {
            query: "after:2026/05/01 before:2026/06/01 filename:pdf DTE-03".to_string(),
            page_limit: 1000,
        })
    );
}

#[test]
fn an_unreadable_message_is_a_json_error() {
    let runner = FakeRunner::new(vec![r#"{"messages":[{"id":"m"}]}"#, r#"{"messages":[{"id":"m"}]}"#, "[]"]);
    let service = GmailSearchService::new(runner);
    let range = DateRange::parse("2026-05-01", "2026-05-31").unwrap();

    match service.search_invoice_candidates(&range) {
        Err(GmailSearchError::Json { context, .. }) => assert_eq!(context, "message details for m"),
        other => panic!("unexpected {other:?}"),
    }
}

#[test]
fn the_last_filter_set_is_used_trimmed() {
    let outputs = vec![r#"{"messages":[{"id":"both"}]}"#, r#"{"messages":[{"id":"both"}]}"#, BOTH_MESSAGE];
    let range = DateRange::parse("2026-05-01", "2026-05-31").unwrap();

    let first = FakeRunner::new(outputs.clone());
    let first_calls = first.calls.clone();
    let twice = GmailSearchService::new(first).with_dte_query_filter("old-filter").with_dte_query_filter("  custom  ");
    let found_twice = twice.search_invoice_candidates(&range).unwrap();

    let second = FakeRunner::new(outputs);
    let second_calls = second.calls.clone();
    let once = GmailSearchService::new(second).with_dte_query_filter("custom");
    let found_once = once.search_invoice_candidates(&range).unwrap();

    assert_eq!(found_twice, found_once);
    let first_calls = first_calls.lock().unwrap();
    assert_eq!(*first_calls, *second_calls.lock().unwrap());
    assert!(!first_calls[0][5].contains("old-filter"));
    assert!(first_calls[0][5].contains("filename:pdf custom\""));
}

#[test]
fn a_failed_pdf_listing_runs_nothing_more() {
    let runner = FakeRunner::new(vec!["not json"]);
    let calls = runner.calls.clone();
    let service = GmailSearchService::new(runner);
    let range = DateRange::parse("2026-05-01", "2026-05-31").unwrap();

    assert!(matches!(service.search_invoice_candidates(&range), Err(GmailSearchError::Json { .. })));
    assert_eq!(calls.lock().unwrap().len(), 1);
}
