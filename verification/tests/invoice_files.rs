use automated_invoice_uploader::invoice::InvoiceParseError;
use automated_invoice_uploader::invoice_files::{sanitize_filename, unique_name, unique_path};

#[test]
fn sanitizes_unsafe_filename_characters() {
    assert_eq!(sanitize_filename("../DTE 03:ABC.json"), "DTE_03_ABC.json");
}

#[test]
fn sanitized_names_are_trimmed_and_capped() {
    assert_eq!(sanitize_filename("__.a.__"), "a");
    assert_eq!(sanitize_filename("...."), "");
    assert_eq!(sanitize_filename("ñandú.pdf"), "and_.pdf");
    let long = "x".repeat(200);
    assert_eq!(sanitize_filename(&long).len(), 120);
    assert_eq!(sanitize_filename(&sanitize_filename("../DTE 03:ABC.json")), "DTE_03_ABC.json");
}

#[test]
fn unique_names_skip_the_names_taken() {
    let existing = vec!["DTE-1-invoice.json".to_string(), "DTE-1-2-invoice.json".to_string()];
    assert_eq!(unique_name("DTE-1", "invoice.json", &Vec::new()), "DTE-1-invoice.json");
    assert_eq!(unique_name("DTE-1", "invoice.json", &existing), "DTE-1-3-invoice.json");
    assert_eq!(unique_name("DTE-1", "???", &Vec::new()), "DTE-1-attachment");
}

#[test]
fn unique_paths_are_joined_to_the_folder() {
    let existing = vec!["p-a.pdf".to_string()];
    assert_eq!(unique_path("dir", "p", "a.pdf", &existing), "dir/p-2-a.pdf");
    assert_eq!(unique_path("dir/", "p", "b.pdf", &existing), "dir/p-b.pdf");
}

#[test]
fn parse_errors_are_described() {
    assert_eq!(InvoiceParseError::InvalidJson("EOF".to_string()).message(), "invalid JSON: EOF");
    assert_eq!(InvoiceParseError::MissingObject.message(), "invoice JSON root must be an object");
}
