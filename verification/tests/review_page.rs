use automated_invoice_uploader::drive_upload::UploadedInvoiceFiles;
use automated_invoice_uploader::i18n::{messages_for, Language};
use automated_invoice_uploader::invoice::{InvoiceLineItem, InvoiceSummary, TaxSummary};
use automated_invoice_uploader::invoice_files::SavedInvoiceFiles;
use automated_invoice_uploader::review_page::{join_texts, ReviewPage};

fn invoice() -> InvoiceSummary {
    InvoiceSummary {
        source_filename: "invoice.json".to_string(),
        document_type_code: "03".to_string(),
        document_type_name: "Comprobante de credito fiscal".to_string(),
        is_ccf: true,
        control_number: "DTE-03-1".to_string(),
        generation_code: " ".to_string(),
        issue_date: "2026-05-01".to_string(),
        issue_time: "09:30:00".to_string(),
        currency: "USD".to_string(),
        issuer_name: "Vendor SA".to_string(),
        issuer_nit: "0614".to_string(),
        issuer_nrc: "".to_string(),
        receiver_name: "My Company".to_string(),
        receiver_nit: "0615".to_string(),
        receiver_nrc: "654321".to_string(),
        taxed_sales: "$100.00".to_string(),
        exempt_sales: "$0.00".to_string(),
        non_subject_sales: "$0.00".to_string(),
        subtotal_sales: "$100.00".to_string(),
        discount_total: "$0.00".to_string(),
        subtotal: "$100.00".to_string(),
        taxes: vec![TaxSummary { code: "20".to_string(), description: "IVA".to_string(), value: "$13.00".to_string() }],
        income_tax_retention: "$0.00".to_string(),
        vat_retention: "$0.00".to_string(),
        vat_perception: "$0.00".to_string(),
        operation_total: "$113.00".to_string(),
        total_to_pay: "$113.00".to_string(),
        total_in_words: "CIENTO TRECE 00/100".to_string(),
        payment_condition: "Contado".to_string(),
        line_items: vec![InvoiceLineItem {
            description: "Servicio".to_string(),
            quantity: "1".to_string(),
            unit_price: "$100.00".to_string(),
            taxed_sale: "$100.00".to_string(),
            exempt_sale: "$0.00".to_string(),
            non_subject_sale: "$0.00".to_string(),
        }],
    }
}

#[test]
fn the_identity_of_the_invoice() {
    let text = messages_for(Language::English);
    let invoice = invoice();
    assert_eq!(ReviewPage.document_type_text(&invoice), "Comprobante de credito fiscal (03)");
    let lines = ReviewPage.identity_lines(&invoice, &text);
    assert_eq!(lines.len(), 5);
    assert_eq!(lines[0], format!("{}: DTE-03-1", text.control_number_label));
    assert_eq!(lines[1], format!("{}: -", text.generation_code_label));
    assert_eq!(lines[2], format!("{}: 2026-05-01 09:30:00", text.issue_date_label));
    assert_eq!(lines[3], format!("{}: Vendor SA | NIT 0614 | NRC -", text.issuer_label));
    assert_eq!(ReviewPage.control_line(&invoice, &text), lines[0]);
}

#[test]
fn the_totals_of_the_invoice() {
    let text = messages_for(Language::Spanish);
    let mut invoice = invoice();
    let lines = ReviewPage.totals_lines(&invoice, &text);
    assert_eq!(lines.len(), 8);
    assert_eq!(lines[5], format!("{}: $113.00", text.total_to_pay_label));
    assert_eq!(lines[7], format!("{}: 20 IVA $13.00", text.taxes_label));
    invoice.taxes.push(TaxSummary { code: " ".to_string(), description: "Otro".to_string(), value: "$1.00".to_string() });
    assert_eq!(ReviewPage.tax_text(&invoice), "20 IVA $13.00,  Otro $1.00");
    invoice.taxes.clear();
    assert_eq!(ReviewPage.tax_text(&invoice), "-");
}

#[test]
fn the_line_items_and_notes() {
    let text = messages_for(Language::English);
    let mut invoice = invoice();
    assert_eq!(
        ReviewPage.item_lines(&invoice, &text),
        vec![format!(
            "1 x Servicio | {} $100.00 | {} $100.00 | {} $0.00",
            text.unit_price_label, text.taxed_short_label, text.exempt_short_label
        )]
    );
    assert_eq!(ReviewPage.note_lines(&invoice), vec!["CIENTO TRECE 00/100".to_string(), "JSON: invoice.json".to_string()]);
    assert_eq!(ReviewPage.ccf_warning(&invoice, &text), None);
    invoice.line_items.clear();
    invoice.is_ccf = false;
    invoice.total_in_words = "  ".to_string();
    assert_eq!(ReviewPage.item_lines(&invoice, &text), vec!["-".to_string()]);
    assert_eq!(ReviewPage.note_lines(&invoice), vec!["JSON: invoice.json".to_string()]);
    assert_eq!(ReviewPage.ccf_warning(&invoice, &text), Some(text.ccf_warning));
}

#[test]
fn the_summary_of_a_finished_review() {
    let text = messages_for(Language::English);
    let uploaded = SavedInvoiceFiles {
        json_path: "d/a.json".to_string(),
        pdf_path: "d/a.pdf".to_string(),
        drive_upload: Some(UploadedInvoiceFiles {
            folder_path: "Root/2026/Mayo/Compras".to_string(),
            folder_id: "f".to_string(),
            json_file_id: "j".to_string(),
            pdf_file_id: "p".to_string(),
        }),
    };
    let local = SavedInvoiceFiles { json_path: "d/b.json".to_string(), pdf_path: "d/b.pdf".to_string(), drive_upload: None };
    let lines = ReviewPage.complete_lines(2, 1, &[uploaded, local.clone()], &text);
    assert_eq!(lines[0], format!("{}: 2    {}: 1", text.processed_label, text.skipped_label));
    assert_eq!(lines[1], format!("{}:", text.saved_files_label));
    assert_eq!(lines[2], "JSON: d/a.json");
    assert_eq!(lines[3], "PDF:  d/a.pdf");
    assert_eq!(lines[4], format!("{}: Root/2026/Mayo/Compras", text.drive_folder_label));
    assert_eq!(lines[5], format!("{}: JSON j | PDF p", text.drive_file_ids_label));
    assert_eq!(lines[6], "JSON: d/b.json");
    assert_eq!(lines.len(), 8);
    let many = vec![local; 7];
    assert_eq!(ReviewPage.complete_lines(7, 0, &many, &text).len(), 2 + 5 * 2);
}

#[test]
fn joining_texts() {
    assert_eq!(join_texts(&vec![], ", "), "");
    assert_eq!(join_texts(&vec!["a".to_string()], ", "), "a");
    assert_eq!(join_texts(&vec!["a".to_string(), "b".to_string()], " | "), "a | b");
}
