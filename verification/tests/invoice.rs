use automated_invoice_uploader::invoice::{
    document_type_name, first_non_empty, is_ccf, payment_condition, InvoiceParseError, InvoiceSummary,
};
use automated_invoice_uploader::json::JsonNumber;

fn invoice(control_number: &str, generation_code: &str, source_filename: &str) -> InvoiceSummary {
    InvoiceSummary {
        source_filename: source_filename.to_string(),
        document_type_code: "03".to_string(),
        document_type_name: String::new(),
        is_ccf: true,
        control_number: control_number.to_string(),
        generation_code: generation_code.to_string(),
        issue_date: String::new(),
        issue_time: String::new(),
        currency: String::new(),
        issuer_name: String::new(),
        issuer_nit: String::new(),
        issuer_nrc: String::new(),
        receiver_name: String::new(),
        receiver_nit: String::new(),
        receiver_nrc: String::new(),
        taxed_sales: String::new(),
        exempt_sales: String::new(),
        non_subject_sales: String::new(),
        subtotal_sales: String::new(),
        discount_total: String::new(),
        subtotal: String::new(),
        taxes: Vec::new(),
        income_tax_retention: String::new(),
        vat_retention: String::new(),
        vat_perception: String::new(),
        operation_total: String::new(),
        total_to_pay: String::new(),
        total_in_words: String::new(),
        payment_condition: String::new(),
        line_items: Vec::new(),
    }
}

#[test]
fn document_types_have_names() {
    assert_eq!(document_type_name("03"), "Comprobante de credito fiscal");
    assert_eq!(document_type_name("01"), "Factura consumidor final");
    assert_eq!(document_type_name("05"), "Nota de credito");
    assert_eq!(document_type_name("06"), "Nota de debito");
    assert_eq!(document_type_name("14"), "Factura sujeto excluido");
    assert_eq!(document_type_name("99"), "Documento tributario");
    assert!(is_ccf("03"));
    assert!(!is_ccf("01"));
}

#[test]
fn payment_conditions() {
    assert_eq!(payment_condition(Some(1)), "Contado");
    assert_eq!(payment_condition(Some(2)), "Credito");
    assert_eq!(payment_condition(Some(3)), "Otro");
    assert_eq!(payment_condition(Some(4)), "");
    assert_eq!(payment_condition(None), "");
}

#[test]
fn the_file_slug_takes_the_first_non_blank_name() {
    assert_eq!(invoice("DTE-03-1", "GEN", "f.json").file_slug(), "DTE-03-1");
    assert_eq!(invoice("  ", "GEN", "f.json").file_slug(), "GEN");
    assert_eq!(invoice("", "", "f.json").file_slug(), "f.json");
    assert_eq!(invoice("", " ", "\t").file_slug(), "invoice");
    assert_eq!(first_non_empty(&[" a ", "b"]), " a ");
    assert_eq!(first_non_empty(&[]), "invoice");
}

fn as_f64(number: &JsonNumber) -> f64 {
    number.text.parse().unwrap()
}

fn money(number: &JsonNumber) -> String {
    format!("${:.2}", as_f64(number))
}

fn quantity(number: &JsonNumber) -> String {
    let n = as_f64(number);
    if n.fract() == 0.0 {
        format!("{n:.0}")
    } else {
        format!("{n:.4}")
    }
}

#[test]
fn parses_ccf_summary_fields() {
    let json = br#"{
        "identificacion": {
            "tipoDte": "03",
            "numeroControl": "DTE-03-ABC12345-000000000000001",
            "codigoGeneracion": "AAAAAAAA-BBBB-CCCC-DDDD-EEEEEEEEEEEE",
            "fecEmi": "2026-05-01",
            "horEmi": "09:30:00",
            "tipoMoneda": "USD"
        },
        "emisor": {"nombre": "Vendor SA", "nit": "06142809101012", "nrc": "123456"},
        "receptor": {"nombre": "My Company", "nit": "06142809101013", "nrc": "654321"},
        "cuerpoDocumento": [
            {"descripcion": "Servicio", "cantidad": 1, "precioUni": 100, "ventaGravada": 100}
        ],
        "resumen": {
            "totalGravada": 100,
            "totalExenta": 0,
            "totalNoSuj": 0,
            "subTotalVentas": 100,
            "totalDescu": 0,
            "subTotal": 100,
            "tributos": [{"codigo": "20", "descripcion": "IVA", "valor": 13}],
            "montoTotalOperacion": 113,
            "totalPagar": 113,
            "totalLetras": "CIENTO TRECE 00/100",
            "condicionOperacion": 1
        }
    }"#;

    let summary = InvoiceSummary::from_json_bytes("invoice.json", json, money, quantity).unwrap();

    assert!(summary.is_ccf);
    assert_eq!(summary.document_type_code, "03");
    assert_eq!(summary.issuer_name, "Vendor SA");
    assert_eq!(summary.total_to_pay, "$113.00");
    assert_eq!(summary.taxes[0].value, "$13.00");
    assert_eq!(summary.payment_condition, "Contado");
}

#[test]
fn reads_defaults_for_missing_fields() {
    let json = br#"{"identificacion": {"tipoDte": " 01 ", "numeroControl": 5},
        "cuerpoDocumento": [{"cantidad": 2.5}, {}, {}, {}, {}, {}, {}],
        "resumen": {"totalPagar": 12.346, "condicionOperacion": 9, "tributos": "none"}}"#;

    let summary = InvoiceSummary::from_json_bytes("f.json", json, money, quantity).unwrap();

    assert!(!summary.is_ccf);
    assert_eq!(summary.document_type_code, "01");
    assert_eq!(summary.document_type_name, "Factura consumidor final");
    assert_eq!(summary.control_number, "");
    assert_eq!(summary.total_to_pay, "$12.35");
    assert_eq!(summary.taxed_sales, "$0.00");
    assert_eq!(summary.payment_condition, "");
    assert!(summary.taxes.is_empty());
    assert_eq!(summary.line_items.len(), 5);
    assert_eq!(summary.line_items[0].quantity, "2.5000");
    assert_eq!(summary.line_items[1].quantity, "");
    assert_eq!(summary.line_items[1].unit_price, "$0.00");
    assert_eq!(summary.source_filename, "f.json");
}

#[test]
fn rejects_what_is_not_an_invoice_object() {
    assert_eq!(
        InvoiceSummary::from_json_bytes("f.json", b"[1, 2]", money, quantity),
        Err(InvoiceParseError::MissingObject)
    );
    assert!(matches!(
        InvoiceSummary::from_json_bytes("f.json", b"{oops", money, quantity),
        Err(InvoiceParseError::InvalidJson(_))
    ));
}
