//! The text of the review page: the invoice under review laid out in lines,
//! and the summary of a finished review.
use vstd::prelude::*;

use crate::i18n::Messages;
use crate::invoice::{InvoiceLineItem, InvoiceSummary, TaxSummary};
use crate::invoice_files::SavedInvoiceFiles;
use crate::results_page::{display_or, display_or_spec, join_with};
use crate::text::{decimal, decimal_string, is_blank, blank, owned, strings_view};

verus! {

/// `label: value`.
pub open spec fn labeled(label: Seq<char>, value: Seq<char>) -> Seq<char> {
    label + ": "@ + value
}

/// `value`, or `-` when it is blank.
pub open spec fn or_dash(value: Seq<char>) -> Seq<char> {
    display_or_spec(value, "-"@)
}

fn labeled_text(label: &str, value: &str) -> (r: String)
    ensures
        r@ == labeled(label@, value@),
{
    let mut r = owned(label);
    r.append(": ");
    r.append(value);
    r
}

/// The texts joined with `sep` between them.
pub fn join_texts(items: &Vec<String>, sep: &str) -> (r: String)
    ensures
        r@ == join_with(strings_view(items@), sep@),
{
    let ghost all = strings_view(items@);
    let mut r = String::new();
    let mut i: usize = 0;
    proof {
        assert(all.take(0) =~= Seq::<Seq<char>>::empty());
    }
    while i < items.len()
        invariant
            i <= items.len(),
            all == strings_view(items@),
            r@ == join_with(all.take(i as int), sep@),
        decreases items.len() - i,
    {
        let ghost prefix = all.take(i + 1);
        proof {
            assert(prefix.drop_last() =~= all.take(i as int));
            assert(prefix.last() == items@[i as int]@);
        }
        if i > 0 {
            r.append(sep);
        } else {
            proof {
                assert(r@ =~= Seq::<char>::empty());
                assert(prefix.len() == 1);
            }
        }
        r.append(items[i].as_str());
        i = i + 1;
    }
    proof {
        assert(all.take(i as int) =~= all);
    }
    r
}

/// The document type: its name, and its code in brackets.
pub open spec fn document_type_spec(invoice: InvoiceSummary) -> Seq<char> {
    invoice.document_type_name@ + " ("@ + or_dash(invoice.document_type_code@) + ")"@
}

/// The line of the control number.
pub open spec fn control_line_spec(invoice: InvoiceSummary, text: Messages) -> Seq<char> {
    labeled(text.control_number_label@, or_dash(invoice.control_number@))
}

/// A party of the invoice: its name, NIT and NRC.
pub open spec fn party_spec(label: Seq<char>, name: Seq<char>, nit: Seq<char>, nrc: Seq<char>) -> Seq<char> {
    labeled(label, or_dash(name) + " | NIT "@ + or_dash(nit) + " | NRC "@ + or_dash(nrc))
}

fn party_line(label: &str, name: &str, nit: &str, nrc: &str) -> (r: String)
    ensures
        r@ == party_spec(label@, name@, nit@, nrc@),
{
    let mut value = owned(display_or(name, "-"));
    value.append(" | NIT ");
    value.append(display_or(nit, "-"));
    value.append(" | NRC ");
    value.append(display_or(nrc, "-"));
    labeled_text(label, value.as_str())
}

/// The identity of the invoice below its document type: control number,
/// generation code, issue date and time, issuer and receiver.
pub open spec fn identity_spec(invoice: InvoiceSummary, text: Messages) -> Seq<Seq<char>> {
    seq![
        control_line_spec(invoice, text),
        labeled(text.generation_code_label@, or_dash(invoice.generation_code@)),
        labeled(text.issue_date_label@, or_dash(invoice.issue_date@) + " "@ + display_or_spec(invoice.issue_time@, ""@)),
        party_spec(text.issuer_label@, invoice.issuer_name@, invoice.issuer_nit@, invoice.issuer_nrc@),
        party_spec(text.receiver_label@, invoice.receiver_name@, invoice.receiver_nit@, invoice.receiver_nrc@),
    ]
}

/// A tax: code, description and value.
pub open spec fn tax_spec(tax: TaxSummary) -> Seq<char> {
    display_or_spec(tax.code@, ""@) + " "@ + display_or_spec(tax.description@, ""@) + " "@ + tax.value@
}

/// The taxes of the invoice, separated by `, `, or `-` when it has none.
pub open spec fn taxes_spec(taxes: Seq<TaxSummary>) -> Seq<char> {
    if taxes.len() == 0 {
        "-"@
    } else {
        join_with(taxes.map_values(|t: TaxSummary| tax_spec(t)), ", "@)
    }
}

/// The totals of the invoice, each with its label.
pub open spec fn totals_spec(invoice: InvoiceSummary, text: Messages) -> Seq<Seq<char>> {
    seq![
        labeled(text.taxed_sales_label@, invoice.taxed_sales@),
        labeled(text.exempt_sales_label@, invoice.exempt_sales@),
        labeled(text.non_subject_sales_label@, invoice.non_subject_sales@),
        labeled(text.subtotal_label@, invoice.subtotal@),
        labeled(text.operation_total_label@, invoice.operation_total@),
        labeled(text.total_to_pay_label@, invoice.total_to_pay@),
        labeled(text.payment_condition_label@, invoice.payment_condition@),
        labeled(text.taxes_label@, taxes_spec(invoice.taxes@)),
    ]
}

/// A line item: quantity and description, unit price, taxed and exempt sale.
pub open spec fn item_spec(item: InvoiceLineItem, text: Messages) -> Seq<char> {
    or_dash(item.quantity@) + " x "@ + or_dash(item.description@) + " | "@ + text.unit_price_label@ + " "@
        + item.unit_price@ + " | "@ + text.taxed_short_label@ + " "@ + item.taxed_sale@ + " | "@
        + text.exempt_short_label@ + " "@ + item.exempt_sale@
}

/// The line items, one per line, or `-` when there are none.
pub open spec fn items_spec(items: Seq<InvoiceLineItem>, text: Messages) -> Seq<Seq<char>> {
    if items.len() == 0 {
        seq!["-"@]
    } else {
        items.map_values(|item: InvoiceLineItem| item_spec(item, text))
    }
}

/// The notes under the invoice: its total in words and the JSON file it
/// was read from, each when not blank.
pub open spec fn notes_spec(invoice: InvoiceSummary) -> Seq<Seq<char>> {
    let words = if is_blank(invoice.total_in_words@) { seq![] } else { seq![invoice.total_in_words@] };
    let source = if is_blank(invoice.source_filename@) { seq![] } else { seq!["JSON: "@ + invoice.source_filename@] };
    words + source
}

/// The lines of one saved invoice: its files, and where they went on Drive.
pub open spec fn saved_spec(files: SavedInvoiceFiles, text: Messages) -> Seq<Seq<char>> {
    let local = seq!["JSON: "@ + files.json_path@, "PDF:  "@ + files.pdf_path@];
    match files.drive_upload {
        Some(upload) => local + seq![
            labeled(text.drive_folder_label@, upload.folder_path@),
            labeled(text.drive_file_ids_label@, "JSON "@ + upload.json_file_id@ + " | PDF "@ + upload.pdf_file_id@),
        ],
        None => local,
    }
}

/// The lines of the saved invoices, one after the other.
pub open spec fn all_saved_spec(files: Seq<SavedInvoiceFiles>, text: Messages) -> Seq<Seq<char>>
    decreases files.len(),
{
    if files.len() == 0 {
        seq![]
    } else {
        all_saved_spec(files.drop_last(), text) + saved_spec(files.last(), text)
    }
}

/// The summary of a finished review: the counts, then the files of the first
/// five saved invoices.
pub open spec fn complete_spec(processed: nat, skipped: nat, files: Seq<SavedInvoiceFiles>, text: Messages) -> Seq<Seq<char>> {
    seq![
        labeled(text.processed_label@, decimal(processed)) + "    "@ + labeled(text.skipped_label@, decimal(skipped)),
        text.saved_files_label@ + ":"@,
    ] + all_saved_spec(if files.len() > 5 { files.take(5) } else { files }, text)
}

/// The review page.
pub struct ReviewPage;

impl ReviewPage {
    /// The document type of the invoice (see `document_type_spec`).
    pub fn document_type_text(&self, invoice: &InvoiceSummary) -> (r: String)
        ensures
            r@ == document_type_spec(*invoice),
    {
        let mut r = owned(invoice.document_type_name.as_str());
        r.append(" (");
        r.append(display_or(invoice.document_type_code.as_str(), "-"));
        r.append(")");
        r
    }

    /// The line of the control number (see `control_line_spec`).
    pub fn control_line(&self, invoice: &InvoiceSummary, text: &Messages) -> (r: String)
        ensures
            r@ == control_line_spec(*invoice, *text),
    {
        labeled_text(text.control_number_label, display_or(invoice.control_number.as_str(), "-"))
    }

    /// The identity lines of the invoice (see `identity_spec`).
    pub fn identity_lines(&self, invoice: &InvoiceSummary, text: &Messages) -> (r: Vec<String>)
        ensures
            strings_view(r@) == identity_spec(*invoice, *text),
    {
        let mut issue = owned(display_or(invoice.issue_date.as_str(), "-"));
        issue.append(" ");
        issue.append(display_or(invoice.issue_time.as_str(), ""));
        let mut r = Vec::new();
        r.push(self.control_line(invoice, text));
        r.push(labeled_text(text.generation_code_label, display_or(invoice.generation_code.as_str(), "-")));
        r.push(labeled_text(text.issue_date_label, issue.as_str()));
        r.push(party_line(text.issuer_label, invoice.issuer_name.as_str(), invoice.issuer_nit.as_str(), invoice.issuer_nrc.as_str()));
        r.push(party_line(
            text.receiver_label,
            invoice.receiver_name.as_str(),
            invoice.receiver_nit.as_str(),
            invoice.receiver_nrc.as_str(),
        ));
        proof {
            assert(strings_view(r@) =~= identity_spec(*invoice, *text));
        }
        r
    }

    /// The taxes of the invoice (see `taxes_spec`).
    pub fn tax_text(&self, invoice: &InvoiceSummary) -> (r: String)
        ensures
            r@ == taxes_spec(invoice.taxes@),
    {
        if invoice.taxes.len() == 0 {
            return owned("-");
        }
        let mut parts: Vec<String> = Vec::new();
        let mut i: usize = 0;
        while i < invoice.taxes.len()
            invariant
                i <= invoice.taxes.len(),
                strings_view(parts@) == invoice.taxes@.take(i as int).map_values(|t: TaxSummary| tax_spec(t)),
            decreases invoice.taxes.len() - i,
        {
            let tax = &invoice.taxes[i];
            let mut part = owned(display_or(tax.code.as_str(), ""));
            part.append(" ");
            part.append(display_or(tax.description.as_str(), ""));
            part.append(" ");
            part.append(tax.value.as_str());
            let ghost before = strings_view(parts@);
            parts.push(part);
            proof {
                assert(strings_view(parts@) =~= before.push(tax_spec(invoice.taxes@[i as int])));
                assert(invoice.taxes@.take(i + 1).map_values(|t: TaxSummary| tax_spec(t)) =~= invoice.taxes@.take(
                    i as int,
                ).map_values(|t: TaxSummary| tax_spec(t)).push(tax_spec(invoice.taxes@[i as int])));
            }
            i = i + 1;
        }
        proof {
            assert(invoice.taxes@.take(i as int) =~= invoice.taxes@);
        }
        join_texts(&parts, ", ")
    }

    /// The totals lines of the invoice (see `totals_spec`).
    pub fn totals_lines(&self, invoice: &InvoiceSummary, text: &Messages) -> (r: Vec<String>)
        ensures
            strings_view(r@) == totals_spec(*invoice, *text),
    {
        let taxes = self.tax_text(invoice);
        let mut r = Vec::new();
        r.push(labeled_text(text.taxed_sales_label, invoice.taxed_sales.as_str()));
        r.push(labeled_text(text.exempt_sales_label, invoice.exempt_sales.as_str()));
        r.push(labeled_text(text.non_subject_sales_label, invoice.non_subject_sales.as_str()));
        r.push(labeled_text(text.subtotal_label, invoice.subtotal.as_str()));
        r.push(labeled_text(text.operation_total_label, invoice.operation_total.as_str()));
        r.push(labeled_text(text.total_to_pay_label, invoice.total_to_pay.as_str()));
        r.push(labeled_text(text.payment_condition_label, invoice.payment_condition.as_str()));
        r.push(labeled_text(text.taxes_label, taxes.as_str()));
        proof {
            assert(strings_view(r@) =~= totals_spec(*invoice, *text));
        }
        r
    }

    /// The line items of the invoice (see `items_spec`).
    pub fn item_lines(&self, invoice: &InvoiceSummary, text: &Messages) -> (r: Vec<String>)
        ensures
            strings_view(r@) == items_spec(invoice.line_items@, *text),
    {
        let mut r: Vec<String> = Vec::new();
        if invoice.line_items.len() == 0 {
            r.push(owned("-"));
            proof {
                reveal_strlit("-");
                assert(strings_view(r@) =~= seq!["-"@]);
            }
            return r;
        }
        let mut i: usize = 0;
        while i < invoice.line_items.len()
            invariant
                i <= invoice.line_items.len(),
                strings_view(r@) == invoice.line_items@.take(i as int).map_values(|item: InvoiceLineItem| item_spec(item, *text)),
            decreases invoice.line_items.len() - i,
        {
            let item = &invoice.line_items[i];
            let mut line = owned(display_or(item.quantity.as_str(), "-"));
            line.append(" x ");
            line.append(display_or(item.description.as_str(), "-"));
            line.append(" | ");
            line.append(text.unit_price_label);
            line.append(" ");
            line.append(item.unit_price.as_str());
            line.append(" | ");
            line.append(text.taxed_short_label);
            line.append(" ");
            line.append(item.taxed_sale.as_str());
            line.append(" | ");
            line.append(text.exempt_short_label);
            line.append(" ");
            line.append(item.exempt_sale.as_str());
            let ghost before = strings_view(r@);
            r.push(line);
            proof {
                assert(strings_view(r@) =~= before.push(item_spec(invoice.line_items@[i as int], *text)));
                assert(invoice.line_items@.take(i + 1).map_values(|item: InvoiceLineItem| item_spec(item, *text))
                    =~= invoice.line_items@.take(i as int).map_values(|item: InvoiceLineItem| item_spec(item, *text)).push(
                    item_spec(invoice.line_items@[i as int], *text),
                ));
            }
            i = i + 1;
        }
        proof {
            assert(invoice.line_items@.take(i as int) =~= invoice.line_items@);
        }
        r
    }

    /// The warning shown for an invoice that is not a credito fiscal.
    pub fn ccf_warning(&self, invoice: &InvoiceSummary, text: &Messages) -> (w: Option<&'static str>)
        ensures
            invoice.is_ccf ==> w is None,
            !invoice.is_ccf ==> w == Some(text.ccf_warning),
    {
        if invoice.is_ccf {
            None
        } else {
            Some(text.ccf_warning)
        }
    }

    /// The notes under the invoice (see `notes_spec`).
    pub fn note_lines(&self, invoice: &InvoiceSummary) -> (r: Vec<String>)
        ensures
            strings_view(r@) == notes_spec(*invoice),
    {
        let mut r: Vec<String> = Vec::new();
        if !blank(invoice.total_in_words.as_str()) {
            r.push(invoice.total_in_words.clone());
        }
        if !blank(invoice.source_filename.as_str()) {
            let mut line = owned("JSON: ");
            line.append(invoice.source_filename.as_str());
            r.push(line);
        }
        proof {
            assert(strings_view(r@) =~= notes_spec(*invoice));
        }
        r
    }

    /// The summary of a finished review (see `complete_spec`).
    pub fn complete_lines(&self, processed: usize, skipped: usize, saved_files: &[SavedInvoiceFiles], text: &Messages) -> (r: Vec<String>)
        ensures
            strings_view(r@) == complete_spec(processed as nat, skipped as nat, saved_files@, *text),
    {
        let mut counts = labeled_text(text.processed_label, decimal_string(processed as u64).as_str());
        counts.append("    ");
        let skipped_text = labeled_text(text.skipped_label, decimal_string(skipped as u64).as_str());
        counts.append(skipped_text.as_str());
        let mut heading = owned(text.saved_files_label);
        heading.append(":");
        let mut r: Vec<String> = Vec::new();
        r.push(counts);
        r.push(heading);
        let n = if saved_files.len() > 5 { 5 } else { saved_files.len() };
        let ghost shown = if saved_files@.len() > 5 { saved_files@.take(5) } else { saved_files@ };
        let ghost head = strings_view(r@);
        proof {
            assert(shown.take(0) =~= Seq::<SavedInvoiceFiles>::empty());
            assert(head + all_saved_spec(shown.take(0), *text) =~= head);
        }
        let mut i: usize = 0;
        while i < n
            invariant
                i <= n <= saved_files.len(),
                n == shown.len(),
                forall|k: int| 0 <= k < n ==> shown[k] == saved_files@[k],
                strings_view(r@) == head + all_saved_spec(shown.take(i as int), *text),
            decreases n - i,
        {
            let files = &saved_files[i];
            let ghost before = strings_view(r@);
            let mut json = owned("JSON: ");
            json.append(files.json_path.as_str());
            r.push(json);
            let mut pdf = owned("PDF:  ");
            pdf.append(files.pdf_path.as_str());
            r.push(pdf);
            match &files.drive_upload {
                Some(upload) => {
                    r.push(labeled_text(text.drive_folder_label, upload.folder_path.as_str()));
                    let mut ids = owned("JSON ");
                    ids.append(upload.json_file_id.as_str());
                    ids.append(" | PDF ");
                    ids.append(upload.pdf_file_id.as_str());
                    r.push(labeled_text(text.drive_file_ids_label, ids.as_str()));
                },
                None => {},
            }
            proof {
                assert(shown.take(i + 1).drop_last() =~= shown.take(i as int));
                assert(shown.take(i + 1).last() == *files);
                assert(strings_view(r@) =~= before + saved_spec(*files, *text));
                assert(head + all_saved_spec(shown.take(i + 1), *text) =~= head + all_saved_spec(shown.take(i as int), *text)
                    + saved_spec(*files, *text));
            }
            i = i + 1;
        }
        proof {
            assert(shown.take(i as int) =~= shown);
        }
        r
    }
}

/// Each party line shows that party's own name, NIT and NRC, in that order,
/// each after its own tag (a dash for a blank value): the issuer's on the
/// issuer line, the receiver's on the receiver line.
pub proof fn law_party_lines_show_their_own_numbers(invoice: InvoiceSummary, text: Messages)
    ensures
        identity_spec(invoice, text).len() == 5,
        identity_spec(invoice, text)[3] == text.issuer_label@ + ": "@ + display_or_spec(invoice.issuer_name@, "-"@)
            + " | NIT "@ + display_or_spec(invoice.issuer_nit@, "-"@) + " | NRC "@ + display_or_spec(invoice.issuer_nrc@, "-"@),
        identity_spec(invoice, text)[4] == text.receiver_label@ + ": "@ + display_or_spec(invoice.receiver_name@, "-"@)
            + " | NIT "@ + display_or_spec(invoice.receiver_nit@, "-"@) + " | NRC "@ + display_or_spec(invoice.receiver_nrc@, "-"@),
        !is_blank(invoice.receiver_nit@) && !is_blank(invoice.receiver_nrc@) ==> identity_spec(invoice, text)[4].subrange(
            identity_spec(invoice, text)[4].len() - (" | NIT "@ + invoice.receiver_nit@ + " | NRC "@ + invoice.receiver_nrc@).len(),
            identity_spec(invoice, text)[4].len() as int,
        ) == " | NIT "@ + invoice.receiver_nit@ + " | NRC "@ + invoice.receiver_nrc@,
{
    let line = identity_spec(invoice, text)[4];
    let tail = " | NIT "@ + invoice.receiver_nit@ + " | NRC "@ + invoice.receiver_nrc@;
    if !is_blank(invoice.receiver_nit@) && !is_blank(invoice.receiver_nrc@) {
        let head = text.receiver_label@ + ": "@ + display_or_spec(invoice.receiver_name@, "-"@);
        assert(line =~= head + tail);
        assert(line.subrange(line.len() - tail.len(), line.len() as int) =~= tail);
    }
}

} // verus!
