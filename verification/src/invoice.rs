//! The summary of an electronic tax document (DTE) that the review shows.
use vstd::prelude::*;

use crate::json::{json_parse, json_parse_bytes, member, member_spec, parse_json, parse_json_bytes, JsonNode, JsonNumber};
use crate::text::{blank, is_blank, owned, same_text, trim, trim_str};

verus! {

/// The fields of a DTE that the review shows.
#[derive(Clone, Debug, PartialEq)]
pub struct InvoiceSummary {
    pub source_filename: String,
    pub document_type_code: String,
    pub document_type_name: String,
    pub is_ccf: bool,
    pub control_number: String,
    pub generation_code: String,
    pub issue_date: String,
    pub issue_time: String,
    pub currency: String,
    pub issuer_name: String,
    pub issuer_nit: String,
    pub issuer_nrc: String,
    pub receiver_name: String,
    pub receiver_nit: String,
    pub receiver_nrc: String,
    pub taxed_sales: String,
    pub exempt_sales: String,
    pub non_subject_sales: String,
    pub subtotal_sales: String,
    pub discount_total: String,
    pub subtotal: String,
    pub taxes: Vec<TaxSummary>,
    pub income_tax_retention: String,
    pub vat_retention: String,
    pub vat_perception: String,
    pub operation_total: String,
    pub total_to_pay: String,
    pub total_in_words: String,
    pub payment_condition: String,
    pub line_items: Vec<InvoiceLineItem>,
}

/// A tax of the document summary.
#[derive(Clone, Debug, PartialEq)]
pub struct TaxSummary {
    pub code: String,
    pub description: String,
    pub value: String,
}

/// A line of the document body.
#[derive(Clone, Debug, PartialEq)]
pub struct InvoiceLineItem {
    pub description: String,
    pub quantity: String,
    pub unit_price: String,
    pub taxed_sale: String,
    pub exempt_sale: String,
    pub non_subject_sale: String,
}

/// Why a DTE could not be read.
#[derive(Clone, Debug, PartialEq, Eq)]
pub enum InvoiceParseError {
    /// The bytes are not JSON; the message says why.
    InvalidJson(String),
    /// The document is not a JSON object.
    MissingObject,
}

impl InvoiceParseError {
    /// The English description of the error.
    pub fn message(&self) -> (m: String)
        ensures
            m@ == match self {
                InvoiceParseError::InvalidJson(e) => "invalid JSON: "@ + e@,
                InvoiceParseError::MissingObject => "invoice JSON root must be an object"@,
            },
    {
        match self {
            InvoiceParseError::InvalidJson(e) => {
                let mut m = owned("invalid JSON: ");
                m.append(e.as_str());
                m
            },
            InvoiceParseError::MissingObject => owned("invoice JSON root must be an object"),
        }
    }
}

/// The first value that is not blank, or `invoice`.
pub open spec fn first_non_blank(values: Seq<Seq<char>>) -> Seq<char>
    decreases values.len(),
{
    if values.len() == 0 {
        "invoice"@
    } else if !is_blank(values[0]) {
        values[0]
    } else {
        first_non_blank(values.drop_first())
    }
}

/// The first of `values` that is not blank, or `invoice`.
pub fn first_non_empty<'a>(values: &[&'a str]) -> (r: &'a str)
    ensures
        r@ == first_non_blank(values@.map_values(|v: &str| v@)),
{
    let ghost all = values@.map_values(|v: &str| v@);
    let mut i: usize = 0;
    proof {
        assert(all.skip(0) =~= all);
    }
    while i < values.len()
        invariant
            i <= values.len(),
            all == values@.map_values(|v: &str| v@),
            first_non_blank(all) == first_non_blank(all.skip(i as int)),
        decreases values.len() - i,
    {
        proof {
            assert(all.skip(i as int).drop_first() =~= all.skip(i + 1));
            assert(all.skip(i as int)[0] == values@[i as int]@);
        }
        if !blank(values[i]) {
            return values[i];
        }
        i = i + 1;
    }
    proof {
        assert(all.skip(i as int) =~= Seq::<Seq<char>>::empty());
    }
    "invoice"
}

/// The name of the document type with the given code.
pub open spec fn document_type_name_spec(code: Seq<char>) -> Seq<char> {
    if code == "03"@ {
        "Comprobante de credito fiscal"@
    } else if code == "01"@ {
        "Factura consumidor final"@
    } else if code == "05"@ {
        "Nota de credito"@
    } else if code == "06"@ {
        "Nota de debito"@
    } else if code == "14"@ {
        "Factura sujeto excluido"@
    } else {
        "Documento tributario"@
    }
}

/// The name of the DTE type `code`.
pub fn document_type_name(code: &str) -> (name: &'static str)
    ensures
        name@ == document_type_name_spec(code@),
{
    if same_text(code, "03") {
        "Comprobante de credito fiscal"
    } else if same_text(code, "01") {
        "Factura consumidor final"
    } else if same_text(code, "05") {
        "Nota de credito"
    } else if same_text(code, "06") {
        "Nota de debito"
    } else if same_text(code, "14") {
        "Factura sujeto excluido"
    } else {
        "Documento tributario"
    }
}

/// The payment condition with the given code: 1 cash, 2 credit, 3 other.
pub open spec fn payment_condition_spec(value: Option<i64>) -> Seq<char> {
    match value {
        Some(1) => "Contado"@,
        Some(2) => "Credito"@,
        Some(3) => "Otro"@,
        _ => ""@,
    }
}

/// The name of a payment condition.
pub fn payment_condition(value: Option<i64>) -> (name: &'static str)
    ensures
        name@ == payment_condition_spec(value),
{
    match value {
        Some(1) => "Contado",
        Some(2) => "Credito",
        Some(3) => "Otro",
        _ => "",
    }
}

impl InvoiceSummary {
    /// The name the saved files of this document start with: the control
    /// number, else the generation code, else the source file name, else
    /// `invoice`.
    pub fn file_slug(&self) -> (slug: String)
        ensures
            slug@ == first_non_blank(seq![self.control_number@, self.generation_code@, self.source_filename@]),
    {
        let values: [&str; 3] = [
            self.control_number.as_str(),
            self.generation_code.as_str(),
            self.source_filename.as_str(),
        ];
        let slug = first_non_empty(&values);
        proof {
            assert(values@.map_values(|v: &str| v@) =~= seq![self.control_number@, self.generation_code@, self.source_filename@]);
        }
        owned(slug)
    }
}

/// A document summary is a credito fiscal exactly when its type code is `03`.
pub open spec fn is_ccf_code(code: Seq<char>) -> bool {
    code == "03"@
}

/// Whether the code is that of a credito fiscal.
pub fn is_ccf(code: &str) -> (b: bool)
    ensures
        b == is_ccf_code(code@),
{
    same_text(code, "03")
}

// ---------------------------------------------------------------------------
// Reading a DTE from its JSON file
// ---------------------------------------------------------------------------

/// The member `key` of an object node, read as JSON in turn.
pub open spec fn field_spec(node: JsonNode, key: Seq<char>) -> Option<JsonNode> {
    match node {
        JsonNode::Object(fields) => match member_spec(fields@, key) {
            Some(text) => match json_parse(text@) {
                Ok(n) => Some(n),
                Err(_) => None,
            },
            None => None,
        },
        _ => None,
    }
}

/// The member `second` of the member `first` of a node.
pub open spec fn field2_spec(node: JsonNode, first: Seq<char>, second: Seq<char>) -> Option<JsonNode> {
    match field_spec(node, first) {
        Some(n) => field_spec(n, second),
        None => None,
    }
}

/// A string node, trimmed; empty for anything else.
pub open spec fn text_spec(node: Option<JsonNode>) -> Seq<char> {
    match node {
        Some(JsonNode::Str(s)) => trim(s@),
        _ => Seq::empty(),
    }
}

/// A number node that is a signed 64-bit integer.
pub open spec fn integer_spec(node: Option<JsonNode>) -> Option<i64> {
    match node {
        Some(JsonNode::Number(n)) => n.as_i64,
        _ => None,
    }
}

/// A number node.
pub open spec fn number_spec(node: Option<JsonNode>) -> Option<JsonNumber> {
    match node {
        Some(JsonNode::Number(n)) => Some(n),
        _ => None,
    }
}

/// `s` is what `write` gives for the number, or `fallback` when there is
/// none.
pub open spec fn written<F: Fn(&JsonNumber) -> String>(write: F, n: Option<JsonNumber>, fallback: Seq<char>, s: String) -> bool {
    match n {
        Some(n) => call_ensures(write, (&n,), s),
        None => s@ == fallback,
    }
}

/// A node of an array element: the element read as JSON, or null when it
/// cannot be read.
pub open spec fn element_spec(text: String) -> JsonNode {
    match json_parse(text@) {
        Ok(n) => n,
        Err(_) => JsonNode::Null,
    }
}

/// The elements of an array node; none for anything else.
pub open spec fn elements_spec(node: Option<JsonNode>) -> Seq<String> {
    match node {
        Some(JsonNode::Array(items)) => items@,
        _ => Seq::empty(),
    }
}

/// A tax read from its node, the amount written with `money`.
pub open spec fn tax_read<M: Fn(&JsonNumber) -> String>(node: JsonNode, money: M, tax: TaxSummary) -> bool {
    &&& tax.code@ == text_spec(field_spec(node, "codigo"@))
    &&& tax.description@ == text_spec(field_spec(node, "descripcion"@))
    &&& written(money, number_spec(field_spec(node, "valor"@)), "$0.00"@, tax.value)
}

/// A line item read from its node, the amounts written with `money` and the
/// quantity with `quantity`.
pub open spec fn item_read<M: Fn(&JsonNumber) -> String, Q: Fn(&JsonNumber) -> String>(
    node: JsonNode,
    money: M,
    quantity: Q,
    item: InvoiceLineItem,
) -> bool {
    &&& item.description@ == text_spec(field_spec(node, "descripcion"@))
    &&& written(quantity, number_spec(field_spec(node, "cantidad"@)), ""@, item.quantity)
    &&& written(money, number_spec(field_spec(node, "precioUni"@)), "$0.00"@, item.unit_price)
    &&& written(money, number_spec(field_spec(node, "ventaGravada"@)), "$0.00"@, item.taxed_sale)
    &&& written(money, number_spec(field_spec(node, "ventaExenta"@)), "$0.00"@, item.exempt_sale)
    &&& written(money, number_spec(field_spec(node, "ventaNoSuj"@)), "$0.00"@, item.non_subject_sale)
}

/// The summary of the DTE `root` read from the file `filename`: the texts of
/// its identification, issuer and receiver; its totals written with
/// `money`; its taxes; its first five line items; its payment condition.
pub open spec fn invoice_read<M: Fn(&JsonNumber) -> String, Q: Fn(&JsonNumber) -> String>(
    filename: Seq<char>,
    root: JsonNode,
    money: M,
    quantity: Q,
    inv: InvoiceSummary,
) -> bool {
    let code = text_spec(field2_spec(root, "identificacion"@, "tipoDte"@));
    let taxes = elements_spec(field2_spec(root, "resumen"@, "tributos"@));
    let items = elements_spec(field_spec(root, "cuerpoDocumento"@));
    let shown = if items.len() > 5 { items.take(5) } else { items };
    &&& inv.source_filename@ == filename
    &&& inv.document_type_code@ == code
    &&& inv.document_type_name@ == document_type_name_spec(code)
    &&& inv.is_ccf == is_ccf_code(code)
    &&& inv.control_number@ == text_spec(field2_spec(root, "identificacion"@, "numeroControl"@))
    &&& inv.generation_code@ == text_spec(field2_spec(root, "identificacion"@, "codigoGeneracion"@))
    &&& inv.issue_date@ == text_spec(field2_spec(root, "identificacion"@, "fecEmi"@))
    &&& inv.issue_time@ == text_spec(field2_spec(root, "identificacion"@, "horEmi"@))
    &&& inv.currency@ == text_spec(field2_spec(root, "identificacion"@, "tipoMoneda"@))
    &&& inv.issuer_name@ == text_spec(field2_spec(root, "emisor"@, "nombre"@))
    &&& inv.issuer_nit@ == text_spec(field2_spec(root, "emisor"@, "nit"@))
    &&& inv.issuer_nrc@ == text_spec(field2_spec(root, "emisor"@, "nrc"@))
    &&& inv.receiver_name@ == text_spec(field2_spec(root, "receptor"@, "nombre"@))
    &&& inv.receiver_nit@ == text_spec(field2_spec(root, "receptor"@, "nit"@))
    &&& inv.receiver_nrc@ == text_spec(field2_spec(root, "receptor"@, "nrc"@))
    &&& written(money, number_spec(field2_spec(root, "resumen"@, "totalGravada"@)), "$0.00"@, inv.taxed_sales)
    &&& written(money, number_spec(field2_spec(root, "resumen"@, "totalExenta"@)), "$0.00"@, inv.exempt_sales)
    &&& written(money, number_spec(field2_spec(root, "resumen"@, "totalNoSuj"@)), "$0.00"@, inv.non_subject_sales)
    &&& written(money, number_spec(field2_spec(root, "resumen"@, "subTotalVentas"@)), "$0.00"@, inv.subtotal_sales)
    &&& written(money, number_spec(field2_spec(root, "resumen"@, "totalDescu"@)), "$0.00"@, inv.discount_total)
    &&& written(money, number_spec(field2_spec(root, "resumen"@, "subTotal"@)), "$0.00"@, inv.subtotal)
    &&& written(money, number_spec(field2_spec(root, "resumen"@, "reteRenta"@)), "$0.00"@, inv.income_tax_retention)
    &&& written(money, number_spec(field2_spec(root, "resumen"@, "ivaRete1"@)), "$0.00"@, inv.vat_retention)
    &&& written(money, number_spec(field2_spec(root, "resumen"@, "ivaPerci1"@)), "$0.00"@, inv.vat_perception)
    &&& written(money, number_spec(field2_spec(root, "resumen"@, "montoTotalOperacion"@)), "$0.00"@, inv.operation_total)
    &&& written(money, number_spec(field2_spec(root, "resumen"@, "totalPagar"@)), "$0.00"@, inv.total_to_pay)
    &&& inv.total_in_words@ == text_spec(field2_spec(root, "resumen"@, "totalLetras"@))
    &&& inv.payment_condition@ == payment_condition_spec(integer_spec(field2_spec(root, "resumen"@, "condicionOperacion"@)))
    &&& inv.taxes@.len() == taxes.len()
    &&& forall|i: int| 0 <= i < taxes.len() ==> tax_read(element_spec(#[trigger] taxes[i]), money, inv.taxes@[i])
    &&& inv.line_items@.len() == shown.len()
    &&& forall|i: int| 0 <= i < shown.len() ==> item_read(element_spec(#[trigger] shown[i]), money, quantity, inv.line_items@[i])
}

/// The member `key` of an object node (see `field_spec`).
fn field(node: &JsonNode, key: &str) -> (r: Option<JsonNode>)
    ensures
        r == field_spec(*node, key@),
{
    match node {
        JsonNode::Object(fields) => match member(fields, key) {
            Some(text) => match parse_json(text.as_str()) {
                Ok(n) => Some(n),
                Err(_) => None,
            },
            None => None,
        },
        _ => None,
    }
}

/// The member `second` of the member `first` of a node.
fn field2(node: &JsonNode, first: &str, second: &str) -> (r: Option<JsonNode>)
    ensures
        r == field2_spec(*node, first@, second@),
{
    match field(node, first) {
        Some(n) => field(&n, second),
        None => None,
    }
}

/// A string node, trimmed (see `text_spec`).
fn text_of(node: Option<JsonNode>) -> (r: String)
    ensures
        r@ == text_spec(node),
{
    match node {
        Some(JsonNode::Str(s)) => trim_str(s.as_str()),
        _ => String::new(),
    }
}

/// A number node written with `write`, or `fallback`.
fn written_of<F: Fn(&JsonNumber) -> String>(node: Option<JsonNode>, write: &F, fallback: &str) -> (r: String)
    requires
        forall|n: JsonNumber| call_requires(*write, (&n,)),
    ensures
        written(*write, number_spec(node), fallback@, r),
{
    match node {
        Some(JsonNode::Number(n)) => write(&n),
        _ => owned(fallback),
    }
}

/// The node of an array element (see `element_spec`).
fn element(text: &String) -> (r: JsonNode)
    ensures
        r == element_spec(*text),
{
    match parse_json(text.as_str()) {
        Ok(n) => n,
        Err(_) => JsonNode::Null,
    }
}

/// The elements of an array node (see `elements_spec`).
fn elements_of(node: Option<JsonNode>) -> (r: Vec<String>)
    ensures
        r@ == elements_spec(node),
{
    match node {
        Some(JsonNode::Array(items)) => items,
        _ => Vec::new(),
    }
}

impl InvoiceSummary {
    /// Reads the summary of the DTE in `bytes`, the JSON file `filename`:
    /// amounts are written with `money`, quantities with `quantity`.
    pub fn from_json_bytes<M: Fn(&JsonNumber) -> String, Q: Fn(&JsonNumber) -> String>(
        filename: &str,
        bytes: &[u8],
        money: M,
        quantity: Q,
    ) -> (r: Result<InvoiceSummary, InvoiceParseError>)
        requires
            forall|n: JsonNumber| call_requires(money, (&n,)),
            forall|n: JsonNumber| call_requires(quantity, (&n,)),
        ensures
            match json_parse_bytes(bytes@) {
                Err(message) => r matches Err(InvoiceParseError::InvalidJson(m)) && m@ == message@,
                Ok(root) => if root is Object {
                    r matches Ok(inv) && invoice_read(filename@, root, money, quantity, inv)
                } else {
                    r matches Err(InvoiceParseError::MissingObject)
                },
            },
    {
        let root = match parse_json_bytes(bytes) {
            Ok(node) => node,
            Err(message) => return Err(InvoiceParseError::InvalidJson(message)),
        };
        match root {
            JsonNode::Object(_) => {},
            _ => return Err(InvoiceParseError::MissingObject),
        }
        let code = text_of(field2(&root, "identificacion", "tipoDte"));
        let name = owned(document_type_name(code.as_str()));
        let ccf = is_ccf(code.as_str());

        let items = elements_of(field2(&root, "resumen", "tributos"));
        let mut taxes: Vec<TaxSummary> = Vec::new();
        let mut i: usize = 0;
        while i < items.len()
            invariant
                i <= items.len(),
                taxes@.len() == i,
                forall|n: JsonNumber| call_requires(money, (&n,)),
                forall|k: int| 0 <= k < i ==> tax_read(element_spec(#[trigger] items@[k]), money, taxes@[k]),
            decreases items.len() - i,
        {
            let node = element(&items[i]);
            let tax = TaxSummary {
                code: text_of(field(&node, "codigo")),
                description: text_of(field(&node, "descripcion")),
                value: written_of(field(&node, "valor"), &money, "$0.00"),
            };
            taxes.push(tax);
            i = i + 1;
        }

        let body = elements_of(field(&root, "cuerpoDocumento"));
        let shown = if body.len() > 5 { 5 } else { body.len() };
        let mut line_items: Vec<InvoiceLineItem> = Vec::new();
        let mut j: usize = 0;
        while j < shown
            invariant
                j <= shown <= body.len(),
                shown == (if body@.len() > 5 { 5 } else { body@.len() }),
                line_items@.len() == j,
                forall|n: JsonNumber| call_requires(money, (&n,)),
                forall|n: JsonNumber| call_requires(quantity, (&n,)),
                forall|k: int| 0 <= k < j ==> item_read(element_spec(#[trigger] body@[k]), money, quantity, line_items@[k]),
            decreases shown - j,
        {
            let node = element(&body[j]);
            let item = InvoiceLineItem {
                description: text_of(field(&node, "descripcion")),
                quantity: written_of(field(&node, "cantidad"), &quantity, ""),
                unit_price: written_of(field(&node, "precioUni"), &money, "$0.00"),
                taxed_sale: written_of(field(&node, "ventaGravada"), &money, "$0.00"),
                exempt_sale: written_of(field(&node, "ventaExenta"), &money, "$0.00"),
                non_subject_sale: written_of(field(&node, "ventaNoSuj"), &money, "$0.00"),
            };
            line_items.push(item);
            j = j + 1;
        }

        let condition = match field2(&root, "resumen", "condicionOperacion") {
            Some(JsonNode::Number(n)) => n.as_i64,
            _ => None,
        };
        let inv = InvoiceSummary {
            source_filename: owned(filename),
            document_type_code: code,
            document_type_name: name,
            is_ccf: ccf,
            control_number: text_of(field2(&root, "identificacion", "numeroControl")),
            generation_code: text_of(field2(&root, "identificacion", "codigoGeneracion")),
            issue_date: text_of(field2(&root, "identificacion", "fecEmi")),
            issue_time: text_of(field2(&root, "identificacion", "horEmi")),
            currency: text_of(field2(&root, "identificacion", "tipoMoneda")),
            issuer_name: text_of(field2(&root, "emisor", "nombre")),
            issuer_nit: text_of(field2(&root, "emisor", "nit")),
            issuer_nrc: text_of(field2(&root, "emisor", "nrc")),
            receiver_name: text_of(field2(&root, "receptor", "nombre")),
            receiver_nit: text_of(field2(&root, "receptor", "nit")),
            receiver_nrc: text_of(field2(&root, "receptor", "nrc")),
            taxed_sales: written_of(field2(&root, "resumen", "totalGravada"), &money, "$0.00"),
            exempt_sales: written_of(field2(&root, "resumen", "totalExenta"), &money, "$0.00"),
            non_subject_sales: written_of(field2(&root, "resumen", "totalNoSuj"), &money, "$0.00"),
            subtotal_sales: written_of(field2(&root, "resumen", "subTotalVentas"), &money, "$0.00"),
            discount_total: written_of(field2(&root, "resumen", "totalDescu"), &money, "$0.00"),
            subtotal: written_of(field2(&root, "resumen", "subTotal"), &money, "$0.00"),
            taxes,
            income_tax_retention: written_of(field2(&root, "resumen", "reteRenta"), &money, "$0.00"),
            vat_retention: written_of(field2(&root, "resumen", "ivaRete1"), &money, "$0.00"),
            vat_perception: written_of(field2(&root, "resumen", "ivaPerci1"), &money, "$0.00"),
            operation_total: written_of(field2(&root, "resumen", "montoTotalOperacion"), &money, "$0.00"),
            total_to_pay: written_of(field2(&root, "resumen", "totalPagar"), &money, "$0.00"),
            total_in_words: text_of(field2(&root, "resumen", "totalLetras")),
            payment_condition: owned(payment_condition(condition)),
            line_items,
        };
        proof {
            let first = if body@.len() > 5 { body@.take(5) } else { body@ };
            assert forall|k: int| 0 <= k < first.len() implies #[trigger] first[k] == body@[k] by {}
        }
        Ok(inv)
    }
}

/// A document is a credito fiscal exactly when its type code is `03`, that
/// is, exactly when its type is named "Comprobante de credito fiscal"; a
/// nota de credito (`05`) or any other type is not.
pub proof fn law_ccf_is_type_03(code: Seq<char>)
    ensures
        is_ccf_code(code) <==> code == "03"@,
        is_ccf_code(code) <==> document_type_name_spec(code) == "Comprobante de credito fiscal"@,
        code == "05"@ ==> !is_ccf_code(code),
{
    reveal_strlit("03");
    reveal_strlit("05");
    reveal_strlit("Comprobante de credito fiscal");
    reveal_strlit("Factura consumidor final");
    reveal_strlit("Nota de credito");
    reveal_strlit("Nota de debito");
    reveal_strlit("Factura sujeto excluido");
    reveal_strlit("Documento tributario");
    assert("03"@[1] != "05"@[1]);
    assert("03"@ != "05"@);
    assert("Comprobante de credito fiscal"@.len() == 29);
    assert("Factura consumidor final"@.len() == 24);
    assert("Nota de credito"@.len() == 15);
    assert("Nota de debito"@.len() == 14);
    assert("Factura sujeto excluido"@.len() == 23);
    assert("Documento tributario"@.len() == 20);
}

} // verus!
