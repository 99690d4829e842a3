//! The user-facing text of the application, in Spanish and English.
use vstd::prelude::*;

use crate::date_range::DateRangeError;
use crate::drive_upload::DriveUploadError;
use crate::gmail_search::GmailSearchError;
use crate::text::owned;


use crate::text::{decimal, decimal_string};

verus! {

/// The language of the interface.
#[derive(Clone, Copy, Debug, PartialEq, Eq, Structural)]
pub enum Language {
    Spanish,
    English,
}

/// The language the application starts in.
pub const DEFAULT_LANGUAGE: Language = Language::Spanish;

impl Default for Language {
    fn default() -> (l: Language)
        ensures
            l == DEFAULT_LANGUAGE,
    {
        DEFAULT_LANGUAGE
    }
}

impl Language {
    /// The short code the settings file stores for this language.
    pub fn code(self) -> (c: &'static str)
        ensures
            c@ == match self {
                Language::Spanish => "es"@,
                Language::English => "en"@,
            },
    {
        match self {
            Language::Spanish => "es",
            Language::English => "en",
        }
    }
}

/// Every message of the interface in one language.
pub struct Messages {
    pub language: Language,
    pub app_title: &'static str,
    pub search_criteria_title: &'static str,
    pub search_criteria_subtitle: &'static str,
    pub initial_date: &'static str,
    pub final_date: &'static str,
    pub form_footer: &'static str,
    pub calendar_footer: &'static str,
    pub calendar_is_open: &'static str,
    pub press_space_to_open: &'static str,
    pub press_tab_to_focus: &'static str,
    pub select_initial_date: &'static str,
    pub select_final_date: &'static str,
    pub default_period: &'static str,
    pub settings_title: &'static str,
    pub settings_header: &'static str,
    pub download_dir_label: &'static str,
    pub drive_root_folder_label: &'static str,
    pub dte_query_filter_label: &'static str,
    pub dte_query_filter_hint: &'static str,
    pub language_label: &'static str,
    pub language_spanish: &'static str,
    pub language_english: &'static str,
    pub settings_saved: &'static str,
    pub settings_footer: &'static str,
    pub settings_empty_download_dir: &'static str,
    pub settings_empty_drive_root_folder: &'static str,
    pub searching_gmail: &'static str,
    pub search_loader_title: &'static str,
    pub search_loader_stage_query: &'static str,
    pub search_loader_stage_pdf: &'static str,
    pub search_loader_stage_json: &'static str,
    pub search_loader_stage_match: &'static str,
    pub search_loader_meter: &'static str,
    pub search_loader_lane_pdf: &'static str,
    pub search_loader_lane_json: &'static str,
    pub search_loader_lane_match: &'static str,
    pub search_loader_footer: &'static str,
    pub results_title: &'static str,
    pub results_header: &'static str,
    pub results_list_title: &'static str,
    pub no_matching_emails: &'static str,
    pub selected_email_title: &'static str,
    pub no_email_selected: &'static str,
    pub from_label: &'static str,
    pub subject_label: &'static str,
    pub pdf_label: &'static str,
    pub json_label: &'static str,
    pub snippet_label: &'static str,
    pub results_footer: &'static str,
    pub unknown_sender: &'static str,
    pub no_subject: &'static str,
    pub unknown_date: &'static str,
    pub no_snippet: &'static str,
    pub gmail_search_stopped: &'static str,
    pub review_title: &'static str,
    pub loading_invoice: &'static str,
    pub saving_invoice_files: &'static str,
    pub review_complete: &'static str,
    pub review_error_title: &'static str,
    pub review_prompt: &'static str,
    pub review_busy_footer: &'static str,
    pub review_ready_footer: &'static str,
    pub review_error_footer: &'static str,
    pub review_complete_footer: &'static str,
    pub invoice_json_error_prefix: &'static str,
    pub invoice_save_error_prefix: &'static str,
    pub missing_json_error: &'static str,
    pub missing_pdf_error: &'static str,
    pub document_type_label: &'static str,
    pub ccf_warning: &'static str,
    pub control_number_label: &'static str,
    pub generation_code_label: &'static str,
    pub issue_date_label: &'static str,
    pub issuer_label: &'static str,
    pub receiver_label: &'static str,
    pub totals_label: &'static str,
    pub taxed_sales_label: &'static str,
    pub exempt_sales_label: &'static str,
    pub non_subject_sales_label: &'static str,
    pub subtotal_label: &'static str,
    pub operation_total_label: &'static str,
    pub total_to_pay_label: &'static str,
    pub payment_condition_label: &'static str,
    pub taxes_label: &'static str,
    pub line_items_label: &'static str,
    pub saved_files_label: &'static str,
    pub drive_folder_label: &'static str,
    pub drive_file_ids_label: &'static str,
    pub processed_label: &'static str,
    pub skipped_label: &'static str,
    pub unit_price_label: &'static str,
    pub taxed_short_label: &'static str,
    pub exempt_short_label: &'static str,
}

/// The spanish messages.
pub open spec fn spanish_messages() -> Messages {
    Messages {
        language: Language::Spanish,
        app_title: "DTE Uploader",
        search_criteria_title: "Criterios de busqueda",
        search_criteria_subtitle: "Selecciona el periodo de Gmail antes de buscar facturas.",
        initial_date: "Fecha inicial",
        final_date: "Fecha final",
        form_footer: "Tab: cambiar campo  Texto: editar filtro  s: buscar  S: configuracion  q: salir",
        calendar_footer: "Fechas: Enter/Espacio abre calendario. Calendario: flechas dia/semana  PgUp/PgDn mes",
        calendar_is_open: "Calendario abierto",
        press_space_to_open: "Presiona Espacio para abrir",
        press_tab_to_focus: "Presiona Tab para enfocar",
        select_initial_date: "Seleccionar fecha inicial",
        select_final_date: "Seleccionar fecha final",
        default_period: "El periodo predeterminado va del primer al ultimo dia del mes actual.",
        settings_title: "Configuracion",
        settings_header: "Preferencias de la aplicacion",
        download_dir_label: "Carpeta de descarga",
        drive_root_folder_label: "Carpeta base en Drive",
        dte_query_filter_label: "Filtro DTE en Gmail",
        dte_query_filter_hint: "Vacio desactiva este filtro.",
        language_label: "Idioma",
        language_spanish: "Espanol",
        language_english: "English",
        settings_saved: "Configuracion guardada.",
        settings_footer: "Tab: cambiar campo  Texto: editar  Espacio: cambiar idioma  Enter: guardar  Esc: volver  Ctrl+q: salir",
        settings_empty_download_dir: "La carpeta de descarga no puede estar vacia.",
        settings_empty_drive_root_folder: "La carpeta base en Drive no puede estar vacia.",
        searching_gmail: "Buscando en Gmail INBOX...",
        search_loader_title: "Escaner de Gmail",
        search_loader_stage_query: "consultando mensajes",
        search_loader_stage_pdf: "rastreando PDF",
        search_loader_stage_json: "rastreando JSON",
        search_loader_stage_match: "cruzando resultados",
        search_loader_meter: "Busqueda",
        search_loader_lane_pdf: "PDF",
        search_loader_lane_json: "JSON",
        search_loader_lane_match: "Cruce",
        search_loader_footer: "Filtrando correos que tienen PDF y JSON al mismo tiempo.",
        results_title: "Correos de factura encontrados",
        results_header: "Correos con adjuntos PDF y JSON",
        results_list_title: "Resultados",
        no_matching_emails: "No se encontraron correos para este periodo.",
        selected_email_title: "Correo seleccionado",
        no_email_selected: "No hay correo seleccionado.",
        from_label: "De: ",
        subject_label: "Asunto: ",
        pdf_label: "PDF: ",
        json_label: "JSON: ",
        snippet_label: "Resumen: ",
        results_footer: "Arriba/Abajo: mover  PgUp/PgDn: texto  Espacio: seleccionar/quitar  Enter: revisar  b/Esc: volver  q: salir",
        unknown_sender: "(remitente desconocido)",
        no_subject: "(sin asunto)",
        unknown_date: "(fecha desconocida)",
        no_snippet: "(sin resumen)",
        gmail_search_stopped: "La busqueda de Gmail se detuvo inesperadamente.",
        review_title: "Revision de facturas",
        loading_invoice: "Descargando JSON de la factura...",
        saving_invoice_files: "Descargando PDF, guardando archivos y subiendo a Drive...",
        review_complete: "Revision completada.",
        review_error_title: "No se pudo revisar este correo",
        review_prompt: "Procesar este correo? Y/n",
        review_busy_footer: "q: salir",
        review_ready_footer: "Y: procesar y subir a Drive  n: omitir  q: salir",
        review_error_footer: "n: omitir  q: salir",
        review_complete_footer: "Enter/Esc: volver a resultados  q: salir",
        invoice_json_error_prefix: "No se pudo leer el JSON de la factura",
        invoice_save_error_prefix: "No se pudieron guardar los archivos",
        missing_json_error: "Este correo no tiene un adjunto JSON descargable.",
        missing_pdf_error: "Este correo no tiene un adjunto PDF descargable.",
        document_type_label: "Tipo de documento",
        ccf_warning: "Este JSON no parece ser CCF (tipoDte 03).",
        control_number_label: "Numero de control",
        generation_code_label: "Codigo de generacion",
        issue_date_label: "Fecha de emision",
        issuer_label: "Emisor",
        receiver_label: "Receptor",
        totals_label: "Montos",
        taxed_sales_label: "Ventas gravadas",
        exempt_sales_label: "Ventas exentas",
        non_subject_sales_label: "Ventas no sujetas",
        subtotal_label: "Subtotal",
        operation_total_label: "Total operacion",
        total_to_pay_label: "Total a pagar",
        payment_condition_label: "Condicion",
        taxes_label: "Tributos",
        line_items_label: "Lineas",
        saved_files_label: "Archivos guardados",
        drive_folder_label: "Carpeta de Drive",
        drive_file_ids_label: "IDs en Drive",
        processed_label: "Procesados",
        skipped_label: "Omitidos",
        unit_price_label: "Unitario",
        taxed_short_label: "Gravada",
        exempt_short_label: "Exenta",
    }
}

/// The english messages.
pub open spec fn english_messages() -> Messages {
    Messages {
        language: Language::English,
        app_title: "DTE Uploader",
        search_criteria_title: "Search Criteria",
        search_criteria_subtitle: "Select the Gmail search period before collecting invoice emails.",
        initial_date: "Initial date",
        final_date: "Final date",
        form_footer: "Tab: switch field  Text: edit filter  s: search  S: settings  q: quit",
        calendar_footer: "Dates: Enter/Space opens calendar. Calendar: arrows move day/week  PgUp/PgDn month",
        calendar_is_open: "Calendar is open",
        press_space_to_open: "Press Space to open",
        press_tab_to_focus: "Press Tab to focus",
        select_initial_date: "Select initial date",
        select_final_date: "Select final date",
        default_period: "The default period is the first through last day of the current month.",
        settings_title: "Settings",
        settings_header: "Application preferences",
        download_dir_label: "Download folder",
        drive_root_folder_label: "Drive base folder",
        dte_query_filter_label: "Gmail DTE filter",
        dte_query_filter_hint: "Empty disables this filter.",
        language_label: "Language",
        language_spanish: "Espanol",
        language_english: "English",
        settings_saved: "Settings saved.",
        settings_footer: "Tab: switch field  Text: edit  Space: change language  Enter: save  Esc: back  Ctrl+q: quit",
        settings_empty_download_dir: "Download folder cannot be empty.",
        settings_empty_drive_root_folder: "Drive base folder cannot be empty.",
        searching_gmail: "Searching Gmail in INBOX...",
        search_loader_title: "Gmail Scanner",
        search_loader_stage_query: "querying messages",
        search_loader_stage_pdf: "tracking PDF",
        search_loader_stage_json: "tracking JSON",
        search_loader_stage_match: "matching results",
        search_loader_meter: "Search",
        search_loader_lane_pdf: "PDF",
        search_loader_lane_json: "JSON",
        search_loader_lane_match: "Match",
        search_loader_footer: "Filtering emails that have PDF and JSON attachments at the same time.",
        results_title: "Matching invoice emails",
        results_header: "Emails with both PDF and JSON attachments",
        results_list_title: "Results",
        no_matching_emails: "No matching emails found for this period.",
        selected_email_title: "Selected email",
        no_email_selected: "No email selected.",
        from_label: "From: ",
        subject_label: "Subject: ",
        pdf_label: "PDF: ",
        json_label: "JSON: ",
        snippet_label: "Snippet: ",
        results_footer: "Up/Down: move  PgUp/PgDn: text  Space: select/unselect  Enter: review  b/Esc: back  q: quit",
        unknown_sender: "(unknown sender)",
        no_subject: "(no subject)",
        unknown_date: "(unknown date)",
        no_snippet: "(no snippet)",
        gmail_search_stopped: "Gmail search stopped unexpectedly.",
        review_title: "Invoice review",
        loading_invoice: "Downloading invoice JSON...",
        saving_invoice_files: "Downloading PDF, saving files, and uploading to Drive...",
        review_complete: "Review complete.",
        review_error_title: "Could not review this email",
        review_prompt: "Process this email? Y/n",
        review_busy_footer: "q: quit",
        review_ready_footer: "Y: process and upload to Drive  n: skip  q: quit",
        review_error_footer: "n: skip  q: quit",
        review_complete_footer: "Enter/Esc: back to results  q: quit",
        invoice_json_error_prefix: "Could not read the invoice JSON",
        invoice_save_error_prefix: "Could not save the files",
        missing_json_error: "This email does not have a downloadable JSON attachment.",
        missing_pdf_error: "This email does not have a downloadable PDF attachment.",
        document_type_label: "Document type",
        ccf_warning: "This JSON does not look like CCF (tipoDte 03).",
        control_number_label: "Control number",
        generation_code_label: "Generation code",
        issue_date_label: "Issue date",
        issuer_label: "Issuer",
        receiver_label: "Receiver",
        totals_label: "Amounts",
        taxed_sales_label: "Taxed sales",
        exempt_sales_label: "Exempt sales",
        non_subject_sales_label: "Non-subject sales",
        subtotal_label: "Subtotal",
        operation_total_label: "Operation total",
        total_to_pay_label: "Total to pay",
        payment_condition_label: "Condition",
        taxes_label: "Taxes",
        line_items_label: "Line items",
        saved_files_label: "Saved files",
        drive_folder_label: "Drive folder",
        drive_file_ids_label: "Drive IDs",
        processed_label: "Processed",
        skipped_label: "Skipped",
        unit_price_label: "Unit",
        taxed_short_label: "Taxed",
        exempt_short_label: "Exempt",
    }
}

fn spanish_table() -> (m: Messages)
    ensures
        m == spanish_messages(),
{
    Messages {
        language: Language::Spanish,
        app_title: "DTE Uploader",
        search_criteria_title: "Criterios de busqueda",
        search_criteria_subtitle: "Selecciona el periodo de Gmail antes de buscar facturas.",
        initial_date: "Fecha inicial",
        final_date: "Fecha final",
        form_footer: "Tab: cambiar campo  Texto: editar filtro  s: buscar  S: configuracion  q: salir",
        calendar_footer: "Fechas: Enter/Espacio abre calendario. Calendario: flechas dia/semana  PgUp/PgDn mes",
        calendar_is_open: "Calendario abierto",
        press_space_to_open: "Presiona Espacio para abrir",
        press_tab_to_focus: "Presiona Tab para enfocar",
        select_initial_date: "Seleccionar fecha inicial",
        select_final_date: "Seleccionar fecha final",
        default_period: "El periodo predeterminado va del primer al ultimo dia del mes actual.",
        settings_title: "Configuracion",
        settings_header: "Preferencias de la aplicacion",
        download_dir_label: "Carpeta de descarga",
        drive_root_folder_label: "Carpeta base en Drive",
        dte_query_filter_label: "Filtro DTE en Gmail",
        dte_query_filter_hint: "Vacio desactiva este filtro.",
        language_label: "Idioma",
        language_spanish: "Espanol",
        language_english: "English",
        settings_saved: "Configuracion guardada.",
        settings_footer: "Tab: cambiar campo  Texto: editar  Espacio: cambiar idioma  Enter: guardar  Esc: volver  Ctrl+q: salir",
        settings_empty_download_dir: "La carpeta de descarga no puede estar vacia.",
        settings_empty_drive_root_folder: "La carpeta base en Drive no puede estar vacia.",
        searching_gmail: "Buscando en Gmail INBOX...",
        search_loader_title: "Escaner de Gmail",
        search_loader_stage_query: "consultando mensajes",
        search_loader_stage_pdf: "rastreando PDF",
        search_loader_stage_json: "rastreando JSON",
        search_loader_stage_match: "cruzando resultados",
        search_loader_meter: "Busqueda",
        search_loader_lane_pdf: "PDF",
        search_loader_lane_json: "JSON",
        search_loader_lane_match: "Cruce",
        search_loader_footer: "Filtrando correos que tienen PDF y JSON al mismo tiempo.",
        results_title: "Correos de factura encontrados",
        results_header: "Correos con adjuntos PDF y JSON",
        results_list_title: "Resultados",
        no_matching_emails: "No se encontraron correos para este periodo.",
        selected_email_title: "Correo seleccionado",
        no_email_selected: "No hay correo seleccionado.",
        from_label: "De: ",
        subject_label: "Asunto: ",
        pdf_label: "PDF: ",
        json_label: "JSON: ",
        snippet_label: "Resumen: ",
        results_footer: "Arriba/Abajo: mover  PgUp/PgDn: texto  Espacio: seleccionar/quitar  Enter: revisar  b/Esc: volver  q: salir",
        unknown_sender: "(remitente desconocido)",
        no_subject: "(sin asunto)",
        unknown_date: "(fecha desconocida)",
        no_snippet: "(sin resumen)",
        gmail_search_stopped: "La busqueda de Gmail se detuvo inesperadamente.",
        review_title: "Revision de facturas",
        loading_invoice: "Descargando JSON de la factura...",
        saving_invoice_files: "Descargando PDF, guardando archivos y subiendo a Drive...",
        review_complete: "Revision completada.",
        review_error_title: "No se pudo revisar este correo",
        review_prompt: "Procesar este correo? Y/n",
        review_busy_footer: "q: salir",
        review_ready_footer: "Y: procesar y subir a Drive  n: omitir  q: salir",
        review_error_footer: "n: omitir  q: salir",
        review_complete_footer: "Enter/Esc: volver a resultados  q: salir",
        invoice_json_error_prefix: "No se pudo leer el JSON de la factura",
        invoice_save_error_prefix: "No se pudieron guardar los archivos",
        missing_json_error: "Este correo no tiene un adjunto JSON descargable.",
        missing_pdf_error: "Este correo no tiene un adjunto PDF descargable.",
        document_type_label: "Tipo de documento",
        ccf_warning: "Este JSON no parece ser CCF (tipoDte 03).",
        control_number_label: "Numero de control",
        generation_code_label: "Codigo de generacion",
        issue_date_label: "Fecha de emision",
        issuer_label: "Emisor",
        receiver_label: "Receptor",
        totals_label: "Montos",
        taxed_sales_label: "Ventas gravadas",
        exempt_sales_label: "Ventas exentas",
        non_subject_sales_label: "Ventas no sujetas",
        subtotal_label: "Subtotal",
        operation_total_label: "Total operacion",
        total_to_pay_label: "Total a pagar",
        payment_condition_label: "Condicion",
        taxes_label: "Tributos",
        line_items_label: "Lineas",
        saved_files_label: "Archivos guardados",
        drive_folder_label: "Carpeta de Drive",
        drive_file_ids_label: "IDs en Drive",
        processed_label: "Procesados",
        skipped_label: "Omitidos",
        unit_price_label: "Unitario",
        taxed_short_label: "Gravada",
        exempt_short_label: "Exenta",
    }
}

fn english_table() -> (m: Messages)
    ensures
        m == english_messages(),
{
    Messages {
        language: Language::English,
        app_title: "DTE Uploader",
        search_criteria_title: "Search Criteria",
        search_criteria_subtitle: "Select the Gmail search period before collecting invoice emails.",
        initial_date: "Initial date",
        final_date: "Final date",
        form_footer: "Tab: switch field  Text: edit filter  s: search  S: settings  q: quit",
        calendar_footer: "Dates: Enter/Space opens calendar. Calendar: arrows move day/week  PgUp/PgDn month",
        calendar_is_open: "Calendar is open",
        press_space_to_open: "Press Space to open",
        press_tab_to_focus: "Press Tab to focus",
        select_initial_date: "Select initial date",
        select_final_date: "Select final date",
        default_period: "The default period is the first through last day of the current month.",
        settings_title: "Settings",
        settings_header: "Application preferences",
        download_dir_label: "Download folder",
        drive_root_folder_label: "Drive base folder",
        dte_query_filter_label: "Gmail DTE filter",
        dte_query_filter_hint: "Empty disables this filter.",
        language_label: "Language",
        language_spanish: "Espanol",
        language_english: "English",
        settings_saved: "Settings saved.",
        settings_footer: "Tab: switch field  Text: edit  Space: change language  Enter: save  Esc: back  Ctrl+q: quit",
        settings_empty_download_dir: "Download folder cannot be empty.",
        settings_empty_drive_root_folder: "Drive base folder cannot be empty.",
        searching_gmail: "Searching Gmail in INBOX...",
        search_loader_title: "Gmail Scanner",
        search_loader_stage_query: "querying messages",
        search_loader_stage_pdf: "tracking PDF",
        search_loader_stage_json: "tracking JSON",
        search_loader_stage_match: "matching results",
        search_loader_meter: "Search",
        search_loader_lane_pdf: "PDF",
        search_loader_lane_json: "JSON",
        search_loader_lane_match: "Match",
        search_loader_footer: "Filtering emails that have PDF and JSON attachments at the same time.",
        results_title: "Matching invoice emails",
        results_header: "Emails with both PDF and JSON attachments",
        results_list_title: "Results",
        no_matching_emails: "No matching emails found for this period.",
        selected_email_title: "Selected email",
        no_email_selected: "No email selected.",
        from_label: "From: ",
        subject_label: "Subject: ",
        pdf_label: "PDF: ",
        json_label: "JSON: ",
        snippet_label: "Snippet: ",
        results_footer: "Up/Down: move  PgUp/PgDn: text  Space: select/unselect  Enter: review  b/Esc: back  q: quit",
        unknown_sender: "(unknown sender)",
        no_subject: "(no subject)",
        unknown_date: "(unknown date)",
        no_snippet: "(no snippet)",
        gmail_search_stopped: "Gmail search stopped unexpectedly.",
        review_title: "Invoice review",
        loading_invoice: "Downloading invoice JSON...",
        saving_invoice_files: "Downloading PDF, saving files, and uploading to Drive...",
        review_complete: "Review complete.",
        review_error_title: "Could not review this email",
        review_prompt: "Process this email? Y/n",
        review_busy_footer: "q: quit",
        review_ready_footer: "Y: process and upload to Drive  n: skip  q: quit",
        review_error_footer: "n: skip  q: quit",
        review_complete_footer: "Enter/Esc: back to results  q: quit",
        invoice_json_error_prefix: "Could not read the invoice JSON",
        invoice_save_error_prefix: "Could not save the files",
        missing_json_error: "This email does not have a downloadable JSON attachment.",
        missing_pdf_error: "This email does not have a downloadable PDF attachment.",
        document_type_label: "Document type",
        ccf_warning: "This JSON does not look like CCF (tipoDte 03).",
        control_number_label: "Control number",
        generation_code_label: "Generation code",
        issue_date_label: "Issue date",
        issuer_label: "Issuer",
        receiver_label: "Receiver",
        totals_label: "Amounts",
        taxed_sales_label: "Taxed sales",
        exempt_sales_label: "Exempt sales",
        non_subject_sales_label: "Non-subject sales",
        subtotal_label: "Subtotal",
        operation_total_label: "Operation total",
        total_to_pay_label: "Total to pay",
        payment_condition_label: "Condition",
        taxes_label: "Taxes",
        line_items_label: "Line items",
        saved_files_label: "Saved files",
        drive_folder_label: "Drive folder",
        drive_file_ids_label: "Drive IDs",
        processed_label: "Processed",
        skipped_label: "Skipped",
        unit_price_label: "Unit",
        taxed_short_label: "Taxed",
        exempt_short_label: "Exempt",
    }
}

/// The spanish table is the table of the default language.
pub proof fn law_spanish_is_the_default()
    ensures
        messages_spec(DEFAULT_LANGUAGE) == spanish_messages(),
        messages_spec(DEFAULT_LANGUAGE).language_of() == Language::Spanish,
        messages_spec(Language::English).language_of() == Language::English,
        spanish_messages().search_criteria_title@ == "Criterios de busqueda"@,
        english_messages().search_criteria_title@ == "Search Criteria"@,
{
}

/// The messages of `language`.
pub open spec fn messages_spec(language: Language) -> Messages {
    match language {
        Language::Spanish => spanish_messages(),
        Language::English => english_messages(),
    }
}

/// The messages of `language`.
pub fn messages_for(language: Language) -> (m: Messages)
    ensures
        m == messages_spec(language),
        m.language_of() == language,
{
    match language {
        Language::Spanish => spanish_table(),
        Language::English => english_table(),
    }
}

/// `count` followed by `one` when `count` is 1 and by `many` otherwise.
pub open spec fn counted(count: nat, one: Seq<char>, many: Seq<char>) -> Seq<char> {
    decimal(count) + if count == 1 { one } else { many }
}

impl Messages {
    /// The language of these messages.
    pub open spec fn language_of(self) -> Language {
        self.language
    }

    /// "N candidate emails found in INBOX.", singular for one.
    pub fn candidate_count(&self, count: usize) -> (s: String)
        ensures
            s@ == match self.language_of() {
                Language::Spanish => counted(count as nat, " correo candidato encontrado en INBOX."@, " correos candidatos encontrados en INBOX."@),
                Language::English => counted(count as nat, " candidate email found in INBOX."@, " candidate emails found in INBOX."@),
            },
    {
        let mut s = decimal_string(count as u64);
        let tail = match self.language {
            Language::Spanish => if count == 1 {
                " correo candidato encontrado en INBOX."
            } else {
                " correos candidatos encontrados en INBOX."
            },
            Language::English => if count == 1 {
                " candidate email found in INBOX."
            } else {
                " candidate emails found in INBOX."
            },
        };
        s.append(tail);
        s
    }

    /// "N emails selected.", singular for one.
    pub fn selected_candidate_count(&self, count: usize) -> (s: String)
        ensures
            s@ == match self.language_of() {
                Language::Spanish => counted(count as nat, " correo seleccionado."@, " correos seleccionados."@),
                Language::English => counted(count as nat, " email selected."@, " emails selected."@),
            },
    {
        let mut s = decimal_string(count as u64);
        let tail = match self.language {
            Language::Spanish => if count == 1 {
                " correo seleccionado."
            } else {
                " correos seleccionados."
            },
            Language::English => if count == 1 {
                " email selected."
            } else {
                " emails selected."
            },
        };
        s.append(tail);
        s
    }

    /// "Email i+1 of total": the position of the email at `index`, counted
    /// from one.
    pub fn review_progress(&self, index: usize, total: usize) -> (s: String)
        requires
            index < usize::MAX,
        ensures
            s@ == match self.language_of() {
                Language::Spanish => "Correo "@ + decimal((index + 1) as nat) + " de "@ + decimal(total as nat),
                Language::English => "Email "@ + decimal((index + 1) as nat) + " of "@ + decimal(total as nat),
            },
    {
        let mut s = String::new();
        match self.language {
            Language::Spanish => s.append("Correo "),
            Language::English => s.append("Email "),
        }
        let position = decimal_string((index + 1) as u64);
        s.append(position.as_str());
        match self.language {
            Language::Spanish => s.append(" de "),
            Language::English => s.append(" of "),
        }
        let total_text = decimal_string(total as u64);
        s.append(total_text.as_str());
        proof {
            assert(s@ =~= match self.language_of() {
                Language::Spanish => "Correo "@ + decimal((index + 1) as nat) + " de "@ + decimal(total as nat),
                Language::English => "Email "@ + decimal((index + 1) as nat) + " of "@ + decimal(total as nat),
            });
        }
        s
    }

    /// The message that explains a rejected search period.
    pub fn date_range_error(&self, error: &DateRangeError) -> (m: &'static str)
        ensures
            m@ == date_range_error_text(self.language_of(), *error),
    {
        match (self.language, error) {
            (Language::Spanish, DateRangeError::InvalidInitialDate) => {
                "La fecha inicial debe ser una fecha valida con formato YYYY-MM-DD."
            },
            (Language::Spanish, DateRangeError::InvalidFinalDate) => {
                "La fecha final debe ser una fecha valida con formato YYYY-MM-DD."
            },
            (Language::Spanish, DateRangeError::InitialAfterFinal) => {
                "La fecha inicial debe ser anterior o igual a la fecha final."
            },
            (Language::English, DateRangeError::InvalidInitialDate) => {
                "Initial date must use a valid YYYY-MM-DD value."
            },
            (Language::English, DateRangeError::InvalidFinalDate) => {
                "Final date must use a valid YYYY-MM-DD value."
            },
            (Language::English, DateRangeError::InitialAfterFinal) => {
                "Initial date must be before or equal to final date."
            },
        }
    }
}

/// The message for a rejected search period in `language`.
pub open spec fn date_range_error_text(language: Language, error: DateRangeError) -> Seq<char> {
    match (language, error) {
        (Language::Spanish, DateRangeError::InvalidInitialDate) => "La fecha inicial debe ser una fecha valida con formato YYYY-MM-DD."@,
        (Language::Spanish, DateRangeError::InvalidFinalDate) => "La fecha final debe ser una fecha valida con formato YYYY-MM-DD."@,
        (Language::Spanish, DateRangeError::InitialAfterFinal) => "La fecha inicial debe ser anterior o igual a la fecha final."@,
        (Language::English, DateRangeError::InvalidInitialDate) => "Initial date must use a valid YYYY-MM-DD value."@,
        (Language::English, DateRangeError::InvalidFinalDate) => "Final date must use a valid YYYY-MM-DD value."@,
        (Language::English, DateRangeError::InitialAfterFinal) => "Initial date must be before or equal to final date."@,
    }
}

/// How a failed `gws` command is described: the command in backquotes, the
/// exit status, and what it printed on standard error unless that is empty.
pub open spec fn command_failed_text(language: Language, command: Seq<char>, status: Seq<char>, stderr: Seq<char>) -> Seq<char> {
    let head = match language {
        Language::Spanish => "`"@ + command + "` fallo con codigo de salida "@ + status,
        Language::English => "`"@ + command + "` failed with exit status "@ + status,
    };
    if stderr.len() == 0 {
        head + "."@
    } else {
        head + ": "@ + stderr
    }
}

/// The message for a failed Gmail search or download.
pub open spec fn gmail_search_error_text(language: Language, error: GmailSearchError) -> Seq<char> {
    match (language, error) {
        (Language::Spanish, GmailSearchError::CliNotFound) => "No se encontro el CLI gws en PATH."@,
        (Language::English, GmailSearchError::CliNotFound) => "gws CLI was not found in PATH."@,
        (_, GmailSearchError::CommandFailed { command, status, stderr }) => command_failed_text(language, command@, status@, stderr@),
        (Language::Spanish, GmailSearchError::Io(e)) => "No se pudo ejecutar gws: "@ + e@,
        (Language::English, GmailSearchError::Io(e)) => "Failed to run gws: "@ + e@,
        (Language::Spanish, GmailSearchError::Json { context, message }) => "No se pudo leer el JSON de gws para "@ + context@ + ": "@ + message@,
        (Language::English, GmailSearchError::Json { context, message }) => "Failed to parse gws JSON for "@ + context@ + ": "@ + message@,
        (Language::Spanish, GmailSearchError::PageLimitReached { query, page_limit }) => "La busqueda llego al limite de "@ + decimal(page_limit as nat)
            + " paginas para `"@ + query@ + "`. Reduce el rango de fechas e intenta otra vez."@,
        (Language::English, GmailSearchError::PageLimitReached { query, page_limit }) => "Gmail search reached the "@ + decimal(page_limit as nat)
            + "-page limit for query `"@ + query@ + "`. Narrow the date range and try again."@,
        (Language::Spanish, GmailSearchError::AttachmentNotDownloadable { filename }) => "El adjunto `"@ + filename@ + "` no se puede descargar."@,
        (Language::English, GmailSearchError::AttachmentNotDownloadable { filename }) => "Attachment `"@ + filename@ + "` is not downloadable."@,
        (Language::Spanish, GmailSearchError::AttachmentMissingData { filename }) => "El adjunto `"@ + filename@ + "` no incluyo datos descargables."@,
        (Language::English, GmailSearchError::AttachmentMissingData { filename }) => "Attachment `"@ + filename@ + "` did not include downloadable data."@,
        (Language::Spanish, GmailSearchError::Base64 { filename, message }) => "No se pudo decodificar el adjunto `"@ + filename@ + "`: "@ + message@,
        (Language::English, GmailSearchError::Base64 { filename, message }) => "Failed to decode attachment `"@ + filename@ + "`: "@ + message@,
    }
}

/// The message for a failed upload.
pub open spec fn drive_upload_error_text(language: Language, error: DriveUploadError) -> Seq<char> {
    match (language, error) {
        (Language::Spanish, DriveUploadError::CliNotFound) => "No se encontro el CLI gws en PATH."@,
        (Language::English, DriveUploadError::CliNotFound) => "gws CLI was not found in PATH."@,
        (_, DriveUploadError::CommandFailed { command, status, stderr }) => command_failed_text(language, command@, status@, stderr@),
        (Language::Spanish, DriveUploadError::Io(e)) => "No se pudo ejecutar gws Drive: "@ + e@,
        (Language::English, DriveUploadError::Io(e)) => "Failed to run gws Drive: "@ + e@,
        (Language::Spanish, DriveUploadError::Json { context, message }) => "No se pudo leer el JSON de gws Drive para "@ + context@ + ": "@ + message@,
        (Language::English, DriveUploadError::Json { context, message }) => "Failed to parse gws Drive JSON for "@ + context@ + ": "@ + message@,
        (Language::Spanish, DriveUploadError::InvalidIssueDate { value }) => "La fecha de emision `"@ + value@ + "` no permite resolver la carpeta de Drive."@,
        (Language::English, DriveUploadError::InvalidIssueDate { value }) => "Invoice issue date `"@ + value@ + "` cannot be mapped to a Drive folder."@,
        (Language::Spanish, DriveUploadError::MissingFileName { path }) => "No se pudo determinar el nombre del archivo `"@ + path@ + "`."@,
        (Language::English, DriveUploadError::MissingFileName { path }) => "Could not determine the file name for `"@ + path@ + "`."@,
    }
}

/// `a + b`.
fn two(a: &str, b: &str) -> (r: String)
    ensures
        r@ == a@ + b@,
{
    let mut r = owned(a);
    r.append(b);
    r
}

/// `a + b + c`.
fn three(a: &str, b: &str, c: &str) -> (r: String)
    ensures
        r@ == a@ + b@ + c@,
{
    let mut r = owned(a);
    r.append(b);
    r.append(c);
    r
}

/// `a + b + c + d`.
fn four(a: &str, b: &str, c: &str, d: &str) -> (r: String)
    ensures
        r@ == a@ + b@ + c@ + d@,
{
    let mut r = three(a, b, c);
    r.append(d);
    r
}

fn command_failed(language: Language, command: &str, status: &str, stderr: &str) -> (r: String)
    ensures
        r@ == command_failed_text(language, command@, status@, stderr@),
{
    let mut r = match language {
        Language::Spanish => four("`", command, "` fallo con codigo de salida ", status),
        Language::English => four("`", command, "` failed with exit status ", status),
    };
    if stderr.unicode_len() == 0 {
        r.append(".");
    } else {
        r.append(": ");
        r.append(stderr);
    }
    r
}

/// The message for a failed Gmail search or download in `language`.
pub fn gmail_search_error_message(language: Language, error: &GmailSearchError) -> (m: String)
    ensures
        m@ == gmail_search_error_text(language, *error),
{
    let spanish = language == Language::Spanish;
    match error {
        GmailSearchError::CliNotFound => if spanish {
            owned("No se encontro el CLI gws en PATH.")
        } else {
            owned("gws CLI was not found in PATH.")
        },
        GmailSearchError::CommandFailed { command, status, stderr } => command_failed(language, command.as_str(), status.as_str(), stderr.as_str()),
        GmailSearchError::Io(e) => if spanish {
            two("No se pudo ejecutar gws: ", e.as_str())
        } else {
            two("Failed to run gws: ", e.as_str())
        },
        GmailSearchError::Json { context, message } => if spanish {
            four("No se pudo leer el JSON de gws para ", context.as_str(), ": ", message.as_str())
        } else {
            four("Failed to parse gws JSON for ", context.as_str(), ": ", message.as_str())
        },
        GmailSearchError::PageLimitReached { query, page_limit } => {
            let limit = decimal_string(*page_limit as u64);
            if spanish {
                let mut m = four("La busqueda llego al limite de ", limit.as_str(), " paginas para `", query.as_str());
                m.append("`. Reduce el rango de fechas e intenta otra vez.");
                m
            } else {
                let mut m = four("Gmail search reached the ", limit.as_str(), "-page limit for query `", query.as_str());
                m.append("`. Narrow the date range and try again.");
                m
            }
        },
        GmailSearchError::AttachmentNotDownloadable { filename } => if spanish {
            three("El adjunto `", filename.as_str(), "` no se puede descargar.")
        } else {
            three("Attachment `", filename.as_str(), "` is not downloadable.")
        },
        GmailSearchError::AttachmentMissingData { filename } => if spanish {
            three("El adjunto `", filename.as_str(), "` no incluyo datos descargables.")
        } else {
            three("Attachment `", filename.as_str(), "` did not include downloadable data.")
        },
        GmailSearchError::Base64 { filename, message } => if spanish {
            four("No se pudo decodificar el adjunto `", filename.as_str(), "`: ", message.as_str())
        } else {
            four("Failed to decode attachment `", filename.as_str(), "`: ", message.as_str())
        },
    }
}

/// The message for a failed upload in `language`.
pub fn drive_upload_error_message(language: Language, error: &DriveUploadError) -> (m: String)
    ensures
        m@ == drive_upload_error_text(language, *error),
{
    let spanish = language == Language::Spanish;
    match error {
        DriveUploadError::CliNotFound => if spanish {
            owned("No se encontro el CLI gws en PATH.")
        } else {
            owned("gws CLI was not found in PATH.")
        },
        DriveUploadError::CommandFailed { command, status, stderr } => command_failed(language, command.as_str(), status.as_str(), stderr.as_str()),
        DriveUploadError::Io(e) => if spanish {
            two("No se pudo ejecutar gws Drive: ", e.as_str())
        } else {
            two("Failed to run gws Drive: ", e.as_str())
        },
        DriveUploadError::Json { context, message } => if spanish {
            four("No se pudo leer el JSON de gws Drive para ", context.as_str(), ": ", message.as_str())
        } else {
            four("Failed to parse gws Drive JSON for ", context.as_str(), ": ", message.as_str())
        },
        DriveUploadError::InvalidIssueDate { value } => if spanish {
            three("La fecha de emision `", value.as_str(), "` no permite resolver la carpeta de Drive.")
        } else {
            three("Invoice issue date `", value.as_str(), "` cannot be mapped to a Drive folder.")
        },
        DriveUploadError::MissingFileName { path } => if spanish {
            three("No se pudo determinar el nombre del archivo `", path.as_str(), "`.")
        } else {
            three("Could not determine the file name for `", path.as_str(), "`.")
        },
    }
}

impl Messages {
    /// The message for a failed Gmail search or download.
    pub fn gmail_search_error(&self, error: &GmailSearchError) -> (m: String)
        ensures
            m@ == gmail_search_error_text(self.language, *error),
    {
        gmail_search_error_message(self.language, error)
    }

    /// The message for a failed upload.
    pub fn drive_upload_error(&self, error: &DriveUploadError) -> (m: String)
        ensures
            m@ == drive_upload_error_text(self.language, *error),
    {
        drive_upload_error_message(self.language, error)
    }
}

} // verus!
