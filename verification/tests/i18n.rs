use automated_invoice_uploader::date_range::DateRangeError;
use automated_invoice_uploader::drive_upload::DriveUploadError;
use automated_invoice_uploader::gmail_search::GmailSearchError;
use automated_invoice_uploader::i18n::{messages_for, Language, DEFAULT_LANGUAGE};

#[test]
fn spanish_is_the_default_language() {
    assert_eq!(DEFAULT_LANGUAGE, Language::Spanish);
    assert_eq!(messages_for(DEFAULT_LANGUAGE).search_criteria_title, "Criterios de busqueda");
}

#[test]
fn english_messages_are_available() {
    assert_eq!(messages_for(Language::English).search_criteria_title, "Search Criteria");
}

#[test]
fn the_default_language_is_the_default() {
    assert_eq!(Language::default(), Language::Spanish);
    assert_eq!(Language::Spanish.code(), "es");
    assert_eq!(Language::English.code(), "en");
}

#[test]
fn counts_use_the_singular_for_one() {
    let en = messages_for(Language::English);
    assert_eq!(en.candidate_count(1), "1 candidate email found in INBOX.");
    assert_eq!(en.candidate_count(0), "0 candidate emails found in INBOX.");
    assert_eq!(en.candidate_count(12), "12 candidate emails found in INBOX.");
    assert_eq!(en.selected_candidate_count(1), "1 email selected.");
    assert_eq!(en.selected_candidate_count(3), "3 emails selected.");
    let es = messages_for(Language::Spanish);
    assert_eq!(es.candidate_count(1), "1 correo candidato encontrado en INBOX.");
    assert_eq!(es.candidate_count(2), "2 correos candidatos encontrados en INBOX.");
    assert_eq!(es.selected_candidate_count(2), "2 correos seleccionados.");
}

#[test]
fn review_progress_counts_from_one() {
    assert_eq!(messages_for(Language::English).review_progress(0, 4), "Email 1 of 4");
    assert_eq!(messages_for(Language::Spanish).review_progress(3, 4), "Correo 4 de 4");
}

#[test]
fn date_range_errors_are_translated() {
    let es = messages_for(Language::Spanish);
    assert_eq!(
        es.date_range_error(&DateRangeError::InitialAfterFinal),
        "La fecha inicial debe ser anterior o igual a la fecha final."
    );
    let en = messages_for(Language::English);
    assert_eq!(en.date_range_error(&DateRangeError::InvalidFinalDate), "Final date must use a valid YYYY-MM-DD value.");
}

#[test]
fn search_errors_are_described() {
    let en = messages_for(Language::English);
    assert_eq!(en.gmail_search_error(&GmailSearchError::CliNotFound), "gws CLI was not found in PATH.");
    let failed = GmailSearchError::CommandFailed {
        command: "gws gmail".to_string(),
        status: "1".to_string(),
        stderr: String::new(),
    };
    assert_eq!(en.gmail_search_error(&failed), "`gws gmail` failed with exit status 1.");
    let failed = GmailSearchError::CommandFailed {
        command: "gws gmail".to_string(),
        status: "1".to_string(),
        stderr: "denied".to_string(),
    };
    assert_eq!(en.gmail_search_error(&failed), "`gws gmail` failed with exit status 1: denied");
    assert_eq!(
        en.drive_upload_error(&DriveUploadError::InvalidIssueDate { value: "2026-13-01".to_string() }),
        "Invoice issue date `2026-13-01` cannot be mapped to a Drive folder."
    );
    assert_eq!(
        GmailSearchError::AttachmentNotDownloadable { filename: "a.json".to_string() }.message(),
        "Attachment `a.json` is not downloadable."
    );
    assert_eq!(DriveUploadError::CliNotFound.message(), "gws CLI was not found in PATH.");
}

#[test]
fn upload_errors_are_described_in_both_languages() {
    let failed = DriveUploadError::CommandFailed {
        command: "gws drive".to_string(),
        status: "2".to_string(),
        stderr: "quota".to_string(),
    };
    assert_eq!(messages_for(Language::English).drive_upload_error(&failed), "`gws drive` failed with exit status 2: quota");
    assert_eq!(messages_for(Language::Spanish).drive_upload_error(&failed), "`gws drive` fallo con codigo de salida 2: quota");
    assert_eq!(
        messages_for(Language::Spanish).gmail_search_error(&GmailSearchError::PageLimitReached {
            query: "q".to_string(),
            page_limit: 1000,
        }),
        "La busqueda llego al limite de 1000 paginas para `q`. Reduce el rango de fechas e intenta otra vez."
    );
}
