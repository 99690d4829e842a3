use automated_invoice_uploader::app::{App, AppAction, AppCommand, Screen, SearchEvent};
use automated_invoice_uploader::gmail_search::{AttachmentSummary, CandidateEmail, GmailSearchError};
use automated_invoice_uploader::home::{CalendarDate, HomePageStatus};
use automated_invoice_uploader::i18n::Language;
use automated_invoice_uploader::keys::{KeyCode, KeyInput};
use automated_invoice_uploader::review::{ReviewEvent, ReviewView};
use automated_invoice_uploader::review::ReviewError;
use automated_invoice_uploader::settings::AppSettings;
use automated_invoice_uploader::settings_page::SettingsStatus;

fn key(code: KeyCode) -> KeyInput {
    KeyInput { code, control: false }
}

fn app() -> App {
    let settings = AppSettings { language: Language::English, ..AppSettings::default() };
    App::new(settings, CalendarDate { year: 2026, month: 5, day: 20 })
}

fn candidate(id: &str) -> CandidateEmail {
    let attachment = AttachmentSummary {
        filename: format!("{id}.json"),
        attachment_id: Some("a".to_string()),
        mime_type: String::new(),
        size: None,
    };
    CandidateEmail {
        id: id.to_string(),
        thread_id: String::new(),
        from: String::new(),
        subject: String::new(),
        received_at: String::new(),
        snippet: String::new(),
        internal_date_ms: None,
        pdf_attachments: vec![attachment.clone()],
        json_attachments: vec![attachment],
    }
}

#[test]
fn s_on_the_home_page_starts_the_search() {
    let mut app = app();
    let (action, command) = app.handle_key(key(KeyCode::Char('s')));
    assert_eq!(action, AppAction::Continue);
    match command {
        AppCommand::Search { range, dte_query_filter } => {
            assert_eq!(range.initial_date(), "2026-05-01");
            assert_eq!(range.final_date(), "2026-05-31");
            assert_eq!(dte_query_filter, "DTE-03");
        }
        _ => panic!("search"),
    }
    assert!(app.is_searching());
    assert!(matches!(app.home_status(), HomePageStatus::Searching { initial_date: "2026-05-01", frame: 0, .. }));
    let (action, command) = app.handle_key(key(KeyCode::Tab));
    assert_eq!(action, AppAction::Continue);
    assert!(matches!(command, AppCommand::Nothing));
    assert_eq!(app.handle_key(key(KeyCode::Char('q'))).0, AppAction::Quit);
}

#[test]
fn a_reversed_period_is_reported_on_the_home_page() {
    let mut app = app();
    app.handle_key(key(KeyCode::Tab));
    app.handle_key(key(KeyCode::Char(' ')));
    app.handle_key(key(KeyCode::PageUp));
    app.handle_key(key(KeyCode::Esc));
    let (_, command) = app.handle_key(key(KeyCode::Char('s')));
    assert!(matches!(command, AppCommand::Nothing));
    match app.home_status() {
        HomePageStatus::Error(message) => assert_eq!(message, "Initial date must be before or equal to final date."),
        _ => panic!("error"),
    }
    app.handle_key(key(KeyCode::Tab));
    assert!(matches!(app.home_status(), HomePageStatus::Idle));
}

#[test]
fn search_results_lead_to_the_review() {
    let mut app = app();
    app.handle_key(key(KeyCode::Char('s')));
    app.tick(None);
    assert!(matches!(app.home_status(), HomePageStatus::Searching { frame: 1, .. }));
    app.tick(Some(SearchEvent::Finished(Ok(vec![candidate("one"), candidate("two")]))));
    assert_eq!(app.screen(), Screen::Results);
    assert_eq!(app.results().len(), 2);
    assert!(app.results_page().is_email_selected(&app.results()[1]));
    app.handle_key(key(KeyCode::Down));
    app.handle_key(key(KeyCode::Char(' ')));
    let (_, command) = app.handle_key(key(KeyCode::Enter));
    assert_eq!(app.screen(), Screen::Review);
    assert!(matches!(command, AppCommand::LoadReview(ref email) if email.id == "one"));
    let command = app.on_review_event(ReviewEvent::Loaded(Err(ReviewError::MissingJson)));
    assert!(matches!(command, AppCommand::Nothing));
    let (_, command) = app.handle_key(key(KeyCode::Char('n')));
    assert!(matches!(command, AppCommand::Nothing));
    assert!(matches!(app.review().review_view(), ReviewView::Complete { processed: 0, skipped: 1, .. }));
    app.handle_key(key(KeyCode::Enter));
    assert_eq!(app.screen(), Screen::Results);
    app.handle_key(key(KeyCode::Char('b')));
    assert_eq!(app.screen(), Screen::Home);
}

#[test]
fn a_failed_search_is_shown() {
    let mut app = app();
    app.handle_key(key(KeyCode::Char('s')));
    app.tick(Some(SearchEvent::Finished(Err(GmailSearchError::CliNotFound))));
    match app.home_status() {
        HomePageStatus::Error(message) => assert_eq!(message, "gws CLI was not found in PATH."),
        _ => panic!("error"),
    }
    app.handle_key(key(KeyCode::Char('s')));
    app.tick(Some(SearchEvent::Stopped));
    match app.home_status() {
        HomePageStatus::Error(message) => assert_eq!(message, "Gmail search stopped unexpectedly."),
        _ => panic!("error"),
    }
}

#[test]
fn settings_are_saved_through_the_form() {
    let mut app = app();
    app.handle_key(key(KeyCode::Char('S')));
    assert_eq!(app.screen(), Screen::Settings);
    for _ in 0.."downloaded_invoices".len() {
        app.handle_key(key(KeyCode::Backspace));
    }
    let (_, command) = app.handle_key(key(KeyCode::Enter));
    assert!(matches!(command, AppCommand::Nothing));
    assert!(matches!(app.settings_page().status(), Some(SettingsStatus::Error(_))));
    app.handle_key(key(KeyCode::Char('x')));
    let (_, command) = app.handle_key(key(KeyCode::Enter));
    let settings = match command {
        AppCommand::SaveSettings(settings) => settings,
        _ => panic!("save"),
    };
    assert_eq!(settings.download_dir, "x");
    app.settings_saved(settings, Ok(()));
    assert_eq!(app.settings().download_dir, "x");
    assert_eq!(app.settings_page().status(), Some(&SettingsStatus::Saved));
    app.settings_saved(AppSettings::default(), Err("read-only".to_string()));
    assert_eq!(app.settings().download_dir, "x");
    app.handle_key(key(KeyCode::Esc));
    assert_eq!(app.screen(), Screen::Home);
    assert_eq!(app.handle_key(key(KeyCode::Char('q'))).0, AppAction::Quit);
}

#[test]
fn a_period_before_year_one_is_refused_as_the_range_reader_refuses_it() {
    let settings = AppSettings { language: Language::English, ..AppSettings::default() };
    let mut app = App::new(settings, CalendarDate { year: 0, month: 5, day: 20 });
    let (_, command) = app.handle_key(key(KeyCode::Char('s')));
    assert!(matches!(command, AppCommand::Nothing));
    match app.home_status() {
        HomePageStatus::Error(message) => assert_eq!(message, "Initial date must use a valid YYYY-MM-DD value."),
        _ => panic!("error"),
    }
}
