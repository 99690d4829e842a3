use automated_invoice_uploader::gmail_search::{AttachmentSummary, CandidateEmail};
use automated_invoice_uploader::i18n::{messages_for, Language};
use automated_invoice_uploader::keys::{KeyCode, KeyInput};
use automated_invoice_uploader::results_page::{
    attachment_names, display_or, truncate, wrapped_line_count, ResultsPage, ResultsPageAction,
};

fn candidate(id: &str) -> CandidateEmail {
    CandidateEmail {
        id: id.to_string(),
        thread_id: String::new(),
        from: String::new(),
        subject: String::new(),
        received_at: String::new(),
        snippet: String::new(),
        internal_date_ms: None,
        pdf_attachments: Vec::new(),
        json_attachments: Vec::new(),
    }
}

fn key(code: KeyCode) -> KeyInput {
    KeyInput { code, control: false }
}

#[test]
fn reset_selects_all_emails_by_default() {
    let emails = vec![candidate("one"), candidate("two")];
    let mut page = ResultsPage::default();

    page.reset(&emails);

    assert!(page.is_email_selected(&emails[0]));
    assert!(page.is_email_selected(&emails[1]));
}

#[test]
fn space_toggles_highlighted_email_selection() {
    let emails = vec![candidate("one"), candidate("two")];
    let mut page = ResultsPage::default();
    page.reset(&emails);

    page.toggle_selected_email(&emails);
    assert!(!page.is_email_selected(&emails[0]));

    page.toggle_selected_email(&emails);
    assert!(page.is_email_selected(&emails[0]));
}

#[test]
fn keys_move_the_highlight_within_the_list() {
    let emails = vec![candidate("one"), candidate("two"), candidate("three")];
    let mut page = ResultsPage::default();
    page.reset(&emails);
    assert!(matches!(page.handle_key(key(KeyCode::Up), &emails), ResultsPageAction::Continue));
    assert!(matches!(page.handle_key(key(KeyCode::Down), &emails), ResultsPageAction::Continue));
    assert!(matches!(page.handle_key(key(KeyCode::Char(' ')), &emails), ResultsPageAction::Continue));
    assert!(page.is_email_selected(&emails[0]));
    assert!(!page.is_email_selected(&emails[1]));
    page.handle_key(key(KeyCode::Down), &emails);
    page.handle_key(key(KeyCode::Down), &emails);
    page.handle_key(key(KeyCode::Char(' ')), &emails);
    assert!(!page.is_email_selected(&emails[2]));
    let selected = page.selected_emails(&emails);
    assert_eq!(selected.len(), 1);
    assert_eq!(selected[0].id, "one");
}

#[test]
fn enter_reviews_only_with_a_selection() {
    let emails = vec![candidate("one")];
    let mut page = ResultsPage::default();
    page.reset(&emails);
    assert!(matches!(page.handle_key(key(KeyCode::Enter), &emails), ResultsPageAction::ReviewSelected));
    page.handle_key(key(KeyCode::Char(' ')), &emails);
    assert!(!page.has_selection());
    assert!(matches!(page.handle_key(key(KeyCode::Enter), &emails), ResultsPageAction::Continue));
    assert!(matches!(page.handle_key(key(KeyCode::Char('b')), &emails), ResultsPageAction::Back));
    assert!(matches!(page.handle_key(key(KeyCode::Esc), &emails), ResultsPageAction::Back));
    assert!(matches!(page.handle_key(key(KeyCode::Char('q')), &emails), ResultsPageAction::Quit));
}

#[test]
fn toggling_twice_restores_the_selection() {
    let emails = vec![candidate("a"), candidate("b")];
    let mut page = ResultsPage::default();
    page.reset(&emails);
    page.toggle_selected_email(&emails);
    page.toggle_selected_email(&emails);
    assert!(page.is_email_selected(&emails[0]));
    assert!(page.is_email_selected(&emails[1]));
}

#[test]
fn detail_text_helpers() {
    let text = messages_for(Language::English);
    assert_eq!(display_or("  ", "(none)"), "(none)");
    assert_eq!(display_or("x", "(none)"), "x");
    assert_eq!(truncate("abcdef", 3), "abc...");
    assert_eq!(truncate("abc", 3), "abc");
    assert_eq!(wrapped_line_count("", 10), 1);
    assert_eq!(wrapped_line_count("abcdefghijk", 5), 3);
    assert_eq!(wrapped_line_count("ab\ncd", 5), 2);
    let attachments = vec![
        AttachmentSummary {
            filename: "a.pdf".to_string(),
            attachment_id: None,
            mime_type: String::new(),
            size: None,
        },
        AttachmentSummary {
            filename: "b.pdf".to_string(),
            attachment_id: None,
            mime_type: String::new(),
            size: None,
        },
    ];
    assert_eq!(attachment_names(&attachments), "a.pdf, b.pdf");
    assert_eq!(text.search_criteria_title, "Search Criteria");
}

#[test]
fn list_rows_and_the_visible_range() {
    let text = messages_for(Language::English);
    let mut email = candidate("one");
    email.received_at = "Fri, 01 May 2026 09:00:00 -0600".to_string();
    email.from = "Vendor <vendor@example.com>".to_string();
    email.subject = "Factura".to_string();
    assert_eq!(
        automated_invoice_uploader::results_page::list_row(&email, true, true, &text),
        "> [x] Fri, 01 May 2026 09:00...  Vendor <vendor@example.com>  Factura"
    );
    let blank = candidate("two");
    assert_eq!(
        automated_invoice_uploader::results_page::list_row(&blank, false, false, &text),
        format!("  [ ] {}  {}  {}", text.unknown_date, text.unknown_sender, text.no_subject)
    );
    let emails = vec![candidate("a"), candidate("b"), candidate("c")];
    let mut page = ResultsPage::default();
    page.reset(&emails);
    assert_eq!(page.visible_range(2, 3), (0, 2));
    page.move_selection_down(3);
    page.move_selection_down(3);
    assert_eq!(page.selected(), 2);
    assert_eq!(page.scroll_offset(), 1);
    assert_eq!(page.visible_range(5, 3), (1, 3));
    assert_eq!(page.selected_count(), 3);
}

#[test]
fn the_details_scroll_stops_at_the_end() {
    let text = messages_for(Language::English);
    let emails = vec![candidate("a")];
    let mut page = ResultsPage::default();
    page.reset(&emails);
    for _ in 0..10 {
        page.scroll_details_down();
    }
    assert_eq!(page.details_scroll(), 50);
    assert_eq!(
        automated_invoice_uploader::results_page::max_details_scroll(&emails[0], &text, 40, 5),
        4
    );
    assert_eq!(page.shown_details_scroll(&emails[0], &text, 40, 5), 4);
    page.scroll_details_up();
    assert_eq!(page.details_scroll(), 45);
}
