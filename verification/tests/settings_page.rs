use automated_invoice_uploader::i18n::Language;
use automated_invoice_uploader::keys::{KeyCode, KeyInput};
use automated_invoice_uploader::settings::AppSettings;
use automated_invoice_uploader::settings_page::{SettingsField, SettingsPage, SettingsPageAction, SettingsStatus};

fn key(code: KeyCode) -> KeyInput {
    KeyInput { code, control: false }
}

fn filled() -> SettingsPage {
    let mut page = SettingsPage::new();
    page.reset(&AppSettings::default());
    page
}

#[test]
fn typing_edits_the_focused_field() {
    let mut page = filled();
    assert!(matches!(page.handle_key(key(KeyCode::Char('x'))), SettingsPageAction::Continue));
    assert_eq!(page.input().download_dir, "downloaded_invoicesx");
    page.handle_key(key(KeyCode::Backspace));
    page.handle_key(key(KeyCode::Backspace));
    assert_eq!(page.input().download_dir, "downloaded_invoice");
    page.handle_key(key(KeyCode::Tab));
    assert_eq!(page.focused_field(), SettingsField::DriveRootFolder);
    page.handle_key(key(KeyCode::Char('!')));
    assert_eq!(page.input().drive_root_folder, "CARLOS ROLANDO MORAN CAMPOS!");
}

#[test]
fn typing_then_deleting_restores_the_text() {
    let mut page = filled();
    page.push_character('z');
    page.delete_character();
    assert_eq!(page.input().download_dir, "downloaded_invoices");
}

#[test]
fn the_focus_cycles_both_ways() {
    let mut page = filled();
    page.handle_key(key(KeyCode::BackTab));
    assert_eq!(page.focused_field(), SettingsField::Language);
    page.handle_key(key(KeyCode::Tab));
    assert_eq!(page.focused_field(), SettingsField::DownloadDir);
    for _ in 0..4 {
        page.focus_next();
    }
    assert_eq!(page.focused_field(), SettingsField::DownloadDir);
}

#[test]
fn the_language_field_switches_language() {
    let mut page = filled();
    page.focus_previous();
    page.handle_key(key(KeyCode::Char(' ')));
    assert_eq!(page.input().language, Language::English);
    page.handle_key(key(KeyCode::Left));
    assert_eq!(page.input().language, Language::Spanish);
    page.handle_key(key(KeyCode::Char('x')));
    assert_eq!(page.input().language, Language::Spanish);
    assert_eq!(page.input().download_dir, "downloaded_invoices");
}

#[test]
fn save_back_and_quit() {
    let mut page = filled();
    match page.handle_key(key(KeyCode::Enter)) {
        SettingsPageAction::Save(input) => {
            assert_eq!(input.download_dir, "downloaded_invoices");
            assert_eq!(input.dte_query_filter, "DTE-03");
        }
        _ => panic!("Enter saves"),
    }
    assert!(matches!(page.handle_key(key(KeyCode::Esc)), SettingsPageAction::Back));
    assert!(matches!(page.handle_key(KeyInput { code: KeyCode::Char('q'), control: true }), SettingsPageAction::Quit));
    assert!(matches!(page.handle_key(key(KeyCode::Char('q'))), SettingsPageAction::Continue));
    assert_eq!(page.input().download_dir, "downloaded_invoicesq");
}

#[test]
fn the_status_shows_the_last_save() {
    let mut page = filled();
    assert!(page.status().is_none());
    page.mark_saved();
    assert_eq!(page.status(), Some(&SettingsStatus::Saved));
    page.mark_error("disk full".to_string());
    assert_eq!(page.status(), Some(&SettingsStatus::Error("disk full".to_string())));
    page.handle_key(key(KeyCode::Char('a')));
    assert!(page.status().is_none());
}
