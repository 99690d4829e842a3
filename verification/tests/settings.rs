use automated_invoice_uploader::i18n::{messages_for, Language};
use automated_invoice_uploader::settings::{settings_from_input, temporary_settings_path, AppSettings, SettingsInput};

#[test]
fn default_settings_preserve_current_workflow() {
    let settings = AppSettings::default();

    assert_eq!(settings.download_dir, "downloaded_invoices");
    assert_eq!(settings.drive_root_folder, "CARLOS ROLANDO MORAN CAMPOS");
    assert_eq!(settings.language, Language::Spanish);
    assert_eq!(settings.dte_query_filter, "DTE-03");
}

fn input(download_dir: &str, drive_root_folder: &str, dte_query_filter: &str) -> SettingsInput {
    SettingsInput {
        download_dir: download_dir.to_string(),
        drive_root_folder: drive_root_folder.to_string(),
        dte_query_filter: dte_query_filter.to_string(),
        language: Language::English,
    }
}

#[test]
fn settings_are_trimmed() {
    let text = messages_for(Language::English);
    let settings = settings_from_input(input("  out  ", " Drive ", "  DTE-03 "), &text).unwrap();
    assert_eq!(settings.download_dir, "out");
    assert_eq!(settings.drive_root_folder, "Drive");
    assert_eq!(settings.dte_query_filter, "DTE-03");
    assert_eq!(settings.language, Language::English);
    let settings = settings_from_input(input("out", "Drive", "   "), &text).unwrap();
    assert_eq!(settings.dte_query_filter, "");
}

#[test]
fn blank_folders_are_rejected() {
    let text = messages_for(Language::English);
    assert_eq!(
        settings_from_input(input("  ", "Drive", ""), &text),
        Err(text.settings_empty_download_dir.to_string())
    );
    assert_eq!(
        settings_from_input(input("out", "\t", ""), &text),
        Err(text.settings_empty_drive_root_folder.to_string())
    );
    assert_eq!(
        settings_from_input(input(" ", " ", ""), &text),
        Err(text.settings_empty_download_dir.to_string())
    );
}

#[test]
fn the_temporary_file_replaces_the_extension() {
    assert_eq!(temporary_settings_path("/home/me/.config/app/settings.json"), "/home/me/.config/app/settings.json.tmp");
    assert_eq!(temporary_settings_path("settings"), "settings.json.tmp");
}
