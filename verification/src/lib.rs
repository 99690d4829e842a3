pub mod date_range;
pub mod text;
pub mod i18n;
pub mod json;
pub mod gmail_search;
pub mod invoice;
pub mod invoice_files;
pub mod drive_upload;
pub mod settings;
pub mod keys;
pub mod settings_page;
pub mod results_page;
pub mod review;
pub mod home;
pub mod app;
pub mod review_page;
pub mod loader;
