use automated_invoice_uploader::home::{
    add_days, add_months, first_day_of_month, CalendarDate, format_date, last_day_of_month, DateField, HomePage, HomePageAction,
};
use automated_invoice_uploader::i18n::{messages_for, Language};
use automated_invoice_uploader::keys::{KeyCode, KeyInput};

fn key(code: KeyCode) -> KeyInput {
    KeyInput { code, control: false }
}

fn date(year: i16, month: u8, day: u8) -> CalendarDate {
    CalendarDate { year, month, day }
}

#[test]
fn the_form_opens_on_the_current_month() {
    let page = HomePage::new(date(2024, 2, 14));
    assert_eq!(page.initial_date(), date(2024, 2, 1));
    assert_eq!(page.final_date(), date(2024, 2, 29));
    assert_eq!(page.focused_field(), DateField::Initial);
    assert!(!page.picker_open());
}

#[test]
fn s_submits_the_dates() {
    let mut page = HomePage::new(date(2026, 5, 20));
    match page.handle_key(key(KeyCode::Char('s'))) {
        HomePageAction::Submit(criteria) => {
            assert_eq!(criteria.initial_date, "2026-05-01");
            assert_eq!(criteria.final_date, "2026-05-31");
        }
        _ => panic!("s submits"),
    }
}

#[test]
fn quit_and_settings_keys() {
    let mut page = HomePage::new(date(2026, 5, 20));
    assert!(matches!(page.handle_key(key(KeyCode::Char('q'))), HomePageAction::Quit));
    assert!(matches!(page.handle_key(key(KeyCode::Char('S'))), HomePageAction::OpenSettings));
    assert!(matches!(page.handle_key(key(KeyCode::Char('s'))), HomePageAction::Submit(_)));
    assert!(matches!(page.handle_key(key(KeyCode::Char('x'))), HomePageAction::Continue));
}

#[test]
fn the_picker_moves_the_focused_date() {
    let mut page = HomePage::new(date(2026, 5, 20));
    assert!(matches!(page.handle_key(key(KeyCode::Char(' '))), HomePageAction::Continue));
    assert!(page.picker_open());
    page.handle_key(key(KeyCode::Left));
    assert_eq!(page.initial_date(), date(2026, 4, 30));
    page.handle_key(key(KeyCode::Char('j')));
    assert_eq!(page.initial_date(), date(2026, 5, 7));
    page.handle_key(key(KeyCode::PageDown));
    assert_eq!(page.initial_date(), date(2026, 6, 7));
    page.handle_key(key(KeyCode::End));
    assert_eq!(page.initial_date(), date(2026, 6, 30));
    page.handle_key(key(KeyCode::Home));
    assert_eq!(page.initial_date(), date(2026, 6, 1));
    page.handle_key(key(KeyCode::Tab));
    assert!(!page.picker_open());
    assert_eq!(page.focused_field(), DateField::Final);
    page.handle_key(key(KeyCode::Char(' ')));
    page.handle_key(key(KeyCode::PageUp));
    assert_eq!(page.final_date(), date(2026, 4, 30));
    page.handle_key(key(KeyCode::Esc));
    assert!(!page.picker_open());
    assert_eq!(page.active_date(), date(2026, 4, 30));
}

#[test]
fn tab_switches_the_field_and_back() {
    let mut page = HomePage::new(date(2026, 5, 20));
    page.handle_key(key(KeyCode::Tab));
    assert_eq!(page.focused_field(), DateField::Final);
    page.handle_key(key(KeyCode::BackTab));
    assert_eq!(page.focused_field(), DateField::Initial);
}

#[test]
fn a_day_forward_then_back_is_the_same_day() {
    for d in [date(2024, 2, 29), date(2025, 12, 31), date(2026, 1, 1), date(2026, 3, 1)] {
        assert_eq!(add_days(add_days(d, 1), -1), d);
        assert_eq!(add_days(add_days(d, -1), 1), d);
    }
    assert_eq!(add_days(date(2025, 12, 28), 7), date(2026, 1, 4));
    assert_eq!(add_days(date(2024, 3, 3), -7), date(2024, 2, 25));
}

#[test]
fn month_moves_keep_the_day_when_they_can() {
    assert_eq!(add_months(date(2026, 1, 31), 1), date(2026, 2, 28));
    assert_eq!(add_months(date(2024, 1, 31), 1), date(2024, 2, 29));
    assert_eq!(add_months(date(2026, 12, 15), 1), date(2027, 1, 15));
    assert_eq!(add_months(date(2026, 1, 15), -1), date(2025, 12, 15));
    assert_eq!(add_months(date(2026, 3, 31), -1), date(2026, 2, 28));
    assert_eq!(first_day_of_month(date(2026, 3, 31)), date(2026, 3, 1));
    assert_eq!(last_day_of_month(date(2026, 4, 2)), date(2026, 4, 30));
    assert_eq!(format_date(date(987, 3, 4)), "0987-03-04");
}

#[test]
fn hints_follow_the_focus() {
    let text = messages_for(Language::English);
    let mut page = HomePage::new(date(2026, 5, 20));
    assert_eq!(page.field_hint(DateField::Initial, &text), text.press_space_to_open);
    assert_eq!(page.field_hint(DateField::Final, &text), text.press_tab_to_focus);
    page.handle_key(key(KeyCode::Char(' ')));
    assert_eq!(page.field_hint(DateField::Initial, &text), text.calendar_is_open);
}

#[test]
fn enter_opens_the_calendar_and_closes_it() {
    let mut page = HomePage::new(date(2026, 5, 20));
    assert!(matches!(page.handle_key(key(KeyCode::Enter)), HomePageAction::Continue));
    assert!(page.picker_open());
    assert!(matches!(page.handle_key(key(KeyCode::Char('s'))), HomePageAction::OpenSettings));
    assert!(page.picker_open());
    assert!(matches!(page.handle_key(key(KeyCode::Enter)), HomePageAction::Continue));
    assert!(!page.picker_open());
    assert!(matches!(page.handle_key(key(KeyCode::Char('S'))), HomePageAction::OpenSettings));
}

#[test]
fn the_picker_moves_up_to_the_ends_of_the_calendar() {
    let mut page = HomePage::new(date(9999, 11, 20));
    page.handle_key(key(KeyCode::Char(' ')));
    assert!(page.can_take(key(KeyCode::PageDown)));
    page.handle_key(key(KeyCode::PageDown));
    assert_eq!(page.initial_date(), date(9999, 12, 1));
    assert!(!page.can_take(key(KeyCode::PageDown)));
    assert!(page.can_take(key(KeyCode::Down)));
    page.handle_key(key(KeyCode::End));
    assert_eq!(page.initial_date(), date(9999, 12, 31));
    assert!(!page.can_take(key(KeyCode::Right)));
    assert!(!page.can_take(key(KeyCode::Down)));
    assert!(page.can_take(key(KeyCode::Left)));
    assert!(page.can_take(key(KeyCode::Esc)));

    let mut page = HomePage::new(date(1, 1, 20));
    page.handle_key(key(KeyCode::Enter));
    assert_eq!(page.initial_date(), date(1, 1, 1));
    assert!(page.can_take(key(KeyCode::Left)));
    page.handle_key(key(KeyCode::Left));
    assert_eq!(page.initial_date(), date(0, 12, 31));
    page.handle_key(key(KeyCode::PageUp));
    assert_eq!(page.initial_date(), date(0, 11, 30));
    assert_eq!(format_date(page.initial_date()), "0000-11-30");

    let mut page = HomePage::new(date(-9999, 1, 20));
    page.handle_key(key(KeyCode::Enter));
    assert_eq!(page.initial_date(), date(-9999, 1, 1));
    assert!(!page.can_take(key(KeyCode::PageUp)));
    assert!(!page.can_take(key(KeyCode::Up)));
    assert!(!page.can_take(key(KeyCode::Left)));
    assert!(page.can_take(key(KeyCode::Right)));
    page.handle_key(key(KeyCode::Down));
    assert_eq!(page.initial_date(), date(-9999, 1, 8));
    assert!(page.can_take(key(KeyCode::Up)));
    assert_eq!(format_date(page.initial_date()), "-9999-01-08");
}

#[test]
fn negative_and_zero_years_are_written_as_the_calendar_writes_them() {
    assert_eq!(format_date(date(-5, 3, 4)), "-005-03-04");
    assert_eq!(format_date(date(-123, 12, 31)), "-123-12-31");
    assert_eq!(format_date(date(0, 2, 29)), "0000-02-29");
    assert_eq!(last_day_of_month(date(-4, 2, 1)), date(-4, 2, 29));
    assert_eq!(last_day_of_month(date(-1, 2, 1)), date(-1, 2, 28));
    assert_eq!(add_months(date(-1, 12, 31), 1), date(0, 1, 31));
    assert_eq!(add_months(date(0, 1, 31), -1), date(-1, 12, 31));
    assert_eq!(add_days(date(0, 1, 1), -1), date(-1, 12, 31));
}
