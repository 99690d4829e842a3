use automated_invoice_uploader::i18n::{messages_for, Language};
use automated_invoice_uploader::loader::{
    lane_label, meter_cells, percent_text, progress, scan_cells, spinner, stage, ScanCell, BAR_WIDTH, SCAN_WIDTH,
};

#[test]
fn the_spinner_and_the_stage_turn_with_the_frames() {
    assert_eq!(spinner(0), "|");
    assert_eq!(spinner(1), "/");
    assert_eq!(spinner(2), "-");
    assert_eq!(spinner(7), "\\");
    let text = messages_for(Language::English);
    assert_eq!(stage(0, &text), text.search_loader_stage_query);
    assert_eq!(stage(8, &text), text.search_loader_stage_pdf);
    assert_eq!(stage(23, &text), text.search_loader_stage_json);
    assert_eq!(stage(31, &text), text.search_loader_stage_match);
    assert_eq!(stage(32, &text), text.search_loader_stage_query);
}

#[test]
fn progress_advances_three_percent_a_frame() {
    assert_eq!(progress(0), 0);
    assert_eq!(progress(5), 15);
    assert_eq!(progress(34), 2);
    assert_eq!(progress(usize::MAX), (usize::MAX % 100) * 3 % 100);
    assert_eq!(percent_text(7), "] 07%");
    assert_eq!(percent_text(42), "] 42%");
}

#[test]
fn the_meter_fills_at_least_one_cell() {
    let cells = meter_cells(0, 0);
    assert_eq!(cells.len(), BAR_WIDTH);
    assert_eq!(cells.iter().filter(|c| c.filled).count(), 1);
    let cells = meter_cells(50, 3);
    assert_eq!(cells.iter().filter(|c| c.filled).count(), 19);
    assert!(cells[2].bright);
    assert!(!cells[0].bright);
}

#[test]
fn the_scan_head_moves_around_the_lane() {
    let cells = scan_cells(0, 0);
    assert_eq!(cells.len(), SCAN_WIDTH);
    assert_eq!(cells[0], ScanCell::Head);
    assert_eq!(cells[2], ScanCell::Near);
    assert_eq!(cells[4], ScanCell::Trail);
    assert_eq!(cells[5], ScanCell::Empty);
    let cells = scan_cells(40, 11);
    assert_eq!(cells[7], ScanCell::Head);
    assert_eq!(cells[6], ScanCell::Near);
}

#[test]
fn lane_labels_are_padded() {
    assert_eq!(lane_label("PDF"), "PDF        ");
    assert_eq!(lane_label("Correlacion"), "Correlacion ");
    assert_eq!(lane_label("Añoñoñoño"), "Añoñoñoño  ");
}
