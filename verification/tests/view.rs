use o3_manager::layout::{centered_rect, screen_areas};
use o3_manager::manager::{App, Mode};
use o3_manager::model::{Direct, ItemKind, Polarity, O3};
use o3_manager::view::{
    count_label, date_option_line, date_popup_heading, date_popup_title, detail_title, entry_prefix,
    entry_text_title, is_dimmed, list_date_text, entry_output, padded_list_date, padded_name,
    date_option_lines, DetailRow,
};
use o3_manager::dates::decimal_string;
use o3_manager::model::Entry;

#[test]
fn direct_names() {
    assert_eq!(Direct::Mario.name(), "Mario");
    assert_eq!(Direct::Martins.name(), "Martins");
}

#[test]
fn count_labels() {
    assert_eq!(count_label(0), "empty");
    assert_eq!(count_label(1), "1 item");
    assert_eq!(count_label(2), "2 items");
    assert_eq!(count_label(120), "120 items");
}

#[test]
fn list_date_texts() {
    assert_eq!(list_date_text(None, 0), "No date set");
    assert_eq!(list_date_text(Some(7), 0), "Thu Jan 8");
    assert_eq!(list_date_text(Some(7), 7), "Thu Jan 8 (Today!)");
}

#[test]
fn detail_titles() {
    assert_eq!(detail_title(Direct::Mario, None, 0), " Mario ─ No date  (press 't' to set) ");
    assert_eq!(detail_title(Direct::Martins, Some(0), 3), " Martins ─ Thu Jan 1 (past) ");
}

#[test]
fn dimmed_rows() {
    assert!(is_dimmed(None, 10));
    assert!(is_dimmed(Some(9), 10));
    assert!(!is_dimmed(Some(10), 10));
    assert!(!is_dimmed(Some(11), 10));
}

#[test]
fn entry_prefixes() {
    assert_eq!(entry_prefix(&ItemKind::Feedback { polarity: Polarity::Positive, output: None }), "[+]");
    assert_eq!(entry_prefix(&ItemKind::Feedback { polarity: Polarity::Negative, output: None }), "[-]");
    assert_eq!(entry_prefix(&ItemKind::Topic { output: Some("x".to_string()) }), "[T]");
}

#[test]
fn date_popup_texts() {
    assert_eq!(date_option_line(1, 0, 0), "  [1]  Thu Jan 1 (Today!)");
    assert_eq!(date_option_line(8, 35, 0), "  [8]  Thu Feb 5");
    assert_eq!(date_popup_heading("Mario"), "  Set date for Mario's O3:");
    assert_eq!(date_popup_title("?"), " Set Date – ? ");
    assert_eq!(entry_text_title(true), " Topic text (Enter:save  Esc:cancel) ");
    assert_eq!(entry_text_title(false), " Feedback text (Enter:save  Esc:cancel) ");
}

#[test]
fn selected_rows_and_people() {
    let mut app = App {
        o3s: vec![O3 { id: 0, direct: Direct::Martins, date_days: None, entries: Vec::new() }],
        next_id: 1,
        selected: 0,
        mode: Mode::O3List,
    };
    assert!(app.list_row_selected(0));
    assert!(!app.list_row_selected(1));
    assert!(!app.entry_row_selected(0));
    app.mode = Mode::O3Detail { o3_idx: 0, prev_list_selected: 0 };
    assert!(!app.list_row_selected(0));
    assert!(app.entry_row_selected(0));
    assert_eq!(app.person_of(0), "Martins");
    assert_eq!(app.person_of(1), "?");
}

#[test]
fn centered_rect_halves() {
    assert_eq!(centered_rect(50, 50, (0, 0, 100, 100)), (25, 25, 50, 50));
    assert_eq!(centered_rect(100, 100, (3, 4, 20, 10)), (3, 4, 20, 10));
    assert_eq!(centered_rect(50, 50, (10, 20, 100, 100)), (35, 45, 50, 50));
}

#[test]
fn screen_areas_body_and_bar() {
    assert_eq!(screen_areas((0, 0, 80, 24)), ((0, 0, 80, 21), (0, 21, 80, 3)));
}

#[test]
fn padded_columns() {
    assert_eq!(padded_name(Direct::Mario), "Mario   ");
    assert_eq!(padded_name(Direct::Martins), "Martins ");
    assert_eq!(padded_list_date(None, 0), format!("{:<28}", "No date set"));
    assert_eq!(padded_list_date(Some(0), 5).len(), 28);
    assert_eq!(padded_list_date(Some(0), 5), "Thu Jan 1 (past)            ");
}

#[test]
fn entry_outputs() {
    assert_eq!(entry_output(&ItemKind::Topic { output: Some("x".to_string()) }), Some(&"x".to_string()));
    assert_eq!(entry_output(&ItemKind::Feedback { polarity: Polarity::Negative, output: None }), None);
}

#[test]
fn decimal_strings() {
    assert_eq!(decimal_string(0), "0");
    assert_eq!(decimal_string(7), "7");
    assert_eq!(decimal_string(10), "10");
    assert_eq!(decimal_string(1907), "1907");
    assert_eq!(decimal_string(u64::MAX), u64::MAX.to_string());
}

#[test]
fn date_option_lines_list_the_thursdays() {
    let lines = date_option_lines(3);
    assert_eq!(lines.len(), 8);
    assert_eq!(lines[0], "  [1]  Thu Dec 18 (past)");
    assert_eq!(lines[2], "  [3]  Thu Jan 1 (past)");
    assert_eq!(lines[3], "  [4]  Thu Jan 8");
    assert_eq!(lines[7], "  [8]  Thu Feb 5");
}

fn meeting(entries: Vec<Entry>) -> O3 {
    O3 { id: 0, direct: Direct::Mario, date_days: None, entries }
}

#[test]
fn detail_rows_show_outputs_below_entries() {
    let entries = vec![
        Entry { text: "a".to_string(), kind: ItemKind::Topic { output: Some("done".to_string()) } },
        Entry { text: "b".to_string(), kind: ItemKind::Feedback { polarity: Polarity::Positive, output: None } },
    ];
    let mut app = App { o3s: vec![meeting(entries), meeting(vec![])], next_id: 2, selected: 1, mode: Mode::O3Detail { o3_idx: 0, prev_list_selected: 0 } };
    assert_eq!(
        app.detail_rows(0),
        Some(vec![
            DetailRow::Entry { entry_idx: 0, selected: false },
            DetailRow::Output { entry_idx: 0 },
            DetailRow::Entry { entry_idx: 1, selected: true },
        ])
    );
    assert_eq!(app.detail_rows(1), Some(vec![DetailRow::Empty]));
    assert_eq!(app.detail_rows(2), None);
    app.mode = Mode::SettingDate { o3_idx: 0 };
    assert_eq!(app.detail_rows(0).unwrap()[2], DetailRow::Entry { entry_idx: 1, selected: false });
}

#[test]
fn list_rows_in_display_order() {
    let app = App {
        o3s: vec![
            O3 { id: 0, direct: Direct::Mario, date_days: Some(0), entries: vec![] },
            O3 { id: 1, direct: Direct::Martins, date_days: Some(7), entries: vec![] },
        ],
        next_id: 2,
        selected: 0,
        mode: Mode::O3List,
    };
    let rows = app.list_rows_for(3);
    assert_eq!(rows.len(), 2);
    assert_eq!(rows[0].o3_idx, 1);
    assert!(rows[0].selected && !rows[0].dimmed);
    assert_eq!(rows[0].name, "Martins ");
    assert_eq!(rows[0].date, format!("{:<28}", "Thu Jan 8"));
    assert_eq!(rows[0].count, "empty");
    assert_eq!(rows[1].o3_idx, 0);
    assert!(!rows[1].selected && rows[1].dimmed);
}

#[test]
fn popups_lie_within_the_screen() {
    let screen = (2, 3, 81, 25);
    for (px, py) in [(44, 55), (46, 80), (65, 20), (44, 50), (0, 0), (100, 100), (99, 1)] {
        let (x, y, w, h) = centered_rect(px, py, screen);
        assert!(screen.0 <= x && x + w <= screen.0 + screen.2);
        assert!(screen.1 <= y && y + h <= screen.1 + screen.3);
    }
}
