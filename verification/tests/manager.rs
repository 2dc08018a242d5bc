use o3_manager::keys::Key;
use o3_manager::manager::{
    handle_adding_entry, handle_creating_o3, handle_editing_output, handle_o3_detail, handle_o3_list,
    handle_setting_date, Action, App, EntryStep, EntryWizard, Mode,
};
use o3_manager::model::{Direct, Entry, ItemKind, Polarity, Store, O3};

fn o3(id: u64, direct: Direct, date_days: Option<i64>) -> O3 {
    O3 { id, direct, date_days, entries: Vec::new() }
}

fn topic(text: &str, output: Option<&str>) -> Entry {
    Entry { text: text.to_string(), kind: ItemKind::Topic { output: output.map(|s| s.to_string()) } }
}

fn feedback(text: &str, polarity: Polarity) -> Entry {
    Entry { text: text.to_string(), kind: ItemKind::Feedback { polarity, output: None } }
}

fn app_with(o3s: Vec<O3>, next_id: u64) -> App {
    App { o3s, next_id, selected: 0, mode: Mode::O3List }
}

fn ids(app: &App) -> Vec<u64> {
    app.o3s.iter().map(|o| o.id).collect()
}

fn output_of(e: &Entry) -> Option<String> {
    match &e.kind {
        ItemKind::Topic { output } => output.clone(),
        ItemKind::Feedback { output, .. } => output.clone(),
    }
}

#[test]
fn new_app_shows_the_list() {
    let app = App::new(Store { o3s: vec![o3(4, Direct::Mario, None)], next_id: 5 });
    assert_eq!(ids(&app), vec![4]);
    assert_eq!(app.next_id, 5);
    assert_eq!(app.selected, 0);
    assert!(matches!(app.mode, Mode::O3List));
}

#[test]
fn default_store_is_empty() {
    let store = Store::default();
    assert!(store.o3s.is_empty());
    assert_eq!(store.next_id, 0);
}

#[test]
fn create_o3_uses_next_id() {
    let mut app = app_with(vec![o3(0, Direct::Mario, Some(3))], 1);
    let idx = app.create_o3(Direct::Martins);
    assert_eq!(idx, 1);
    assert_eq!(ids(&app), vec![0, 1]);
    assert_eq!(app.next_id, 2);
    assert_eq!(app.o3s[1].direct, Direct::Martins);
    assert_eq!(app.o3s[1].date_days, None);
    assert!(app.o3s[1].entries.is_empty());
}

#[test]
fn delete_o3_only_existing() {
    let mut app = app_with(vec![o3(0, Direct::Mario, None), o3(1, Direct::Martins, None)], 2);
    assert!(!app.delete_o3(2));
    assert_eq!(ids(&app), vec![0, 1]);
    assert!(app.delete_o3(0));
    assert_eq!(ids(&app), vec![1]);
}

#[test]
fn set_o3_date_only_existing() {
    let mut app = app_with(vec![o3(0, Direct::Mario, None)], 1);
    assert!(app.set_o3_date(0, Some(14)));
    assert_eq!(app.o3s[0].date_days, Some(14));
    assert!(app.set_o3_date(0, None));
    assert_eq!(app.o3s[0].date_days, None);
    assert!(!app.set_o3_date(3, Some(1)));
}

#[test]
fn add_entry_trims_and_skips_blank() {
    let mut app = app_with(vec![o3(0, Direct::Mario, None)], 1);
    let mut w = EntryWizard::new();
    w.text = "   ".to_string();
    assert!(!app.add_entry(0, &w));
    assert!(app.o3s[0].entries.is_empty());
    w.text = "  good work \n".to_string();
    assert!(app.add_entry(0, &w));
    assert_eq!(app.o3s[0].entries[0].text, "good work");
    assert!(matches!(app.o3s[0].entries[0].kind, ItemKind::Feedback { polarity: Polarity::Positive, output: None }));
    w.is_topic = true;
    w.text = "\u{3000}roadmap\u{a0}".to_string();
    assert!(app.add_entry(0, &w));
    assert_eq!(app.o3s[0].entries[1].text, "roadmap");
    assert!(matches!(app.o3s[0].entries[1].kind, ItemKind::Topic { output: None }));
    assert!(!app.add_entry(1, &w));
}

#[test]
fn add_entry_keeps_chosen_polarity() {
    let mut app = app_with(vec![o3(0, Direct::Mario, None)], 1);
    let mut w = EntryWizard::new();
    w.polarity = Some(Polarity::Negative);
    w.text = "late".to_string();
    assert!(app.add_entry(0, &w));
    assert!(matches!(app.o3s[0].entries[0].kind, ItemKind::Feedback { polarity: Polarity::Negative, .. }));
}

#[test]
fn delete_entry_only_existing() {
    let mut m = o3(0, Direct::Mario, None);
    m.entries = vec![topic("a", None), topic("b", None)];
    let mut app = app_with(vec![m], 1);
    assert!(!app.delete_entry(0, 2));
    assert!(!app.delete_entry(1, 0));
    assert!(app.delete_entry(0, 0));
    assert_eq!(app.o3s[0].entries.len(), 1);
    assert_eq!(app.o3s[0].entries[0].text, "b");
}

#[test]
fn commit_output_trims_or_clears() {
    let mut m = o3(0, Direct::Mario, None);
    m.entries = vec![topic("a", Some("old")), feedback("b", Polarity::Negative)];
    let mut app = app_with(vec![m], 1);
    assert!(app.commit_output(0, 1, "  agreed  "));
    assert_eq!(output_of(&app.o3s[0].entries[1]), Some("agreed".to_string()));
    assert!(matches!(app.o3s[0].entries[1].kind, ItemKind::Feedback { polarity: Polarity::Negative, .. }));
    assert!(app.commit_output(0, 0, "  "));
    assert_eq!(output_of(&app.o3s[0].entries[0]), None);
    assert_eq!(app.o3s[0].entries[0].text, "a");
    assert!(!app.commit_output(0, 5, "x"));
    assert!(!app.commit_output(2, 0, "x"));
}

#[test]
fn sorted_indices_upcoming_undated_past() {
    let app = app_with(
        vec![
            o3(0, Direct::Mario, Some(50)),
            o3(1, Direct::Mario, None),
            o3(2, Direct::Mario, Some(150)),
            o3(3, Direct::Martins, Some(120)),
            o3(4, Direct::Mario, Some(80)),
            o3(5, Direct::Martins, None),
            o3(6, Direct::Mario, Some(100)),
        ],
        7,
    );
    assert_eq!(app.sorted_o3_indices_for(100), vec![6, 3, 2, 1, 5, 4, 0]);
}

#[test]
fn sorted_indices_are_stable() {
    let app = app_with(
        vec![
            o3(0, Direct::Mario, Some(10)),
            o3(1, Direct::Martins, Some(10)),
            o3(2, Direct::Mario, Some(1)),
            o3(3, Direct::Martins, Some(1)),
        ],
        4,
    );
    assert_eq!(app.sorted_o3_indices_for(5), vec![0, 1, 2, 3]);
    assert_eq!(app.sorted_o3_indices_for(20), vec![0, 1, 2, 3]);
    assert_eq!(app.sorted_o3_indices_for(i64::MIN), vec![2, 3, 0, 1]);
}

#[test]
fn sorted_indices_handle_extreme_dates() {
    let app = app_with(
        vec![o3(0, Direct::Mario, Some(i64::MIN)), o3(1, Direct::Mario, Some(-5)), o3(2, Direct::Mario, None)],
        3,
    );
    assert_eq!(app.sorted_o3_indices_for(0), vec![2, 1, 0]);
    assert_eq!(app.sorted_o3_indices().len(), 3);
}

#[test]
fn list_navigation() {
    let mut app = app_with(vec![o3(0, Direct::Mario, None), o3(1, Direct::Mario, None)], 2);
    assert_eq!(handle_o3_list(&mut app, Key::Char('j'), 0), Action::Continue);
    assert_eq!(app.selected, 1);
    handle_o3_list(&mut app, Key::Down, 0);
    assert_eq!(app.selected, 1);
    handle_o3_list(&mut app, Key::Char('k'), 0);
    assert_eq!(app.selected, 0);
    handle_o3_list(&mut app, Key::Up, 0);
    assert_eq!(app.selected, 0);
    handle_o3_list(&mut app, Key::Char('a'), 0);
    assert!(matches!(app.mode, Mode::CreatingO3));
}

#[test]
fn list_navigation_on_empty_list() {
    let mut app = app_with(vec![], 0);
    handle_o3_list(&mut app, Key::Char('j'), 0);
    assert_eq!(app.selected, 0);
    assert_eq!(handle_o3_list(&mut app, Key::Enter, 0), Action::Continue);
    assert!(matches!(app.mode, Mode::O3List));
    assert_eq!(handle_o3_list(&mut app, Key::Char('d'), 0), Action::Continue);
}

#[test]
fn list_enter_opens_the_row_in_display_order() {
    let mut app = app_with(vec![o3(0, Direct::Mario, Some(1)), o3(1, Direct::Martins, Some(30))], 2);
    app.selected = 1;
    assert_eq!(handle_o3_list(&mut app, Key::Enter, 10), Action::Continue);
    assert_eq!(app.selected, 0);
    assert!(matches!(app.mode, Mode::O3Detail { o3_idx: 0, prev_list_selected: 1 }));
}

#[test]
fn list_delete_removes_the_row_and_clamps() {
    let mut app = app_with(vec![o3(0, Direct::Mario, Some(1)), o3(1, Direct::Martins, Some(30))], 2);
    app.selected = 1;
    assert_eq!(handle_o3_list(&mut app, Key::Char('d'), 10), Action::Save);
    assert_eq!(ids(&app), vec![1]);
    assert_eq!(app.selected, 0);
    assert_eq!(handle_o3_list(&mut app, Key::Char('d'), 10), Action::Save);
    assert!(app.o3s.is_empty());
    assert_eq!(app.selected, 0);
}

#[test]
fn detail_keys() {
    let mut m = o3(0, Direct::Mario, None);
    m.entries = vec![topic("a", Some("done")), topic("b", None)];
    let mut app = app_with(vec![m], 1);
    app.mode = Mode::O3Detail { o3_idx: 0, prev_list_selected: 3 };
    handle_o3_detail(&mut app, Key::Char('j'), 0, 3);
    assert_eq!(app.selected, 1);
    handle_o3_detail(&mut app, Key::Char('j'), 0, 3);
    assert_eq!(app.selected, 1);
    handle_o3_detail(&mut app, Key::Char('k'), 0, 3);
    assert_eq!(app.selected, 0);
    handle_o3_detail(&mut app, Key::Char('o'), 0, 3);
    match &app.mode {
        Mode::EditingOutput { o3_idx, entry_idx, text, cursor } => {
            assert_eq!((*o3_idx, *entry_idx, text.as_str(), *cursor), (0, 0, "done", 4));
        }
        _ => panic!("not editing"),
    }
    app.mode = Mode::O3Detail { o3_idx: 0, prev_list_selected: 3 };
    handle_o3_detail(&mut app, Key::Char('t'), 0, 3);
    assert!(matches!(app.mode, Mode::SettingDate { o3_idx: 0 }));
    handle_o3_detail(&mut app, Key::Char('a'), 0, 3);
    match &app.mode {
        Mode::AddingEntry { o3_idx, wizard } => {
            assert_eq!(*o3_idx, 0);
            assert_eq!(wizard.step, EntryStep::SelectItemType);
            assert!(wizard.text.is_empty());
        }
        _ => panic!("not adding"),
    }
    handle_o3_detail(&mut app, Key::Esc, 0, 3);
    assert!(matches!(app.mode, Mode::O3List));
    assert_eq!(app.selected, 3);
}

#[test]
fn detail_output_of_entry_without_output_is_empty() {
    let mut m = o3(0, Direct::Mario, None);
    m.entries = vec![feedback("a", Polarity::Positive)];
    let mut app = app_with(vec![m], 1);
    app.mode = Mode::O3Detail { o3_idx: 0, prev_list_selected: 0 };
    handle_o3_detail(&mut app, Key::Char('o'), 0, 0);
    assert!(matches!(&app.mode, Mode::EditingOutput { text, cursor: 0, .. } if text.is_empty()));
}

#[test]
fn detail_delete_clamps_selection() {
    let mut m = o3(0, Direct::Mario, None);
    m.entries = vec![topic("a", None), topic("b", None)];
    let mut app = app_with(vec![m], 1);
    app.mode = Mode::O3Detail { o3_idx: 0, prev_list_selected: 0 };
    app.selected = 1;
    assert_eq!(handle_o3_detail(&mut app, Key::Char('d'), 0, 0), Action::Save);
    assert_eq!(app.o3s[0].entries.len(), 1);
    assert_eq!(app.selected, 0);
    assert_eq!(handle_o3_detail(&mut app, Key::Char('d'), 0, 0), Action::Save);
    assert!(app.o3s[0].entries.is_empty());
    assert_eq!(app.selected, 0);
    app.selected = 4;
    assert_eq!(handle_o3_detail(&mut app, Key::Char('d'), 0, 0), Action::Continue);
    assert_eq!(app.selected, 0);
}

#[test]
fn creating_o3_for_each_direct() {
    let mut app = app_with(vec![o3(7, Direct::Mario, None)], 8);
    app.mode = Mode::CreatingO3;
    app.selected = 5;
    assert_eq!(handle_creating_o3(&mut app, Key::Char('2')), Action::Save);
    assert_eq!(ids(&app), vec![7, 8]);
    assert_eq!(app.o3s[1].direct, Direct::Martins);
    assert_eq!(app.selected, 0);
    assert!(matches!(app.mode, Mode::O3Detail { o3_idx: 1, prev_list_selected: 0 }));
    app.mode = Mode::CreatingO3;
    assert_eq!(handle_creating_o3(&mut app, Key::Char('m')), Action::Save);
    assert_eq!(app.o3s[2].direct, Direct::Mario);
    assert_eq!(app.next_id, 10);
    app.mode = Mode::CreatingO3;
    assert_eq!(handle_creating_o3(&mut app, Key::Char('x')), Action::Continue);
    assert!(matches!(app.mode, Mode::CreatingO3));
    assert_eq!(handle_creating_o3(&mut app, Key::Esc), Action::Continue);
    assert!(matches!(app.mode, Mode::O3List));
}

#[test]
fn setting_date_picks_thursdays() {
    let mut app = app_with(vec![o3(0, Direct::Mario, None)], 1);
    app.selected = 2;
    app.mode = Mode::SettingDate { o3_idx: 0 };
    assert_eq!(handle_setting_date(&mut app, Key::Char('1'), 0, 3), Action::Save);
    assert_eq!(app.o3s[0].date_days, Some(-14));
    assert!(matches!(app.mode, Mode::O3Detail { o3_idx: 0, prev_list_selected: 2 }));
    app.mode = Mode::SettingDate { o3_idx: 0 };
    handle_setting_date(&mut app, Key::Char('8'), 0, 3);
    assert_eq!(app.o3s[0].date_days, Some(35));
    app.mode = Mode::SettingDate { o3_idx: 0 };
    assert_eq!(handle_setting_date(&mut app, Key::Char('9'), 0, 3), Action::Continue);
    assert_eq!(app.o3s[0].date_days, Some(35));
    assert!(matches!(app.mode, Mode::O3Detail { .. }));
    app.mode = Mode::SettingDate { o3_idx: 0 };
    assert_eq!(handle_setting_date(&mut app, Key::Char('0'), 0, 3), Action::Save);
    assert_eq!(app.o3s[0].date_days, None);
    app.mode = Mode::SettingDate { o3_idx: 0 };
    assert_eq!(handle_setting_date(&mut app, Key::Char('x'), 0, 3), Action::Continue);
    assert!(matches!(app.mode, Mode::SettingDate { o3_idx: 0 }));
    assert_eq!(handle_setting_date(&mut app, Key::Esc, 0, 3), Action::Continue);
    assert!(matches!(app.mode, Mode::O3Detail { o3_idx: 0, prev_list_selected: 2 }));
}

#[test]
fn setting_date_of_missing_meeting() {
    let mut app = app_with(vec![], 0);
    app.mode = Mode::SettingDate { o3_idx: 4 };
    assert_eq!(handle_setting_date(&mut app, Key::Char('3'), 4, 3), Action::Continue);
    assert!(matches!(app.mode, Mode::O3Detail { o3_idx: 4, .. }));
}

fn press(app: &mut App, key: Key) -> Action {
    assert!(app.key_is_safe(key));
    app.handle_key_on(key, 100)
}

#[test]
fn wizard_adds_feedback() {
    let mut app = app_with(vec![o3(0, Direct::Mario, None)], 1);
    app.mode = Mode::AddingEntry { o3_idx: 0, wizard: EntryWizard::new() };
    assert_eq!(handle_adding_entry(&mut app, Key::Char('f'), 0), Action::Continue);
    assert_eq!(handle_adding_entry(&mut app, Key::Char('-'), 0), Action::Continue);
    for c in " ok ".chars() {
        handle_adding_entry(&mut app, Key::Char(c), 0);
    }
    match &app.mode {
        Mode::AddingEntry { wizard, .. } => {
            assert_eq!(wizard.step, EntryStep::EnterText);
            assert_eq!(wizard.polarity, Some(Polarity::Negative));
            assert_eq!((wizard.text.as_str(), wizard.cursor), (" ok ", 4));
        }
        _ => panic!("not adding"),
    }
    assert_eq!(handle_adding_entry(&mut app, Key::Enter, 0), Action::Save);
    assert!(matches!(app.mode, Mode::O3Detail { o3_idx: 0, .. }));
    assert_eq!(app.o3s[0].entries[0].text, "ok");
    assert!(matches!(app.o3s[0].entries[0].kind, ItemKind::Feedback { polarity: Polarity::Negative, output: None }));
}

#[test]
fn wizard_adds_topic_and_cancels() {
    let mut app = app_with(vec![o3(0, Direct::Mario, None)], 1);
    app.mode = Mode::AddingEntry { o3_idx: 0, wizard: EntryWizard::new() };
    press(&mut app, Key::Char('q'));
    assert!(matches!(&app.mode, Mode::AddingEntry { wizard, .. } if wizard.step == EntryStep::SelectItemType));
    press(&mut app, Key::Char('t'));
    press(&mut app, Key::Char('q'));
    press(&mut app, Key::Char('s'));
    press(&mut app, Key::Left);
    press(&mut app, Key::Delete);
    press(&mut app, Key::End);
    press(&mut app, Key::Backspace);
    press(&mut app, Key::Char('x'));
    assert!(matches!(&app.mode, Mode::AddingEntry { wizard, .. } if wizard.text == "x" && wizard.is_topic));
    assert_eq!(press(&mut app, Key::Enter), Action::Save);
    assert!(matches!(app.o3s[0].entries[0].kind, ItemKind::Topic { output: None }));
    app.mode = Mode::AddingEntry { o3_idx: 0, wizard: EntryWizard::new() };
    press(&mut app, Key::Char('f'));
    assert_eq!(press(&mut app, Key::Esc), Action::Continue);
    assert!(matches!(app.mode, Mode::O3Detail { o3_idx: 0, .. }));
    assert_eq!(app.o3s[0].entries.len(), 1);
}

#[test]
fn wizard_blank_text_adds_nothing() {
    let mut app = app_with(vec![o3(0, Direct::Mario, None)], 1);
    app.mode = Mode::AddingEntry { o3_idx: 0, wizard: EntryWizard::new() };
    press(&mut app, Key::Char('t'));
    press(&mut app, Key::Char(' '));
    assert_eq!(press(&mut app, Key::Enter), Action::Continue);
    assert!(app.o3s[0].entries.is_empty());
    assert!(matches!(app.mode, Mode::O3Detail { .. }));
}

#[test]
fn adding_entry_outside_the_wizard_does_nothing() {
    let mut app = app_with(vec![o3(0, Direct::Mario, None)], 1);
    assert_eq!(handle_adding_entry(&mut app, Key::Enter, 0), Action::Continue);
    assert!(matches!(app.mode, Mode::O3List));
    assert_eq!(handle_editing_output(&mut app, Key::Enter, 0, 0), Action::Continue);
    assert!(matches!(app.mode, Mode::O3List));
}

#[test]
fn editing_output_commits_and_cancels() {
    let mut m = o3(0, Direct::Mario, None);
    m.entries = vec![topic("a", None)];
    let mut app = app_with(vec![m], 1);
    app.mode = Mode::EditingOutput { o3_idx: 0, entry_idx: 0, text: "ab".to_string(), cursor: 2 };
    handle_editing_output(&mut app, Key::Char('c'), 0, 0);
    handle_editing_output(&mut app, Key::Home, 0, 0);
    handle_editing_output(&mut app, Key::Char(' '), 0, 0);
    assert!(matches!(&app.mode, Mode::EditingOutput { text, cursor: 1, .. } if text == " abc"));
    assert_eq!(handle_editing_output(&mut app, Key::Enter, 0, 0), Action::Save);
    assert_eq!(output_of(&app.o3s[0].entries[0]), Some("abc".to_string()));
    app.mode = Mode::EditingOutput { o3_idx: 0, entry_idx: 0, text: "zz".to_string(), cursor: 2 };
    assert_eq!(handle_editing_output(&mut app, Key::Esc, 0, 0), Action::Continue);
    assert_eq!(output_of(&app.o3s[0].entries[0]), Some("abc".to_string()));
    assert!(matches!(app.mode, Mode::O3Detail { o3_idx: 0, .. }));
}

#[test]
fn q_quits_from_list_and_meeting_only() {
    let mut app = app_with(vec![o3(0, Direct::Mario, None)], 1);
    assert_eq!(press(&mut app, Key::Char('q')), Action::Quit);
    app.mode = Mode::O3Detail { o3_idx: 0, prev_list_selected: 0 };
    assert_eq!(press(&mut app, Key::Char('q')), Action::Quit);
    app.mode = Mode::CreatingO3;
    assert_eq!(press(&mut app, Key::Char('q')), Action::Continue);
    app.mode = Mode::SettingDate { o3_idx: 0 };
    assert_eq!(press(&mut app, Key::Char('q')), Action::Continue);
    app.mode = Mode::EditingOutput { o3_idx: 0, entry_idx: 0, text: String::new(), cursor: 0 };
    assert_eq!(press(&mut app, Key::Char('q')), Action::Continue);
    assert!(matches!(&app.mode, Mode::EditingOutput { text, .. } if text == "q"));
}

#[test]
fn full_session_through_handle_key() {
    let mut app = app_with(vec![], 0);
    assert_eq!(press(&mut app, Key::Char('a')), Action::Continue);
    assert_eq!(press(&mut app, Key::Char('1')), Action::Save);
    assert_eq!(press(&mut app, Key::Char('t')), Action::Continue);
    assert_eq!(press(&mut app, Key::Char('4')), Action::Save);
    assert_eq!(app.o3s[0].date_days, Some(105));
    assert_eq!(press(&mut app, Key::Char('a')), Action::Continue);
    press(&mut app, Key::Char('f'));
    press(&mut app, Key::Char('+'));
    press(&mut app, Key::Char('h'));
    press(&mut app, Key::Char('i'));
    assert_eq!(press(&mut app, Key::Enter), Action::Save);
    assert_eq!(press(&mut app, Key::Char('o')), Action::Continue);
    press(&mut app, Key::Char('y'));
    assert_eq!(press(&mut app, Key::Enter), Action::Save);
    assert_eq!(output_of(&app.o3s[0].entries[0]), Some("y".to_string()));
    assert_eq!(press(&mut app, Key::Esc), Action::Continue);
    assert!(matches!(app.mode, Mode::O3List));
    assert_eq!(app.handle_key(Key::Other), Action::Continue);
    assert_eq!(press(&mut app, Key::Char('d')), Action::Save);
    assert!(app.o3s.is_empty());
}

#[test]
fn creating_at_last_id_is_refused() {
    let mut app = app_with(vec![], u64::MAX);
    app.mode = Mode::CreatingO3;
    assert!(!app.key_is_safe(Key::Char('1')));
    assert!(app.key_is_safe(Key::Esc));
}

#[test]
fn ids_stay_distinct() {
    let mut app = app_with(vec![], 0);
    for _ in 0..3 {
        app.mode = Mode::CreatingO3;
        press(&mut app, Key::Char('n'));
    }
    app.mode = Mode::O3List;
    app.selected = 1;
    press(&mut app, Key::Char('d'));
    app.mode = Mode::CreatingO3;
    press(&mut app, Key::Char('m'));
    assert_eq!(ids(&app), vec![0, 2, 3]);
    assert_eq!(app.next_id, 4);
}

#[test]
fn unsaved_keys_keep_the_store() {
    let mut m = o3(0, Direct::Mario, Some(5));
    m.entries = vec![topic("a", None)];
    let mut app = app_with(vec![m], 1);
    for key in [Key::Char('j'), Key::Enter, Key::Char('k'), Key::Char('t'), Key::Esc, Key::Char('o'), Key::Esc] {
        assert_eq!(press(&mut app, key), Action::Continue);
    }
    assert_eq!(ids(&app), vec![0]);
    assert_eq!(app.o3s[0].date_days, Some(5));
    assert_eq!(output_of(&app.o3s[0].entries[0]), None);
}

#[test]
fn trimming_follows_unicode_whitespace() {
    let mut app = app_with(vec![o3(0, Direct::Mario, None)], 1);
    let mut w = EntryWizard::new();
    w.is_topic = true;
    w.text = "\u{85}\u{2028} plan \u{200a}\t".to_string();
    assert!(app.add_entry(0, &w));
    assert_eq!(app.o3s[0].entries[0].text, "plan");
    // a zero-width space is not whitespace
    w.text = "\u{200b}x".to_string();
    assert!(app.add_entry(0, &w));
    assert_eq!(app.o3s[0].entries[1].text, "\u{200b}x");
}

#[test]
fn stored_texts_stay_trimmed() {
    let mut app = app_with(vec![o3(0, Direct::Mario, None)], 1);
    app.mode = Mode::O3Detail { o3_idx: 0, prev_list_selected: 0 };
    for key in [Key::Char('a'), Key::Char('t'), Key::Char(' '), Key::Char('z'), Key::Char(' '), Key::Enter] {
        press(&mut app, key);
    }
    for key in [Key::Char('o'), Key::Char(' '), Key::Char('w'), Key::Enter] {
        press(&mut app, key);
    }
    let e = &app.o3s[0].entries[0];
    assert_eq!(e.text, "z");
    assert_eq!(output_of(e), Some("w".to_string()));
}

#[test]
fn wizard_never_steps_back() {
    let mut app = app_with(vec![o3(0, Direct::Mario, None)], 1);
    app.mode = Mode::AddingEntry { o3_idx: 0, wizard: EntryWizard::new() };
    let rank = |app: &App| match &app.mode {
        Mode::AddingEntry { wizard, .. } => match wizard.step {
            EntryStep::SelectItemType => 0,
            EntryStep::SelectPolarity => 1,
            EntryStep::EnterText => 2,
        },
        _ => 3,
    };
    let mut last = rank(&app);
    for key in [Key::Char('x'), Key::Char('f'), Key::Char('t'), Key::Char('p'), Key::Char('f'), Key::Char('t')] {
        press(&mut app, key);
        let r = rank(&app);
        assert!(r >= last);
        last = r;
    }
    assert!(matches!(&app.mode, Mode::AddingEntry { wizard, .. }
        if wizard.polarity == Some(Polarity::Positive) && wizard.text == "ft"));
}
