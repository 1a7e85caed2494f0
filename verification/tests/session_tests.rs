use scdedit::order::sort_descending;
use scdedit::schedule::{ScdDuration, ScheduleError, ScheduleLine, SchedulingMode};
use scdedit::selectable::SelectableList;
use scdedit::session::{App, CurrentScreen, CurrentlyEditing, ScheduleFiles};

fn line(text: &str) -> ScheduleLine {
    ScheduleLine::decode(&text.to_string()).unwrap()
}

fn filled_app() -> App {
    let mut app = App::new(vec![], vec!["normalscan".to_string(), "twofsound".to_string()]);
    app.year_input = "2000".to_string();
    app.month_input = "1".to_string();
    app.day_input = "1".to_string();
    app.hour_input = "0".to_string();
    app.minute_input = "0".to_string();
    app.duration_input = "60".to_string();
    app.priority_input = "0".to_string();
    app.currently_editing = Some(CurrentlyEditing::Done);
    app
}

#[test]
fn empty_list_navigation_keeps_no_selection() {
    let mut l: SelectableList<u32> = SelectableList::new(vec![]);
    l.next();
    assert_eq!(l.selected, None);
    l.previous();
    assert_eq!(l.selected, None);
    l.first();
    assert_eq!(l.selected, None);
    l.last();
    assert_eq!(l.selected, None);
}

#[test]
fn navigation_wraps_around() {
    let mut l: SelectableList<u32> = SelectableList::new(vec![10, 20, 30]);
    l.last();
    assert_eq!(l.selected, Some(2));
    l.next();
    assert_eq!(l.selected, Some(0));
    l.previous();
    assert_eq!(l.selected, Some(2));
    l.first();
    assert_eq!(l.selected, Some(0));
    l.next();
    assert_eq!(l.selected, Some(1));
}

#[test]
fn unselect_preserves_offset() {
    let mut l: SelectableList<u32> = SelectableList::new(vec![1, 2, 3]);
    l.offset = 7;
    l.first();
    l.unselect();
    assert_eq!(l.selected, None);
    assert_eq!(l.offset, 7);
}

#[test]
fn field_cycle_is_closed() {
    let mut app = App::new(vec![], vec![]);
    app.currently_editing = Some(CurrentlyEditing::Year);
    app.forward_toggle();
    assert_eq!(app.currently_editing, Some(CurrentlyEditing::Month));
    app.backward_toggle();
    assert_eq!(app.currently_editing, Some(CurrentlyEditing::Year));
    app.backward_toggle();
    assert_eq!(app.currently_editing, Some(CurrentlyEditing::Done));
    app.forward_toggle();
    assert_eq!(app.currently_editing, Some(CurrentlyEditing::Year));
    app.jump_to_done();
    assert_eq!(app.currently_editing, Some(CurrentlyEditing::Done));
}

#[test]
fn typing_edits_only_the_current_field() {
    let mut app = App::new(vec![], vec![]);
    app.currently_editing = Some(CurrentlyEditing::Year);
    app.char_input('2');
    app.char_input('0');
    assert_eq!(app.year_input, "20".to_string());
    assert_eq!(app.month_input, "".to_string());
    app.backspace_input();
    assert_eq!(app.year_input, "2".to_string());
    app.currently_editing = Some(CurrentlyEditing::Experiment);
    app.char_input('x');
    assert_eq!(app.year_input, "2".to_string());
    app.currently_editing = None;
    app.char_input('x');
    assert_eq!(app.year_input, "2".to_string());
}

#[test]
fn cancel_clears_the_form() {
    let mut app = filled_app();
    app.cancel();
    assert_eq!(app.year_input, "".to_string());
    assert_eq!(app.duration_input, "".to_string());
    assert_eq!(app.currently_editing, None);
    assert_eq!(app.last_err, None);
    assert!(matches!(app.current_screen, CurrentScreen::Main));
}

#[test]
fn submit_success_adds_sorted_entry() {
    let mut app = filled_app();
    assert_eq!(app.save_entry(), Ok(()));
    assert_eq!(app.schedule_list.items.len(), 1);
    assert_eq!(
        app.schedule_list.items[0].format(),
        "20000101 00:00 60 0 normalscan common"
    );
    assert_eq!(app.additions.len(), 1);
    assert_eq!(app.additions[0], app.schedule_list.items[0]);
    assert_eq!(app.year_input, "".to_string());
    assert_eq!(app.priority_input, "".to_string());
    assert_eq!(app.currently_editing, None);
    assert_eq!(app.last_err, None);
}

#[test]
fn submit_keeps_list_descending() {
    let mut app = filled_app();
    app.schedule_list.items.push(line("20100101 00:00 1 0 normalscan common"));
    app.schedule_list.items.push(line("20050101 00:00 1 0 normalscan common"));
    assert_eq!(app.save_entry(), Ok(()));
    assert_eq!(
        app.schedule_list.items[0].format(),
        "20100101 00:00 1 0 normalscan common"
    );
    assert_eq!(
        app.schedule_list.items[1].format(),
        "20050101 00:00 1 0 normalscan common"
    );
    assert_eq!(
        app.schedule_list.items[2].format(),
        "20000101 00:00 60 0 normalscan common"
    );
}

#[test]
fn submit_failure_preserves_buffers_and_routes_focus() {
    let mut app = filled_app();
    app.priority_input = "25".to_string();
    let res = app.save_entry();
    assert_eq!(res, Err(ScheduleError::InvalidPriority("25 > 20".to_string())));
    assert_eq!(app.year_input, "2000".to_string());
    assert_eq!(app.month_input, "1".to_string());
    assert_eq!(app.day_input, "1".to_string());
    assert_eq!(app.hour_input, "0".to_string());
    assert_eq!(app.minute_input, "0".to_string());
    assert_eq!(app.duration_input, "60".to_string());
    assert_eq!(app.priority_input, "25".to_string());
    assert_eq!(app.currently_editing, Some(CurrentlyEditing::Priority));
    assert_eq!(
        app.last_err,
        Some(ScheduleError::InvalidPriority("25 > 20".to_string()))
    );
    assert!(app.schedule_list.items.is_empty());
    assert!(app.additions.is_empty());

    app.priority_input = "0".to_string();
    app.month_input = "13".to_string();
    let res = app.save_entry();
    assert_eq!(
        res,
        Err(ScheduleError::InvalidDate(
            "Bad month: 13 not in range [1, 12]".to_string()
        ))
    );
    assert_eq!(app.currently_editing, Some(CurrentlyEditing::Month));

    app.month_input = "2".to_string();
    app.day_input = "30".to_string();
    let res = app.save_entry();
    assert_eq!(
        res,
        Err(ScheduleError::InvalidDate("No such date: 2000-2-30".to_string()))
    );
    assert_eq!(app.currently_editing, Some(CurrentlyEditing::Day));

    app.day_input = "1".to_string();
    app.duration_input = "-".to_string();
    app.priority_input = "5".to_string();
    let res = app.save_entry();
    assert_eq!(
        res,
        Err(ScheduleError::InvalidPriority(
            "Cannot have priority > 0 for infinite schedule line".to_string()
        ))
    );
    assert_eq!(app.currently_editing, Some(CurrentlyEditing::Priority));
}

#[test]
fn remove_moves_entry_to_deletions() {
    let mut app = App::new(
        vec![
            line("20100101 00:00 1 0 normalscan common"),
            line("20000101 00:00 1 0 normalscan common"),
        ],
        vec![],
    );
    app.schedule_list.first();
    app.remove_schedule_line();
    assert_eq!(app.schedule_list.items.len(), 1);
    assert_eq!(
        app.schedule_list.items[0].format(),
        "20000101 00:00 1 0 normalscan common"
    );
    assert_eq!(app.deletions.len(), 1);
    assert_eq!(
        app.deletions[0].format(),
        "20100101 00:00 1 0 normalscan common"
    );
    assert_eq!(app.schedule_list.selected, None);
    // removing with nothing selected changes nothing but the selection
    app.remove_schedule_line();
    assert_eq!(app.schedule_list.items.len(), 1);
    assert_eq!(app.deletions.len(), 1);
}

#[test]
fn load_schedule_reverses_file_order() {
    let lines = vec![
        "20000101 00:00 1 0 alpha common".to_string(),
        "20000102 00:00 1 0 beta common".to_string(),
        "20000103 00:00 - 0 gamma special".to_string(),
    ];
    let loaded = App::load_schedule(&lines).unwrap();
    assert_eq!(loaded.len(), 3);
    assert_eq!(loaded[0].format(), "20000103 00:00 - 0 gamma special");
    assert_eq!(loaded[1].format(), "20000102 00:00 1 0 beta common");
    assert_eq!(loaded[2].format(), "20000101 00:00 1 0 alpha common");
}

#[test]
fn load_schedule_rejects_partial_files() {
    let lines = vec![
        "20000101 00:00 1 0 alpha common".to_string(),
        "garbage".to_string(),
    ];
    assert_eq!(App::load_schedule(&lines), Err(ScheduleError::MissingFields));
}

#[test]
fn sort_descending_orders_most_recent_first() {
    let mut v = vec![
        line("20000101 00:00 1 0 b common"),
        line("20100101 00:00 1 0 a common"),
        line("20000101 00:00 1 0 a common"),
        line("20000101 00:00 - 0 a common"),
    ];
    sort_descending(&mut v);
    assert_eq!(v[0].format(), "20100101 00:00 1 0 a common");
    assert_eq!(v[1].format(), "20000101 00:00 1 0 b common");
    assert_eq!(v[2].format(), "20000101 00:00 1 0 a common");
    assert_eq!(v[3].format(), "20000101 00:00 - 0 a common");
}

#[test]
fn entry_order_follows_timestamp_first() {
    let older = line("20000101 00:00 1 20 zzz special");
    let newer = line("20000101 00:01 1 0 aaa common");
    assert!(older.lt(&newer));
    assert!(!newer.lt(&older));
    assert!(older.le(&newer));
}

#[test]
fn save_aborts_when_backup_copy_fails() {
    let app = App::new(vec![line("20000101 00:00 1 0 normalscan common")], vec![]);
    let original = "20000101 00:00 1 0 normalscan common\n".as_bytes().to_vec();
    let mut files = ScheduleFiles { schedule: original.clone(), backup: None };
    let written = app.save_schedule(&mut files, false);
    assert!(!written);
    assert_eq!(files.schedule, original);
    assert_eq!(files.backup, None);
}

#[test]
fn save_backs_up_then_overwrites_ascending() {
    let app = App::new(
        vec![
            line("20100101 00:00 1 0 b common"),
            line("20000101 00:00 1 0 a common"),
        ],
        vec![],
    );
    let original = "stale contents".as_bytes().to_vec();
    let mut files = ScheduleFiles { schedule: original.clone(), backup: None };
    let written = app.save_schedule(&mut files, true);
    assert!(written);
    assert_eq!(files.backup, Some(original));
    let expected = "20000101 00:00 1 0 a common\n20100101 00:00 1 0 b common\n";
    assert_eq!(files.schedule, expected.as_bytes().to_vec());
}
