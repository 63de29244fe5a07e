use flatlite::dbconfig::Config;
use flatlite::model::actions::{Action, Effect, SqlParam};
use flatlite::model::events::{Event, KeyCode, KeyEvent};
use flatlite::model::filter::FetchedGroup;
use flatlite::model::populate::{display_value, FetchedCell, FetchedRow};
use rusqlite::types::Value;
use flatlite::model::text::TextInput;
use flatlite::model::{App, CellValue, Mode, RelatedRecord, SheetCache};
use flatlite::schema::{FieldId, FieldType, Schema, SelectOption, TableId};
use flatlite::util::Vector2i;

const CONFIG: &str = r#"
schema {
    table "todo" file="todo.csv" {
        field "id"
        field "status" type="select" {
            option "open" label="Open"
            option "doing"
            option "done"
        }
        field "milestone_id" type="belongs_to" related_entity="milestone" related_key="id"
    }
    table "milestone" file="milestone.csv" {
        field "id"
        field "title"
    }
}
"#;

fn schema() -> Schema {
    let config = match Config::parse_from_str(CONFIG, "db.kdl") {
        Ok(c) => c,
        Err(_) => panic!("config must parse"),
    };
    match Schema::try_from(&config) {
        Ok(s) => s,
        Err(_) => panic!("schema must build"),
    }
}

fn cell(text: &str, related: Option<&str>) -> FetchedCell {
    FetchedCell {
        value: CellValue::StringValue(text.to_string()),
        real_text: String::new(),
        related_title: related.map(|s| s.to_string()),
    }
}

fn todo_rows() -> Vec<FetchedRow> {
    vec![
        FetchedRow {
            rowid: 1,
            order: 0,
            cells: vec![cell("t1", None), cell("open", None), cell("m1", Some("First milestone"))],
        },
        FetchedRow {
            rowid: 2,
            order: 1,
            cells: vec![cell("t2", None), cell("done", None), cell("m9", None)],
        },
        FetchedRow {
            rowid: 3,
            order: 2,
            cells: vec![
                cell("t3", None),
                cell("doing", None),
                cell("a rather long milestone key that does not fit in fifty characters", None),
            ],
        },
    ]
}

fn loaded_app() -> App {
    let mut app = App::new(schema(), Vector2i::new(80, 24));
    app.finish_populate(TableId(0), 3, Vec::new(), todo_rows());
    app
}

fn sheet(app: &App) -> &SheetCache {
    match app.active_sheet() {
        Some(s) => s,
        None => panic!("the sheet is loaded"),
    }
}

fn key(code: KeyCode) -> Event {
    Event::Key(KeyEvent { code, press: true, shift: false })
}

#[test]
fn new_app_starts_empty() {
    let app = App::new(schema(), Vector2i::new(80, 24));
    assert!(app.command_buffer.is_empty());
    assert!(app.sheets_cache.is_empty());
    assert_eq!(app.current_sheet, TableId(0));
    assert!(app.mode.is_normal());
    assert!(!app.mode.is_editing());
    assert!(!app.should_quit);
    assert_eq!(app.current_table_schema().name, "todo");
}

#[test]
fn populate_request_describes_the_queries() {
    let app = App::new(schema(), Vector2i::new(80, 24));
    let q = app.populate_request(TableId(0));
    assert_eq!(q.count_sql, "SELECT COUNT(*) FROM todo");
    assert_eq!(q.rows_sql, "SELECT rowid, * from todo ORDER BY __order LIMIT ? OFFSET ?");
    assert!(q.groups_sql.is_none());
    assert_eq!(q.limit, 21);
    assert_eq!(q.offset, 0);
    assert_eq!(
        q.related_title_sql,
        vec![None, None, Some("SELECT title FROM milestone WHERE id = ?".to_string())]
    );
}

#[test]
fn finish_populate_shows_labels_titles_and_widths() {
    let app = loaded_app();
    let s = sheet(&app);
    assert_eq!(s.rows.len(), 3);
    assert_eq!(s.total_count, 3);
    assert_eq!(s.table_id, TableId(0));
    assert_eq!(s.selected_cell, Vector2i::new(0, 0));
    let ids: Vec<FieldId> = s.columns.iter().map(|c| c.field_id).collect();
    assert_eq!(ids, vec![FieldId(0), FieldId(1), FieldId(2)]);
    // a select value shows its label when it has one, its key otherwise
    assert_eq!(s.rows[0].cells[1].display, "Open");
    assert_eq!(s.rows[1].cells[1].display, "done");
    // a related value shows the related title when one was found
    assert_eq!(s.rows[0].cells[2].display, "First milestone");
    assert_eq!(s.rows[1].cells[2].display, "m9");
    assert_eq!(s.rows[2].rowid, 3);
    // widths: name + 2 at least, the widest padded text, and 50 at most
    assert_eq!(s.columns[0].width, 4);
    assert_eq!(s.columns[1].width, 8);
    assert_eq!(s.columns[2].width, 50);
}

#[test]
fn display_value_for_each_type() {
    let opts = vec![
        SelectOption { key: "a".to_string(), label: Some("Alpha".to_string()) },
        SelectOption { key: "b".to_string(), label: None },
    ];
    let select = FieldType::SelectField { options: opts };
    assert_eq!(display_value(&select, &"a".to_string(), &None), "Alpha");
    assert_eq!(display_value(&select, &"b".to_string(), &None), "b");
    assert_eq!(display_value(&select, &"c".to_string(), &None), "c");
    let rel = FieldType::BelongsToField(TableId(1), FieldId(3));
    assert_eq!(display_value(&rel, &"k".to_string(), &Some("Title".to_string())), "Title");
    assert_eq!(display_value(&rel, &"k".to_string(), &None), "k");
    assert_eq!(display_value(&FieldType::StringField, &"x".to_string(), &Some("y".to_string())), "x");
}

#[test]
fn move_cursor_wraps_around_the_sheet() {
    let mut app = loaded_app();
    let e = app.process_action(Action::MoveCursor(Vector2i::new(-1, 0)));
    assert!(e.is_empty());
    assert_eq!(sheet(&app).selected_cell, Vector2i::new(2, 0));
    app.process_action(Action::MoveCursor(Vector2i::new(0, -1)));
    assert_eq!(sheet(&app).selected_cell, Vector2i::new(2, 2));
    app.process_action(Action::MoveCursor(Vector2i::new(1, 1)));
    assert_eq!(sheet(&app).selected_cell, Vector2i::new(0, 0));
}

#[test]
fn next_cell_moves_to_the_next_row_after_the_last_column() {
    let mut app = loaded_app();
    app.process_action(Action::MoveCursor(Vector2i::new(2, 0)));
    app.process_action(Action::NextCell);
    assert_eq!(sheet(&app).selected_cell, Vector2i::new(0, 1));
    app.process_action(Action::NextCell);
    assert_eq!(sheet(&app).selected_cell, Vector2i::new(1, 1));
}

#[test]
fn page_moves_by_the_loaded_rows() {
    let mut app = loaded_app();
    app.process_action(Action::MoveCursor(Vector2i::new(0, 1)));
    let e = app.process_action(Action::Page(1));
    assert!(e.is_empty());
    // 1 + 3 = 4 is past the 3 rows: it wraps to the first row
    assert_eq!(sheet(&app).selected_cell, Vector2i::new(0, 0));
}

#[test]
fn scroll_changes_the_offset_and_reloads() {
    let mut app = loaded_app();
    let e = app.process_action(Action::Scroll(5));
    assert_eq!(sheet(&app).start_offset, 5);
    assert_eq!(e.len(), 1);
    assert!(matches!(e[0], Effect::PopulateSheet(TableId(0))));
    app.process_action(Action::Scroll(-2));
    assert_eq!(sheet(&app).start_offset, 3);
}

#[test]
fn scroll_correction_brings_the_cursor_back() {
    let mut app = loaded_app();
    assert_eq!(app.scroll_correction(), None);
    app.process_action(Action::Scroll(2));
    // cursor row 0 lies before the offset 2
    assert_eq!(app.scroll_correction(), Some(-2));
}

#[test]
fn edit_cell_on_a_string_field_starts_editing() {
    let mut app = loaded_app();
    app.process_action(Action::EditCell { clear: false });
    match &app.mode {
        Mode::EditingCell(t) => {
            assert_eq!(t.input, "t1");
            assert_eq!(t.char_index, 2);
        }
        _ => panic!("expected editing"),
    }
    app.process_action(Action::CancelEdit);
    assert!(app.mode.is_normal());
    app.process_action(Action::EditCell { clear: true });
    match &app.mode {
        Mode::EditingCell(t) => assert_eq!(t.input, ""),
        _ => panic!("expected editing"),
    }
}

#[test]
fn edit_cell_on_a_select_field_queues_the_next_option() {
    let mut app = loaded_app();
    app.process_action(Action::MoveCursor(Vector2i::new(1, 1)));
    // the cell shows "done", the last option: the first option follows
    app.process_action(Action::EditCell { clear: false });
    assert!(app.mode.is_normal());
    match app.pop_action() {
        Some(Action::SaveCell { value }) => assert_eq!(value, "open"),
        _ => panic!("expected a save"),
    }
    // the first row shows the label "Open", which is no key: the first option
    app.process_action(Action::MoveCursor(Vector2i::new(0, -1)));
    app.process_action(Action::EditCell { clear: false });
    match app.pop_action() {
        Some(Action::SaveCell { value }) => assert_eq!(value, "open"),
        _ => panic!("expected a save"),
    }
    // the third row shows "doing": the next option is "done"
    app.process_action(Action::MoveCursor(Vector2i::new(0, 2)));
    app.process_action(Action::EditCell { clear: false });
    match app.pop_action() {
        Some(Action::SaveCell { value }) => assert_eq!(value, "done"),
        _ => panic!("expected a save"),
    }
}

#[test]
fn edit_cell_on_a_relation_opens_the_search() {
    let mut app = loaded_app();
    app.process_action(Action::MoveCursor(Vector2i::new(2, 0)));
    app.process_action(Action::EditCell { clear: false });
    match app.pop_action() {
        Some(Action::SetMode(Mode::EditBelongsTo { search, results, selected_index })) => {
            assert_eq!(search.input, "");
            assert!(results.is_empty());
            assert_eq!(selected_index, 0);
        }
        _ => panic!("expected the search mode"),
    }
    assert!(matches!(app.pop_action(), Some(Action::RefreshView)));
    assert!(app.pop_action().is_none());
}

#[test]
fn finish_edit_saves_only_a_changed_text() {
    let mut app = loaded_app();
    app.process_action(Action::EditCell { clear: false });
    app.process_action(Action::FinishEdit);
    assert!(matches!(app.pop_action(), Some(Action::SetMode(Mode::Normal))));
    app.process_action(Action::SetMode(Mode::EditingCell(TextInput::new("t1x"))));
    app.process_action(Action::FinishEdit);
    match app.pop_action() {
        Some(Action::SaveCell { value }) => assert_eq!(value, "t1x"),
        _ => panic!("expected a save"),
    }
}

#[test]
fn save_cell_updates_reloads_and_writes_back() {
    let mut app = loaded_app();
    app.process_action(Action::MoveCursor(Vector2i::new(1, 1)));
    app.process_action(Action::SetMode(Mode::EditingCell(TextInput::new("x"))));
    let e = app.process_action(Action::SaveCell { value: "doing".to_string() });
    assert!(app.mode.is_normal());
    assert_eq!(e.len(), 3);
    match &e[0] {
        Effect::Execute { sql, params } => {
            assert_eq!(sql, "UPDATE todo SET status = ? WHERE __order = ?");
            assert!(matches!(&params[0], SqlParam::Text(v) if v == "doing"));
            assert!(matches!(params[1], SqlParam::Integer(2)));
        }
        _ => panic!("expected an update"),
    }
    assert!(matches!(e[1], Effect::PopulateSheet(TableId(0))));
    assert!(matches!(e[2], Effect::SaveEntity(TableId(0))));
}

#[test]
fn add_row_inserts_after_the_cursor() {
    let mut app = loaded_app();
    let e = app.process_action(Action::AddRow);
    assert_eq!(sheet(&app).selected_cell, Vector2i::new(0, 1));
    assert_eq!(e.len(), 3);
    match &e[0] {
        Effect::Execute { sql, params } => {
            assert_eq!(sql, "UPDATE todo SET __order = __order + 1 WHERE __order >= ?");
            assert!(matches!(params[0], SqlParam::Integer(2)));
        }
        _ => panic!("expected an update"),
    }
    match &e[1] {
        Effect::Execute { sql, params } => {
            assert_eq!(sql, "INSERT INTO todo (__order) VALUES (?)");
            assert!(matches!(params[0], SqlParam::Integer(2)));
        }
        _ => panic!("expected an insert"),
    }
    assert!(matches!(e[2], Effect::PopulateSheet(TableId(0))));
}

#[test]
fn refresh_view_depends_on_the_mode() {
    let mut app = loaded_app();
    let e = app.process_action(Action::RefreshView);
    assert!(matches!(e[..], [Effect::PopulateSheet(TableId(0))]));
    app.process_action(Action::SetMode(Mode::EditingCell(TextInput::new(""))));
    assert!(app.process_action(Action::RefreshView).is_empty());
    app.process_action(Action::SetMode(Mode::EditBelongsTo {
        search: TextInput::new(""),
        results: Vec::new(),
        selected_index: 0,
    }));
    let e = app.process_action(Action::RefreshView);
    assert!(matches!(e[..], [Effect::RefreshAutocomplete]));
}

#[test]
fn named_actions_without_handling_change_nothing() {
    let mut app = loaded_app();
    for a in [Action::PrevGroup, Action::NextGroup, Action::DeleteRow, Action::SetGroupBy] {
        assert!(app.process_action(a).is_empty());
    }
    assert_eq!(sheet(&app).selected_cell, Vector2i::new(0, 0));
    assert!(app.command_buffer.is_empty());
}

#[test]
fn normal_keys_queue_actions() {
    let mut app = loaded_app();
    app.process_event(key(KeyCode::Char('j')));
    app.process_event(key(KeyCode::Right));
    app.process_event(key(KeyCode::Char('e')));
    app.process_event(key(KeyCode::PageDown));
    app.process_event(Event::Resize);
    app.process_event(Event::FocusGained);
    let mut queued = Vec::new();
    while let Some(a) = app.pop_action() {
        queued.push(a);
    }
    assert_eq!(queued.len(), 5);
    assert!(matches!(queued[0], Action::MoveCursor(Vector2i { x: 0, y: 1 })));
    assert!(matches!(queued[1], Action::MoveCursor(Vector2i { x: 1, y: 0 })));
    assert!(matches!(queued[2], Action::EditCell { clear: false }));
    assert!(matches!(queued[3], Action::Page(1)));
    assert!(matches!(queued[4], Action::RefreshView));
}

#[test]
fn released_keys_are_ignored() {
    let mut app = loaded_app();
    let e = app.process_event(Event::Key(KeyEvent { code: KeyCode::Char('q'), press: false, shift: false }));
    assert!(e.is_empty());
    assert!(!app.should_quit);
    app.process_event(key(KeyCode::Char('q')));
    assert!(app.should_quit);
}

#[test]
fn brackets_switch_sheets_and_load_them() {
    let mut app = loaded_app();
    let e = app.process_event(key(KeyCode::Char(']')));
    assert_eq!(app.current_sheet, TableId(1));
    assert!(matches!(e[..], [Effect::PopulateSheet(TableId(1))]));
    let e = app.process_event(key(KeyCode::Char(']')));
    assert_eq!(app.current_sheet, TableId(0));
    assert!(matches!(e[..], [Effect::PopulateSheet(TableId(0))]));
    app.process_event(key(KeyCode::Char('[')));
    assert_eq!(app.current_sheet, TableId(1));
}

#[test]
fn typing_edits_the_cell_text() {
    let mut app = loaded_app();
    app.process_action(Action::SetMode(Mode::EditingCell(TextInput::new("ab"))));
    app.process_event(key(KeyCode::Char('c')));
    app.process_event(key(KeyCode::Backspace));
    app.process_event(key(KeyCode::Backspace));
    app.process_event(key(KeyCode::Char('z')));
    match &app.mode {
        Mode::EditingCell(t) => assert_eq!(t.input, "az"),
        _ => panic!("expected editing"),
    }
    app.process_event(key(KeyCode::Tab));
    assert!(matches!(app.pop_action(), Some(Action::FinishEdit)));
    assert!(matches!(app.pop_action(), Some(Action::NextCell)));
    app.process_event(key(KeyCode::Esc));
    assert!(matches!(app.pop_action(), Some(Action::CancelEdit)));
}

#[test]
fn typing_a_search_refreshes_the_list() {
    let mut app = loaded_app();
    app.process_action(Action::MoveCursor(Vector2i::new(2, 0)));
    app.process_action(Action::SetMode(Mode::EditBelongsTo {
        search: TextInput::new(""),
        results: Vec::new(),
        selected_index: 0,
    }));
    let e = app.process_event(key(KeyCode::Char('m')));
    assert!(matches!(e[..], [Effect::RefreshAutocomplete]));
    let q = match app.autocomplete_request() {
        Some(q) => q,
        None => panic!("a search is open on a relation"),
    };
    assert_eq!(q.sql, "SELECT id, title FROM milestone WHERE title LIKE ? OR id LIKE ?");
    assert_eq!(q.pattern, "%m%");
    app.finish_autocomplete(vec![RelatedRecord { key: "m1".to_string(), label: "First".to_string() }]);
    match app.pop_action() {
        Some(Action::SetMode(Mode::EditBelongsTo { search, results, .. })) => {
            assert_eq!(search.input, "m");
            assert_eq!(results.len(), 1);
            assert_eq!(results[0].label, "First");
        }
        _ => panic!("expected the results"),
    }
    app.process_event(Event::Key(KeyEvent { code: KeyCode::Tab, press: true, shift: true }));
    assert!(matches!(app.pop_action(), Some(Action::AutocompletePrev)));
    app.process_event(key(KeyCode::Esc));
    assert!(matches!(app.pop_action(), Some(Action::SetMode(Mode::Normal))));
}

#[test]
fn autocomplete_needs_a_relation_and_a_search() {
    let app = loaded_app();
    assert!(app.autocomplete_request().is_none());
}

#[test]
fn save_entity_request_reads_the_table_in_order() {
    let app = loaded_app();
    let q = app.save_entity_request(TableId(0));
    assert_eq!(q.sql, "SELECT id,status,milestone_id FROM todo ORDER BY __order ASC");
    assert_eq!(q.column_names, vec!["id", "status", "milestone_id"]);
    assert_eq!(q.source_file, "todo.csv");
}

#[test]
fn selected_row_and_view_cursor() {
    let mut app = loaded_app();
    app.process_action(Action::MoveCursor(Vector2i::new(1, 2)));
    assert_eq!(app.selected_row().rowid, 3);
    let s = sheet(&app);
    assert_eq!(s.view_cursor(), Vector2i::new(1, 2));
    assert_eq!(s.end_offset(), 3);
}

#[test]
fn push_action_front_goes_first() {
    let mut app = loaded_app();
    app.push_action(Action::NextCell);
    app.push_action_front(Action::AddRow);
    assert!(matches!(app.pop_action(), Some(Action::AddRow)));
    assert!(matches!(app.pop_action(), Some(Action::NextCell)));
    assert!(app.pop_action().is_none());
}

#[test]
fn scrolling_by_the_correction_shows_the_cursor() {
    let mut app = loaded_app();
    app.process_action(Action::MoveCursor(Vector2i::new(0, 2)));
    app.process_action(Action::Scroll(3));
    // the cursor row 2 lies before the offset 3
    assert!(app.can_correct_scroll());
    let amount = match app.scroll_correction() {
        Some(a) => a,
        None => panic!("a correction is due"),
    };
    assert_eq!(amount, -1);
    app.process_action(Action::Scroll(amount));
    let s = sheet(&app);
    let y = s.selected_cell.y as usize;
    assert!(s.start_offset <= y && y < s.start_offset + s.rows.len());
    assert_eq!(app.scroll_correction(), None);
}

#[test]
fn action_checks_follow_the_sheet() {
    let app = App::new(schema(), Vector2i::new(80, 24));
    // nothing is loaded yet: actions on the sheet cannot run
    assert!(!app.action_allowed(&Action::MoveCursor(Vector2i::new(1, 0))));
    assert!(!app.action_allowed(&Action::NextCell));
    assert!(app.action_allowed(&Action::CancelEdit));
    assert!(!app.can_correct_scroll());

    let app = loaded_app();
    assert!(app.action_allowed(&Action::MoveCursor(Vector2i::new(1, 0))));
    assert!(!app.action_allowed(&Action::Page(i32::MAX)));
    assert!(!app.action_allowed(&Action::Scroll(-1)));
    assert!(app.action_allowed(&Action::Scroll(1)));
    assert!(app.action_allowed(&Action::EditCell { clear: false }));
    assert!(app.action_allowed(&Action::AddRow));
    assert!(app.action_allowed(&Action::Page(-1)));
    let mut bad = TextInput::new("ab");
    bad.char_index = 3;
    assert!(!bad_mode_allowed(&app, bad));
    assert!(app.event_allowed());
}

fn bad_mode_allowed(app: &App, t: TextInput) -> bool {
    let m = Mode::EditingCell(t);
    let ok = m.is_wf();
    ok && app.action_allowed(&Action::SetMode(m))
}

#[test]
fn value_texts() {
    assert_eq!(CellValue::StringValue("s".to_string()).value_text("r"), "s");
    assert_eq!(CellValue::IntValue(-5).value_text("r"), "-5");
    assert_eq!(CellValue::FloatValue(1.5f64.to_bits()).value_text("1.5"), "1.5");
    assert_eq!(CellValue::NullValue.value_text("r"), "<null>");
    assert_eq!(CellValue::BlobValue(vec![0; 12]).value_text("r"), "<12 bytes>");
}

#[test]
fn group_tabs_label_each_value_of_the_grouping_field() {
    let mut app = loaded_app();
    // nothing is grouped yet
    assert!(app.group_tabs_request(TableId(0)).is_none());
    assert!(app.table_group_tabs(TableId(0), Vec::new()).is_empty());

    match app.sheets_cache.get_mut(&0) {
        Some(s) => s.group_by_field = Some(FieldId(1)),
        None => panic!("the sheet is loaded"),
    }
    let q = match app.group_tabs_request(TableId(0)) {
        Some(q) => q,
        None => panic!("the sheet is grouped"),
    };
    assert_eq!(q.groups_sql, "SELECT status FROM todo GROUP BY status");
    assert!(q.related_title_sql.is_none());

    let groups = vec![
        FetchedGroup {
            value: Value::Text("open".to_string()),
            cell: CellValue::StringValue("open".to_string()),
            real_text: String::new(),
            related_title: None,
        },
        FetchedGroup {
            value: Value::Integer(7),
            cell: CellValue::IntValue(7),
            real_text: String::new(),
            related_title: None,
        },
    ];
    let tabs = app.table_group_tabs(TableId(0), groups);
    assert_eq!(tabs.len(), 2);
    assert_eq!(tabs[0].label, "Open");
    assert_eq!(tabs[0].value, Value::Text("open".to_string()));
    assert_eq!(tabs[1].label, "7");

    let w = app.table_where_clause(TableId(0), &tabs);
    assert_eq!(w.as_query(), "WHERE (status = ?)");
    assert_eq!(w.param_values(), &vec![Value::Text("open".to_string())]);
}

#[test]
fn only_pressed_keys_run_the_queue() {
    assert!(key(KeyCode::Char('a')).runs_queued_actions());
    assert!(Event::Resize.runs_queued_actions());
    assert!(!Event::Key(KeyEvent { code: KeyCode::Char('a'), press: false, shift: false }).runs_queued_actions());
}
