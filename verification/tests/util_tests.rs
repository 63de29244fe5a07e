use flatlite::model::text::TextInput;
use flatlite::model::{CellValue, Mode, RelatedRecord, SheetCache, SheetRow};
use flatlite::schema::TableId;
use flatlite::strings::{str_concat, eq_str, join, signed_decimal, text_byte_len, unsigned_decimal};
use flatlite::util::Vector2i;
use flatlite::view::{cell_style, cell_text, related_item_text, search_line, status_text, CellStyle};

#[test]
fn vector_accessors_and_arithmetic() {
    let v = Vector2i::new(3, 4);
    assert_eq!(v.col(), 3);
    assert_eq!(v.row(), 4);
    assert_eq!(v + Vector2i::new(1, -2), Vector2i::new(4, 2));
    assert_eq!(v - Vector2i::new(1, -2), Vector2i::new(2, 6));
    // subtracting what was added gives the vector back
    let d = Vector2i::new(-7, 9);
    assert_eq!((v + d) - d, v);
}

#[test]
fn clamp_wrapped_wraps_each_coordinate() {
    let b = Vector2i::new(5, 10);
    assert_eq!(Vector2i::new(2, 3).clamp_wrapped(b), Vector2i::new(2, 3));
    assert_eq!(Vector2i::new(-1, 3).clamp_wrapped(b), Vector2i::new(4, 3));
    assert_eq!(Vector2i::new(5, 3).clamp_wrapped(b), Vector2i::new(0, 3));
    assert_eq!(Vector2i::new(2, -4).clamp_wrapped(b), Vector2i::new(2, 9));
    assert_eq!(Vector2i::new(2, 10).clamp_wrapped(b), Vector2i::new(2, 0));
    // an empty or single bound wraps to 0
    assert_eq!(Vector2i::new(-1, -1).clamp_wrapped(Vector2i::new(0, 1)), Vector2i::new(0, 0));
    assert_eq!(Vector2i::new(3, 3).clamp_wrapped(Vector2i::new(0, 0)), Vector2i::new(0, 0));
}

#[test]
fn clamp_wrapped_stays_in_bounds_and_is_stable() {
    let b = Vector2i::new(4, 7);
    for x in -10..10 {
        for y in -10..10 {
            let w = Vector2i::new(x, y).clamp_wrapped(b);
            assert!(0 <= w.x && w.x < b.x);
            assert!(0 <= w.y && w.y < b.y);
            assert_eq!(w.clamp_wrapped(b), w);
        }
    }
}

#[test]
fn decimal_text() {
    assert_eq!(unsigned_decimal(0), "0");
    assert_eq!(unsigned_decimal(1234567890), "1234567890");
    assert_eq!(unsigned_decimal(u64::MAX), u64::MAX.to_string());
    assert_eq!(signed_decimal(-42), "-42");
    assert_eq!(signed_decimal(7), "7");
    assert_eq!(signed_decimal(i64::MIN), i64::MIN.to_string());
    assert_eq!(signed_decimal(i64::MAX), i64::MAX.to_string());
}

#[test]
fn string_helpers() {
    assert_eq!(join(&vec!["a".to_string(), "b".to_string(), "c".to_string()], ", "), "a, b, c");
    assert_eq!(join(&vec!["a".to_string()], ", "), "a");
    assert_eq!(join(&Vec::new(), ", "), "");
    assert_eq!(str_concat("ab", "cd"), "abcd");
    assert!(eq_str(&"x".to_string(), "x"));
    assert!(!eq_str(&"x".to_string(), "y"));
    assert_eq!(text_byte_len("héllo"), 6);
}

#[test]
fn text_input_inserts_and_deletes_at_the_cursor() {
    let mut t = TextInput::new("héllo");
    assert_eq!(t.char_index, 5);
    t.char_index = 2;
    t.insert_char_at_cursor('X');
    assert_eq!(t.input, "héXllo");
    assert_eq!(t.char_index, 3);
    t.delete_char();
    assert_eq!(t.input, "héllo");
    assert_eq!(t.char_index, 2);
    t.char_index = 0;
    t.delete_char();
    assert_eq!(t.input, "héllo");
    assert_eq!(t.char_index, 0);
    let c = t.clone();
    assert_eq!(c.input, t.input);
}

#[test]
fn cell_styles() {
    let normal = Mode::Normal;
    let editing = Mode::EditingCell(TextInput::new("x"));
    let search = Mode::EditBelongsTo { search: TextInput::new(""), results: Vec::new(), selected_index: 0 };
    assert_eq!(cell_style(true, true, &editing), CellStyle::Editing);
    assert_eq!(cell_style(true, true, &normal), CellStyle::Selected);
    assert_eq!(cell_style(true, true, &search), CellStyle::Selected);
    assert_eq!(cell_style(true, false, &normal), CellStyle::Aligned);
    assert_eq!(cell_style(false, true, &normal), CellStyle::Aligned);
    assert_eq!(cell_style(false, true, &editing), CellStyle::Plain);
    assert_eq!(cell_style(false, false, &normal), CellStyle::Plain);
}

#[test]
fn cell_text_shows_the_typed_text_of_the_edited_cell() {
    let shown = "stored".to_string();
    let editing = Mode::EditingCell(TextInput::new("typed"));
    assert_eq!(cell_text(&shown, &editing, true), "typed");
    assert_eq!(cell_text(&shown, &editing, false), "stored");
    assert_eq!(cell_text(&shown, &Mode::Normal, true), "stored");
}

#[test]
fn status_line() {
    let sheet = SheetCache {
        selected_cell: Vector2i::new(2, -1),
        start_offset: 10,
        total_count: 120,
        table_id: TableId(0),
        columns: Vec::new(),
        rows: vec![
            SheetRow { rowid: 1, order: 0, cells: Vec::new() },
            SheetRow { rowid: 2, order: 1, cells: Vec::new() },
        ],
        group_by_field: None,
        group_tabs: Vec::new(),
        group_selected: 0,
    };
    assert_eq!(status_text(&sheet), "10-12 / 120     Cursor 2, -1");
}

#[test]
fn autocomplete_lines() {
    let empty = TextInput::new("");
    assert_eq!(search_line(&empty, "Search"), (true, "Search"));
    let typed = TextInput::new("mi");
    assert_eq!(search_line(&typed, "Search"), (false, "mi"));
    let r = RelatedRecord { key: "m1".to_string(), label: "First".to_string() };
    assert_eq!(related_item_text(&r), "m1 First");
}

#[test]
fn cell_value_clone_keeps_the_value() {
    let v = CellValue::BlobValue(vec![1, 2, 3]);
    match v.clone() {
        CellValue::BlobValue(b) => assert_eq!(b, vec![1, 2, 3]),
        _ => panic!("expected a blob"),
    }
}
