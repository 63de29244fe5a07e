pub mod text;
pub mod actions;
pub mod events;
pub mod populate;
pub mod filter;
pub mod derived;

use vstd::prelude::*;
use std::collections::{HashMap, VecDeque};
use crate::model::text::TextInput;
use crate::model::actions::Action;
use crate::schema::{FieldId, FieldType, Schema, TableId, TableSchema};
use crate::strings::{decimal, digits, join, join_spec, signed_decimal, string_views, unsigned_decimal};
use crate::util::Vector2i;

verus! {

broadcast use vstd::std_specs::hash::group_hash_axioms;

/// The value of a cell as the database holds it. A real number is kept as the
/// bits of its IEEE 754 representation.
#[derive(Debug)]
pub enum CellValue {
    StringValue(String),
    IntValue(i64),
    FloatValue(u64),
    NullValue,
    BlobValue(Vec<u8>),
}

pub enum CellValueView {
    StringValue(Seq<char>),
    IntValue(i64),
    FloatValue(u64),
    NullValue,
    BlobValue(Seq<u8>),
}

impl View for CellValue {
    type V = CellValueView;

    open spec fn view(&self) -> CellValueView {
        match self {
            CellValue::StringValue(s) => CellValueView::StringValue(s@),
            CellValue::IntValue(i) => CellValueView::IntValue(*i),
            CellValue::FloatValue(b) => CellValueView::FloatValue(*b),
            CellValue::NullValue => CellValueView::NullValue,
            CellValue::BlobValue(v) => CellValueView::BlobValue(v@),
        }
    }
}

/// The text of a value: a string as it is, an integer in decimal, `<null>`,
/// `<n bytes>` for a blob, and for a real number the text given for it.
pub open spec fn value_text_spec(v: CellValueView, real_text: Seq<char>) -> Seq<char> {
    match v {
        CellValueView::StringValue(s) => s,
        CellValueView::IntValue(i) => decimal(i as int),
        CellValueView::FloatValue(_) => real_text,
        CellValueView::NullValue => "<null>"@,
        CellValueView::BlobValue(b) => "<"@ + digits(b.len()) + " bytes>"@,
    }
}

impl CellValue {
    /// The text of the value. A real number's text comes from the standard
    /// library's formatting of floating-point numbers, which the caller does
    /// and passes as `real_text`; it is used for a real number only.
    pub fn value_text(&self, real_text: &str) -> (r: String)
        ensures
            r@ == value_text_spec(self@, real_text@),
    {
        match self {
            CellValue::StringValue(s) => s.clone(),
            CellValue::IntValue(i) => signed_decimal(*i),
            CellValue::FloatValue(_) => String::from_str(real_text),
            CellValue::NullValue => String::from_str("<null>"),
            CellValue::BlobValue(b) => {
                let mut r = String::from_str("<");
                let n = unsigned_decimal(b.len() as u64);
                r.append(n.as_str());
                r.append(" bytes>");
                r
            },
        }
    }
}

/// A cell: its value and the text shown for it.
#[derive(Debug)]
pub struct CellData {
    pub value: CellValue,
    pub display: String,
}

#[derive(Debug)]
pub struct SheetRow {
    pub rowid: i64,
    pub order: i64,
    pub cells: Vec<CellData>,
}

#[derive(Debug)]
pub struct SheetColumn {
    pub width: u16,
    pub field_id: FieldId,
}

/// The loaded part of a table, with the cursor and the view's position.
#[derive(Debug)]
pub struct SheetCache {
    /// Selected cell (absolute coordinates in the whole table)
    pub selected_cell: Vector2i,
    /// The query offset at which the loaded rows start
    pub start_offset: usize,
    /// Total number of records in the table
    pub total_count: usize,
    pub table_id: TableId,
    pub columns: Vec<SheetColumn>,
    /// The loaded rows
    pub rows: Vec<SheetRow>,
    /// The field the rows are grouped by, if any
    pub group_by_field: Option<FieldId>,
    pub group_tabs: Vec<String>,
    pub group_selected: usize,
}

/// The selected cell relative to the loaded rows, when it can be computed.
pub open spec fn view_cursor_spec(s: SheetCache) -> Option<(i32, i32)> {
    let y = s.selected_cell.y - ((s.start_offset as i32) as int);
    if i32::MIN <= y <= i32::MAX {
        Some((s.selected_cell.x, y as i32))
    } else {
        None
    }
}

/// The loaded row under the cursor exists.
pub open spec fn cursor_row_ok(s: SheetCache) -> bool {
    view_cursor_spec(s) matches Some((x, y)) && ((y as usize) as int) < s.rows@.len()
}

/// The cell under the cursor exists in its loaded row.
pub open spec fn cursor_cell_ok(s: SheetCache) -> bool {
    cursor_row_ok(s) && {
        let (x, y) = view_cursor_spec(s).unwrap();
        ((x as usize) as int) < s.rows@[(y as usize) as int].cells@.len()
    }
}

/// The column under the cursor exists.
pub open spec fn cursor_column_ok(s: SheetCache) -> bool {
    ((s.selected_cell.x as usize) as int) < s.columns@.len()
}

/// The loaded row under the cursor.
pub open spec fn cursor_row(s: SheetCache) -> SheetRow {
    s.rows@[((view_cursor_spec(s).unwrap().1) as usize) as int]
}

/// The cell under the cursor.
pub open spec fn cursor_cell(s: SheetCache) -> CellData {
    cursor_row(s).cells@[(s.selected_cell.x as usize) as int]
}

/// The column under the cursor.
pub open spec fn cursor_column(s: SheetCache) -> SheetColumn {
    s.columns@[(s.selected_cell.x as usize) as int]
}

impl SheetCache {
    /// The offset just past the loaded rows.
    pub fn end_offset(&self) -> (r: usize)
        requires
            self.start_offset + self.rows@.len() <= usize::MAX,
        ensures
            r == self.start_offset + self.rows@.len(),
    {
        self.start_offset + self.rows.len()
    }

    /// The cursor relative to the loaded rows.
    pub fn view_cursor(&self) -> (r: Vector2i)
        requires
            view_cursor_spec(*self) is Some,
        ensures
            view_cursor_spec(*self) == Some((r.x, r.y)),
    {
        self.selected_cell - Vector2i::new(0, self.start_offset as i32)
    }

    /// The columns, grouping field and table exist in the schema.
    pub open spec fn refs_valid(&self, schema: Schema) -> bool {
        &&& self.table_id.0 < schema.tables@.len()
        &&& forall|c: int|
            0 <= c < self.columns@.len() ==> (#[trigger] self.columns@[c]).field_id.0
                < schema.fields@.len()
        &&& (self.group_by_field matches Some(f) ==> f.0 < schema.fields@.len())
    }
}

#[derive(Debug)]
pub struct RelatedRecord {
    pub key: String,
    pub label: String,
}

impl Clone for RelatedRecord {
    fn clone(&self) -> (r: Self)
        ensures
            r == *self,
    {
        RelatedRecord { key: self.key.clone(), label: self.label.clone() }
    }
}

/// What the keyboard edits.
#[derive(Debug)]
pub enum Mode {
    Normal,
    EditingCell(TextInput),
    EditBelongsTo { search: TextInput, results: Vec<RelatedRecord>, selected_index: usize },
}

impl Mode {
    /// The text being edited has its cursor within it.
    pub open spec fn wf(&self) -> bool {
        match self {
            Mode::Normal => true,
            Mode::EditingCell(t) => t.wf(),
            Mode::EditBelongsTo { search, .. } => search.wf(),
        }
    }

    pub fn is_normal(&self) -> (r: bool)
        ensures
            r == (*self is Normal),
    {
        match self {
            Mode::Normal => true,
            _ => false,
        }
    }

    pub fn is_editing(&self) -> (r: bool)
        ensures
            r == (*self is EditingCell),
    {
        match self {
            Mode::EditingCell(_) => true,
            _ => false,
        }
    }
}

/// The state of the spreadsheet: the schema, the loaded sheets, the cursor's
/// sheet, the editing mode and the queue of actions still to run.
pub struct App {
    pub command_buffer: VecDeque<Action>,
    pub schema: Schema,
    /// The loaded sheets, keyed by the number of their table.
    pub sheets_cache: HashMap<usize, SheetCache>,
    pub current_sheet: TableId,
    pub available_size: Vector2i,
    pub show_debug: bool,
    pub should_quit: bool,
    pub debug_text: String,
    pub mode: Mode,
}

impl App {
    /// The schema refers only to what exists, it has a table, the current
    /// sheet is one of its tables, and every loaded sheet belongs to the table
    /// it is filed under and refers only to what exists.
    pub open spec fn wf(&self) -> bool {
        &&& self.schema.wf()
        &&& self.schema.tables@.len() > 0
        &&& self.current_sheet.0 < self.schema.tables@.len()
        &&& self.mode.wf()
        &&& forall|k: usize|
            #[trigger] self.sheets_cache@.contains_key(k) ==> {
                &&& k < self.schema.tables@.len()
                &&& self.sheets_cache@[k].table_id.0 == k
                &&& self.sheets_cache@[k].refs_valid(self.schema)
            }
    }

    /// The sheet of the current table is loaded.
    pub open spec fn has_active(&self) -> bool {
        self.sheets_cache@.contains_key(self.current_sheet.0)
    }

    /// The sheet of the current table.
    pub open spec fn active(&self) -> SheetCache {
        self.sheets_cache@[self.current_sheet.0]
    }

    /// A new model for the schema, with nothing loaded yet; the caller then
    /// loads the sheet of the first table.
    pub fn new(schema: Schema, initial_size: Vector2i) -> (r: Self)
        ensures
            r.command_buffer@.len() == 0,
            r.schema == schema,
            r.sheets_cache@.len() == 0,
            r.current_sheet == TableId(0),
            r.available_size == initial_size,
            !r.show_debug,
            !r.should_quit,
            r.debug_text@.len() == 0,
            r.mode is Normal,
            schema.wf() && schema.tables@.len() > 0 ==> r.wf(),
    {
        App {
            command_buffer: VecDeque::new(),
            current_sheet: TableId(0),
            show_debug: false,
            debug_text: String::new(),
            should_quit: false,
            available_size: initial_size,
            sheets_cache: HashMap::new(),
            mode: Mode::Normal,
            schema,
        }
    }

    pub fn current_table_schema(&self) -> (r: &TableSchema)
        requires
            self.current_sheet.0 < self.schema.tables@.len(),
        ensures
            *r == self.schema.tables@[self.current_sheet.0 as int],
    {
        self.schema.table(self.current_sheet)
    }

    /// The loaded sheet of the current table.
    pub fn active_sheet(&self) -> (r: Option<&SheetCache>)
        requires
            self.has_active(),
        ensures
            r == Some(&self.active()),
    {
        match self.sheets_cache.get(&self.current_sheet.0) {
            Some(s) => Some(s),
            None => None,
        }
    }

    /// Queues an action after the others.
    pub fn push_action(&mut self, action: Action)
        ensures
            final(self).command_buffer@ == old(self).command_buffer@.push(action),
            final(self).schema == old(self).schema,
            final(self).sheets_cache == old(self).sheets_cache,
            final(self).current_sheet == old(self).current_sheet,
            final(self).available_size == old(self).available_size,
            final(self).show_debug == old(self).show_debug,
            final(self).should_quit == old(self).should_quit,
            final(self).debug_text == old(self).debug_text,
            final(self).mode == old(self).mode,
    {
        self.command_buffer.push_back(action);
    }

    /// Queues an action before the others.
    pub fn push_action_front(&mut self, action: Action)
        ensures
            final(self).command_buffer@ == seq![action] + old(self).command_buffer@,
            final(self).schema == old(self).schema,
            final(self).sheets_cache == old(self).sheets_cache,
            final(self).current_sheet == old(self).current_sheet,
            final(self).available_size == old(self).available_size,
            final(self).show_debug == old(self).show_debug,
            final(self).should_quit == old(self).should_quit,
            final(self).debug_text == old(self).debug_text,
            final(self).mode == old(self).mode,
    {
        self.command_buffer.push_front(action);
    }

    /// Takes the next queued action.
    pub fn pop_action(&mut self) -> (r: Option<Action>)
        ensures
            old(self).command_buffer@.len() == 0 ==> r is None && final(self).command_buffer@
                == old(self).command_buffer@,
            old(self).command_buffer@.len() > 0 ==> r == Some(old(self).command_buffer@[0])
                && final(self).command_buffer@ == old(self).command_buffer@.drop_first(),
            final(self).schema == old(self).schema,
            final(self).sheets_cache == old(self).sheets_cache,
            final(self).current_sheet == old(self).current_sheet,
            final(self).available_size == old(self).available_size,
            final(self).show_debug == old(self).show_debug,
            final(self).should_quit == old(self).should_quit,
            final(self).debug_text == old(self).debug_text,
            final(self).mode == old(self).mode,
    {
        self.command_buffer.pop_front()
    }
}

/// The search for related records that the autocomplete list shows.
pub struct AutocompleteQuery {
    /// Its two placeholders both take `pattern`.
    pub sql: String,
    pub pattern: String,
}

/// What writing a table back to its CSV file reads from the database.
pub struct SaveQuery {
    pub sql: String,
    /// The header of the file: the table's field names.
    pub column_names: Vec<String>,
    pub source_file: String,
}

/// The scroll that brings the cursor back among the loaded rows: past the end,
/// by how far it is past the last loaded row; before the start, by how far it
/// is before it (a negative amount); none when it is among them.
pub open spec fn scroll_correction_spec(s: SheetCache) -> Option<i32> {
    let end = ((s.start_offset + s.rows@.len()) as usize) as i32;
    let start = s.start_offset as i32;
    if s.selected_cell.y >= end {
        Some((s.selected_cell.y - end + 1) as i32)
    } else if s.selected_cell.y < start {
        Some((s.selected_cell.y - start) as i32)
    } else {
        None
    }
}

impl App {
    /// Whether the cursor's column exists in the current sheet.
    pub open spec fn cursor_column_valid(&self) -> bool {
        self.has_active() && cursor_column_ok(self.active())
    }

    /// The search the autocomplete list needs: there is one only when the
    /// cursor's field is a `belongs_to` field and a related record is being
    /// searched for; it matches the search text anywhere in a related record's
    /// title or id.
    pub fn autocomplete_request(&self) -> (r: Option<AutocompleteQuery>)
        requires
            self.wf(),
            self.cursor_column_valid(),
        ensures
            ({
                let f = self.schema.fields@[cursor_column(self.active()).field_id.0 as int];
                match (f.field_type, self.mode) {
                    (FieldType::BelongsToField(t, _), Mode::EditBelongsTo { search, .. }) => r matches Some(
                        q,
                    ) && q.sql@ == "SELECT id, title FROM "@ + self.schema.tables@[t.0 as int].name@
                        + " WHERE title LIKE ? OR id LIKE ?"@ && q.pattern@ == "%"@ + search.input@
                        + "%"@,
                    _ => r is None,
                }
            }),
    {
        let sheet = match self.active_sheet() {
            Some(s) => s,
            None => vstd::pervasive::unreached(),
        };
        proof {
            assert(self.sheets_cache@.contains_key(self.current_sheet.0));
            assert(sheet.refs_valid(self.schema));
            assert(sheet.columns@[(sheet.selected_cell.x as usize) as int].field_id.0 < self.schema.fields@.len());
        }
        let col_field_id = sheet.columns[sheet.selected_cell.col()].field_id;
        let selected_field = self.schema.field(col_field_id);
        let related_table = match selected_field.field_type {
            FieldType::BelongsToField(t, _) => t,
            _ => { return None; },
        };
        let search = match &self.mode {
            Mode::EditBelongsTo { search, .. } => search,
            _ => { return None; },
        };
        proof {
            assert(self.schema.fields@[col_field_id.0 as int].field_type matches FieldType::BelongsToField(t, _) && t.0 < self.schema.tables@.len());
        }
        let mut pattern = String::from_str("%");
        pattern.append(search.input.as_str());
        pattern.append("%");
        let mut sql = String::from_str("SELECT id, title FROM ");
        sql.append(self.schema.table(related_table).name.as_str());
        sql.append(" WHERE title LIKE ? OR id LIKE ?");
        Some(AutocompleteQuery { sql, pattern })
    }

    /// Queues the search results for the autocomplete list, keeping the search
    /// text and the selection.
    pub fn finish_autocomplete(&mut self, results: Vec<RelatedRecord>)
        requires
            old(self).mode is EditBelongsTo,
        ensures
            ({
                let (search, idx) = match old(self).mode {
                    Mode::EditBelongsTo { search, selected_index, .. } => (search, selected_index),
                    _ => arbitrary(),
                };
                final(self).command_buffer@ == old(self).command_buffer@.push(
                    Action::SetMode(Mode::EditBelongsTo { search, results, selected_index: idx }),
                )
            }),
            final(self).schema == old(self).schema,
            final(self).sheets_cache == old(self).sheets_cache,
            final(self).current_sheet == old(self).current_sheet,
            final(self).available_size == old(self).available_size,
            final(self).show_debug == old(self).show_debug,
            final(self).should_quit == old(self).should_quit,
            final(self).debug_text == old(self).debug_text,
            final(self).mode == old(self).mode,
    {
        let (search, selected_index) = match &self.mode {
            Mode::EditBelongsTo { search, selected_index, .. } => (search.clone(), *selected_index),
            _ => vstd::pervasive::unreached(),
        };
        self.push_action(Action::SetMode(Mode::EditBelongsTo { search, results, selected_index }));
    }

    /// The current sheet is loaded, and the scroll that brings its cursor back
    /// among its loaded rows can be computed without overflow.
    pub open spec fn scroll_correction_ok(&self) -> bool {
        &&& self.has_active()
        &&& self.active().start_offset + self.active().rows@.len() <= usize::MAX
        &&& ({
            let s = self.active();
            let end = ((s.start_offset + s.rows@.len()) as usize) as i32;
            let start = s.start_offset as i32;
            &&& s.selected_cell.y >= end ==> s.selected_cell.y - end + 1 <= i32::MAX
            &&& s.selected_cell.y < start ==> s.selected_cell.y - start >= i32::MIN
        })
    }

    /// Whether the scroll correction can be computed (see `scroll_correction_ok`).
    pub fn can_correct_scroll(&self) -> (r: bool)
        ensures
            r == self.scroll_correction_ok(),
    {
        let sheet = match self.sheets_cache.get(&self.current_sheet.0) {
            Some(s) => s,
            None => { return false; },
        };
        let end = match sheet.start_offset.checked_add(sheet.rows.len()) {
            Some(e) => e as i32,
            None => { return false; },
        };
        let start = sheet.start_offset as i32;
        let y = sheet.selected_cell.y as i64;
        (y < end as i64 || y - end as i64 + 1 <= i32::MAX as i64)
            && (y >= start as i64 || y - start as i64 >= i32::MIN as i64)
    }

    /// The scroll that brings the cursor back among the loaded rows after the
    /// actions ran: past the end, by how far it is past the last loaded row;
    /// before the start, by how far it is before it (a negative amount).
    pub fn scroll_correction(&self) -> (r: Option<i32>)
        requires
            self.scroll_correction_ok(),
        ensures
            r == scroll_correction_spec(self.active()),
    {
        let sheet = match self.active_sheet() {
            Some(s) => s,
            None => vstd::pervasive::unreached(),
        };
        let selected_cell = sheet.selected_cell;
        let start_offset = sheet.start_offset as i32;
        let end_offset = sheet.end_offset() as i32;
        if selected_cell.y >= end_offset {
            Some(selected_cell.y - end_offset + 1)
        } else if selected_cell.y < start_offset {
            Some(selected_cell.y - start_offset)
        } else {
            None
        }
    }

    /// The query that reads a table back for its CSV file, in order, with the
    /// file's header and path.
    pub fn save_entity_request(&self, table_id: TableId) -> (r: SaveQuery)
        requires
            self.wf(),
            table_id.0 < self.schema.tables@.len(),
        ensures
            ({
                let t = self.schema.tables@[table_id.0 as int];
                let names = t.fields@.map_values(|f: FieldId| self.schema.fields@[f.0 as int].name@);
                &&& string_views(r.column_names@) == names
                &&& r.sql@ == "SELECT "@ + join_spec(names, ","@) + " FROM "@ + t.name@
                    + " ORDER BY __order ASC"@
                &&& r.source_file@ == t.source_file@
            }),
    {
        let table = self.schema.table(table_id);
        let columns = self.schema.fields_for_table(table_id);
        let ghost names = table.fields@.map_values(|f: FieldId| self.schema.fields@[f.0 as int].name@);
        let mut column_names: Vec<String> = Vec::with_capacity(columns.len());
        let mut i: usize = 0;
        while i < columns.len()
            invariant
                i <= columns@.len(),
                columns@.len() == table.fields@.len(),
                *table == self.schema.tables@[table_id.0 as int],
                names == table.fields@.map_values(|f: FieldId| self.schema.fields@[f.0 as int].name@),
                forall|k: int|
                    0 <= k < columns@.len() ==> *#[trigger] columns@[k] == self.schema.fields@[table.fields@[k].0 as int],
                string_views(column_names@) =~= names.take(i as int),
            decreases columns@.len() - i,
        {
            let n = columns[i].name.clone();
            let ghost before = column_names@;
            column_names.push(n);
            proof {
                assert(string_views(column_names@) =~= string_views(before).push(n@));
            }
            i = i + 1;
        }
        proof {
            assert(names.take(columns@.len() as int) =~= names);
        }
        let mut sql = String::from_str("SELECT ");
        let joined = join(&column_names, ",");
        sql.append(joined.as_str());
        sql.append(" FROM ");
        sql.append(table.name.as_str());
        sql.append(" ORDER BY __order ASC");
        SaveQuery { sql, column_names, source_file: table.source_file.clone() }
    }
}

} // verus!
