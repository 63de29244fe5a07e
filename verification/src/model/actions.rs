use vstd::prelude::*;
use crate::model::{
    App, CellData, Mode, RelatedRecord, SheetCache, cursor_cell, cursor_cell_ok, cursor_column,
    cursor_column_ok, cursor_row, cursor_row_ok, scroll_correction_spec, view_cursor_spec,
};
use crate::model::text::TextInput;
use crate::schema::{FieldType, SelectOption, TableId};
use crate::util::{Vector2i, lemma_clamp_wrapped_in_bounds, wrap_coord};

verus! {

broadcast use vstd::std_specs::hash::group_hash_axioms;

/// A change the user asks of the model.
#[derive(Debug)]
pub enum Action {
    MoveCursor(Vector2i),
    Scroll(i32),
    Page(i32),
    AddRow,
    NextCell,
    FinishEdit,
    CancelEdit,
    RefreshView,
    SetMode(Mode),
    EditCell { clear: bool },
    SaveCell { value: String },
    /// Named by the key bindings; the model does nothing on them.
    PrevGroup,
    NextGroup,
    DeleteRow,
    SetGroupBy,
    AutocompleteNext,
    AutocompletePrev,
}

/// A value for a statement's placeholder.
#[derive(Debug)]
pub enum SqlParam {
    Text(String),
    Integer(i64),
}

/// Work outside the model that an action calls for, to be done in order.
#[derive(Debug)]
pub enum Effect {
    /// Load the sheet of the table from the database.
    PopulateSheet(TableId),
    /// Search the related records for the autocomplete list.
    RefreshAutocomplete,
    /// Run a statement on the database.
    Execute { sql: String, params: Vec<SqlParam> },
    /// Write the table back to its CSV file.
    SaveEntity(TableId),
}

/// The bounds the cursor wraps within: the columns, and all the table's rows.
pub open spec fn sheet_bounds(s: SheetCache) -> Vector2i {
    Vector2i { x: s.columns@.len() as i32, y: s.total_count as i32 }
}

/// A position wrapped into the bounds.
pub open spec fn wrapped(v: Vector2i, b: Vector2i) -> Vector2i {
    Vector2i { x: wrap_coord(v.x as int, b.x as int) as i32, y: wrap_coord(v.y as int, b.y as int) as i32 }
}

/// Adding the two positions stays within `i32`.
pub open spec fn add_fits(a: Vector2i, b: Vector2i) -> bool {
    &&& i32::MIN <= a.x + b.x <= i32::MAX
    &&& i32::MIN <= a.y + b.y <= i32::MAX
}

pub open spec fn plus(a: Vector2i, b: Vector2i) -> Vector2i {
    Vector2i { x: (a.x + b.x) as i32, y: (a.y + b.y) as i32 }
}

/// The sheet with the cursor moved by `rel` and wrapped into the bounds.
pub open spec fn moved(s: SheetCache, rel: Vector2i) -> SheetCache {
    SheetCache { selected_cell: wrapped(plus(s.selected_cell, rel), sheet_bounds(s)), ..s }
}

/// The cell after the cursor: the next column, or the first column of the
/// next row after the last column, wrapping at the end of the table.
pub open spec fn next_cell_spec(s: SheetCache) -> Vector2i {
    let b = sheet_bounds(s);
    let c = wrapped(plus(s.selected_cell, Vector2i { x: 1, y: 0 }), b);
    if c.x == 0 {
        wrapped(Vector2i { x: c.x, y: (c.y + 1) as i32 }, b)
    } else {
        c
    }
}

/// The scroll amount can be applied to the offset.
pub open spec fn scroll_ok(offset: usize, amount: i32) -> bool {
    if amount < 0 {
        amount > i32::MIN && offset >= -amount
    } else {
        offset + amount <= usize::MAX
    }
}

/// The offset after scrolling.
pub open spec fn scrolled(offset: usize, amount: i32) -> usize {
    (offset + amount) as usize
}

/// Moving the cursor, by any amount or to the next cell, leaves it inside the
/// sheet: within its columns and the table's rows, whenever there is at least
/// one of each.
pub proof fn lemma_cursor_stays_in_sheet(s: SheetCache, rel: Vector2i)
    requires
        sheet_bounds(s).x > 0,
        sheet_bounds(s).y > 0,
    ensures
        0 <= moved(s, rel).selected_cell.x < sheet_bounds(s).x,
        0 <= moved(s, rel).selected_cell.y < sheet_bounds(s).y,
        0 <= next_cell_spec(s).x < sheet_bounds(s).x,
        0 <= next_cell_spec(s).y < sheet_bounds(s).y,
{
    let b = sheet_bounds(s);
    lemma_clamp_wrapped_in_bounds(plus(s.selected_cell, rel), b);
    let c = wrapped(plus(s.selected_cell, Vector2i { x: 1, y: 0 }), b);
    lemma_clamp_wrapped_in_bounds(plus(s.selected_cell, Vector2i { x: 1, y: 0 }), b);
    lemma_clamp_wrapped_in_bounds(Vector2i { x: c.x, y: (c.y + 1) as i32 }, b);
}

/// Scrolling by the correction brings the cursor's row into the window of as
/// many rows as are loaded that starts at the new offset: to its last row when
/// the cursor was past the end, to its first row when it was before the start.
pub proof fn lemma_scroll_correction_shows_cursor(s: SheetCache)
    requires
        scroll_correction_spec(s) matches Some(a) && scroll_ok(s.start_offset, a),
        s.start_offset + s.rows@.len() <= i32::MAX,
        s.rows@.len() > 0,
        s.selected_cell.y >= 0,
    ensures
        ({
            let o = scrolled(s.start_offset, scroll_correction_spec(s)->Some_0);
            &&& o <= s.selected_cell.y < o + s.rows@.len()
            &&& s.selected_cell.y >= s.start_offset + s.rows@.len() ==> o + s.rows@.len() - 1
                == s.selected_cell.y
            &&& s.selected_cell.y < s.start_offset ==> o == s.selected_cell.y
        }),
{
    let end_n: int = s.start_offset + s.rows@.len();
    assert((end_n as usize) as int == end_n);
    assert(((end_n as usize) as i32) as int == end_n);
    assert((s.start_offset as i32) as int == s.start_offset);
    let y = s.selected_cell.y as int;
    if y >= end_n {
        assert(((y - end_n + 1) as i32) as int == y - end_n + 1);
    } else if y < s.start_offset {
        assert(((y - s.start_offset) as i32) as int == y - s.start_offset);
    }
}

/// The distance one page moves the cursor: the amount of loaded rows,
/// `amount` times.
pub open spec fn page_delta(s: SheetCache, amount: i32) -> int {
    amount * ((s.rows@.len() as i32) as int)
}

/// A page moves the cursor by the loaded rows, not by the table: after
/// `Page(amount)` the cursor stays in its column and its row moves by `amount`
/// times the number of loaded rows, whenever that row lies in the table and
/// the cursor's column lies in the sheet.
pub proof fn lemma_page_moves_by_loaded_rows(pre: App, amount: i32, post: App, effects: Seq<Effect>)
    requires
        pre.has_active(),
        App::action_result(pre, Action::Page(amount), post, effects),
        pre.active().rows@.len() <= i32::MAX,
        pre.active().columns@.len() <= i32::MAX,
        pre.active().total_count <= i32::MAX,
        0 <= pre.active().selected_cell.x < pre.active().columns@.len(),
        0 <= pre.active().selected_cell.y,
        0 <= pre.active().selected_cell.y + amount * pre.active().rows@.len() < pre.active().total_count,
    ensures
        post.has_active(),
        post.active().selected_cell.x == pre.active().selected_cell.x,
        post.active().selected_cell.y == pre.active().selected_cell.y + amount * pre.active().rows@.len(),
        post.active().start_offset == pre.active().start_offset,
        post.active().rows == pre.active().rows,
        effects.len() == 0,
{
    let s = pre.active();
    let n = s.rows@.len() as int;
    assert(((s.rows@.len() as i32) as int) == n);
    assert((s.columns@.len() as i32) as int == s.columns@.len());
    assert((s.total_count as i32) as int == s.total_count);
    let d = page_delta(s, amount);
    assert(d == amount * n);
    assert(i32::MIN <= d <= i32::MAX);
    assert((d as i32) as int == d);
    let target = s.selected_cell.y + d;
    assert(((target as i32) as int) == target);
    assert(post.active().selected_cell == wrapped(plus(s.selected_cell, Vector2i { x: 0, y: d as i32 }), sheet_bounds(s)));
}

/// The index of the first option with the key, if any.
pub open spec fn option_index(opts: Seq<SelectOption>, key: Seq<char>) -> Option<int>
    decreases opts.len(),
{
    if opts.len() == 0 {
        None
    } else if opts[0].key@ == key {
        Some(0)
    } else {
        match option_index(opts.drop_first(), key) {
            Some(i) => Some(i + 1),
            None => None,
        }
    }
}

/// The option a select cell cycles to: the one after the first option whose
/// key is shown, or the first option when there is no such next one.
pub open spec fn next_option_key(opts: Seq<SelectOption>, shown: Seq<char>) -> Seq<char> {
    match option_index(opts, shown) {
        Some(i) if i + 1 < opts.len() => opts[i + 1].key@,
        _ => opts[0].key@,
    }
}

impl App {
    /// The type of the field under the cursor.
    pub open spec fn cursor_field_type(&self) -> FieldType {
        self.schema.fields@[cursor_column(self.active()).field_id.0 as int].field_type
    }

    /// The name of the current table.
    pub open spec fn active_table_name(&self) -> Seq<char> {
        self.schema.tables@[self.active().table_id.0 as int].name@
    }

    /// The name of the field under the cursor.
    pub open spec fn cursor_field_name(&self) -> Seq<char> {
        self.schema.fields@[cursor_column(self.active()).field_id.0 as int].name@
    }

    /// The action can be run without any of the failures the model guards
    /// against: it needs the current sheet loaded, the cursor over loaded
    /// cells where it reads them, arithmetic that stays within bounds, and a
    /// select field to offer an option.
    pub open spec fn action_ok(&self, action: Action) -> bool {
        match action {
            Action::MoveCursor(rel) => self.has_active() && add_fits(self.active().selected_cell, rel),
            Action::Scroll(amount) => self.has_active() && scroll_ok(self.active().start_offset, amount),
            Action::Page(amount) => self.has_active() && i32::MIN <= page_delta(self.active(), amount)
                <= i32::MAX && add_fits(
                self.active().selected_cell,
                Vector2i { x: 0, y: page_delta(self.active(), amount) as i32 },
            ),
            Action::AddRow => self.has_active() && cursor_row_ok(self.active()) && cursor_row(
                self.active(),
            ).rowid < i64::MAX && self.active().selected_cell.y < i32::MAX,
            Action::NextCell => self.has_active() && self.active().selected_cell.x < i32::MAX,
            Action::FinishEdit => self.has_active() && (self.mode is EditingCell ==> cursor_cell_ok(
                self.active(),
            )),
            Action::SaveCell { .. } => self.has_active() && cursor_row_ok(self.active())
                && cursor_column_ok(self.active()),
            Action::EditCell { .. } => self.has_active() && cursor_cell_ok(self.active())
                && cursor_column_ok(self.active()) && (self.cursor_field_type() matches FieldType::SelectField {
                options,
            } ==> options@.len() > 0),
            Action::SetMode(m) => m.wf(),
            _ => true,
        }
    }

    /// Everything but the command queue, the loaded sheets and the mode is as
    /// before.
    pub open spec fn same_frame(&self, other: &App) -> bool {
        &&& self.schema == other.schema
        &&& self.current_sheet == other.current_sheet
        &&& self.available_size == other.available_size
        &&& self.show_debug == other.show_debug
        &&& self.should_quit == other.should_quit
        &&& self.debug_text == other.debug_text
    }

    /// Takes the current sheet out of the cache.
    fn take_active(&mut self) -> (r: SheetCache)
        requires
            old(self).has_active(),
        ensures
            r == old(self).active(),
            final(self).sheets_cache@ == old(self).sheets_cache@.remove(old(self).current_sheet.0),
            final(self).same_frame(old(self)),
            final(self).mode == old(self).mode,
            final(self).command_buffer == old(self).command_buffer,
    {
        let key = self.current_sheet.0;
        match self.sheets_cache.remove(&key) {
            Some(s) => s,
            None => vstd::pervasive::unreached(),
        }
    }

    /// Files a sheet under the current table.
    fn put_active(&mut self, sheet: SheetCache)
        ensures
            final(self).sheets_cache@ == old(self).sheets_cache@.insert(old(self).current_sheet.0, sheet),
            final(self).same_frame(old(self)),
            final(self).mode == old(self).mode,
            final(self).command_buffer == old(self).command_buffer,
    {
        let key = self.current_sheet.0;
        self.sheets_cache.insert(key, sheet);
    }

    /// The name of the current table.
    fn active_table_name_exec(&self, sheet: &SheetCache) -> (r: &String)
        requires
            self.wf(),
            self.has_active(),
            *sheet == self.active(),
        ensures
            r@ == self.active_table_name(),
    {
        proof { assert(self.sheets_cache@.contains_key(self.current_sheet.0)); }
        &self.schema.table(sheet.table_id).name
    }

    /// The effect of an action on the model, and the work it leaves to do
    /// outside.
    pub open spec fn action_result(pre: App, action: Action, post: App, effects: Seq<Effect>) -> bool {
        let s = pre.active();
        let cur = pre.current_sheet.0;
        &&& post.same_frame(&pre)
        &&& match action {
            Action::MoveCursor(rel) => {
                &&& post.sheets_cache@ == pre.sheets_cache@.insert(cur, moved(s, rel))
                &&& post.command_buffer@ == pre.command_buffer@
                &&& post.mode == pre.mode
                &&& effects.len() == 0
            },
            Action::Page(amount) => {
                &&& post.sheets_cache@ == pre.sheets_cache@.insert(
                    cur,
                    moved(s, Vector2i { x: 0, y: page_delta(s, amount) as i32 }),
                )
                &&& post.command_buffer@ == pre.command_buffer@
                &&& post.mode == pre.mode
                &&& effects.len() == 0
            },
            Action::Scroll(amount) => {
                &&& post.sheets_cache@ == pre.sheets_cache@.insert(
                    cur,
                    SheetCache { start_offset: scrolled(s.start_offset, amount), ..s },
                )
                &&& post.command_buffer@ == pre.command_buffer@
                &&& post.mode == pre.mode
                &&& effects == seq![Effect::PopulateSheet(pre.current_sheet)]
            },
            Action::NextCell => {
                &&& post.sheets_cache@ == pre.sheets_cache@.insert(
                    cur,
                    SheetCache { selected_cell: next_cell_spec(s), ..s },
                )
                &&& post.command_buffer@ == pre.command_buffer@
                &&& post.mode == pre.mode
                &&& effects.len() == 0
            },
            Action::AddRow => {
                let new_order = cursor_row(s).rowid + 1;
                let table = pre.active_table_name();
                &&& post.sheets_cache@ == pre.sheets_cache@.insert(
                    cur,
                    SheetCache {
                        selected_cell: Vector2i {
                            x: s.selected_cell.x,
                            y: (s.selected_cell.y + 1) as i32,
                        },
                        ..s
                    },
                )
                &&& post.command_buffer@ == pre.command_buffer@
                &&& post.mode == pre.mode
                &&& effects.len() == 3
                &&& effects[0] matches Effect::Execute { sql, params } && sql@ == "UPDATE "@ + table
                    + " SET __order = __order + 1 WHERE __order >= ?"@ && params@ == seq![
                    SqlParam::Integer(new_order as i64),
                ]
                &&& effects[1] matches Effect::Execute { sql, params } && sql@ == "INSERT INTO "@
                    + table + " (__order) VALUES (?)"@ && params@ == seq![
                    SqlParam::Integer(new_order as i64),
                ]
                &&& effects[2] == Effect::PopulateSheet(pre.current_sheet)
            },
            Action::FinishEdit => {
                &&& post.sheets_cache@ == pre.sheets_cache@
                &&& post.mode == pre.mode
                &&& effects.len() == 0
                &&& match pre.mode {
                    Mode::EditingCell(t) => if cursor_cell(s).display@ == t.input@ {
                        post.command_buffer@ == pre.command_buffer@.push(Action::SetMode(Mode::Normal))
                    } else {
                        post.command_buffer@ == pre.command_buffer@.push(
                            Action::SaveCell { value: t.input },
                        )
                    },
                    _ => post.command_buffer@ == pre.command_buffer@,
                }
            },
            Action::SaveCell { value } => {
                &&& post.sheets_cache@ == pre.sheets_cache@
                &&& post.command_buffer@ == pre.command_buffer@
                &&& post.mode is Normal
                &&& effects.len() == 3
                &&& effects[0] matches Effect::Execute { sql, params } && sql@ == "UPDATE "@
                    + pre.active_table_name() + " SET "@ + pre.cursor_field_name()
                    + " = ? WHERE __order = ?"@ && params@ == seq![
                    SqlParam::Text(value),
                    SqlParam::Integer(cursor_row(s).rowid),
                ]
                &&& effects[1] == Effect::PopulateSheet(pre.current_sheet)
                &&& effects[2] == Effect::SaveEntity(pre.current_sheet)
            },
            Action::EditCell { clear } => {
                let shown = cursor_cell(s).display@;
                &&& post.sheets_cache@ == pre.sheets_cache@
                &&& effects.len() == 0
                &&& match pre.cursor_field_type() {
                    FieldType::StringField => {
                        &&& post.command_buffer@ == pre.command_buffer@
                        &&& post.mode matches Mode::EditingCell(t) && t.input@ == (if clear {
                            Seq::empty()
                        } else {
                            shown
                        }) && t.char_index == t.input@.len()
                    },
                    FieldType::SelectField { options } => {
                        &&& post.mode == pre.mode
                        &&& post.command_buffer@.len() == pre.command_buffer@.len() + 1
                        &&& post.command_buffer@.drop_last() == pre.command_buffer@
                        &&& post.command_buffer@.last() matches Action::SaveCell { value }
                            && value@ == next_option_key(options@, shown)
                    },
                    FieldType::BelongsToField(_, _) => {
                        &&& post.mode == pre.mode
                        &&& post.command_buffer@.len() == pre.command_buffer@.len() + 2
                        &&& post.command_buffer@.take(pre.command_buffer@.len() as int)
                            == pre.command_buffer@
                        &&& post.command_buffer@[pre.command_buffer@.len() as int] matches Action::SetMode(
                            Mode::EditBelongsTo { search, results, selected_index },
                        ) && search.input@.len() == 0 && search.char_index == 0 && results@.len() == 0
                            && selected_index == 0
                        &&& post.command_buffer@.last() == Action::RefreshView
                    },
                }
            },
            Action::CancelEdit => {
                &&& post.sheets_cache@ == pre.sheets_cache@
                &&& post.command_buffer@ == pre.command_buffer@
                &&& post.mode is Normal
                &&& effects.len() == 0
            },
            Action::SetMode(m) => {
                &&& post.sheets_cache@ == pre.sheets_cache@
                &&& post.command_buffer@ == pre.command_buffer@
                &&& post.mode == m
                &&& effects.len() == 0
            },
            Action::RefreshView => {
                &&& post.sheets_cache@ == pre.sheets_cache@
                &&& post.command_buffer@ == pre.command_buffer@
                &&& post.mode == pre.mode
                &&& effects == match pre.mode {
                    Mode::Normal => seq![Effect::PopulateSheet(pre.current_sheet)],
                    Mode::EditingCell(_) => Seq::empty(),
                    Mode::EditBelongsTo { .. } => seq![Effect::RefreshAutocomplete],
                }
            },
            _ => {
                &&& post.sheets_cache@ == pre.sheets_cache@
                &&& post.command_buffer@ == pre.command_buffer@
                &&& post.mode == pre.mode
                &&& effects.len() == 0
            },
        }
    }

    /// Moves the cursor of the current sheet by `rel`, wrapping it into the
    /// sheet's bounds.
    fn move_cursor(&mut self, rel: Vector2i)
        requires
            old(self).has_active(),
            add_fits(old(self).active().selected_cell, rel),
        ensures
            final(self).sheets_cache@ == old(self).sheets_cache@.insert(
                old(self).current_sheet.0,
                moved(old(self).active(), rel),
            ),
            final(self).same_frame(old(self)),
            final(self).mode == old(self).mode,
            final(self).command_buffer == old(self).command_buffer,
    {
        let mut sheet = self.take_active();
        let bounds = Vector2i::new(sheet.columns.len() as i32, sheet.total_count as i32);
        sheet.selected_cell = (sheet.selected_cell + rel).clamp_wrapped(bounds);
        self.put_active(sheet);
        proof {
            assert(self.sheets_cache@ =~= old(self).sheets_cache@.insert(
                old(self).current_sheet.0,
                moved(old(self).active(), rel),
            ));
        }
    }

    /// The key a select cell cycles to.
    fn next_option(options: &Vec<SelectOption>, shown: &String) -> (r: String)
        requires
            options@.len() > 0,
        ensures
            r@ == next_option_key(options@, shown@),
    {
        let mut i: usize = 0;
        while i < options.len()
            invariant
                i <= options@.len(),
                forall|j: int| 0 <= j < i ==> options@[j].key@ != shown@,
            decreases options@.len() - i,
        {
            if options[i].key == *shown {
                proof { lemma_option_index(options@, shown@, i as int); }
                if i + 1 < options.len() {
                    return options[i + 1].key.clone();
                }
                return options[0].key.clone();
            }
            i = i + 1;
        }
        proof { lemma_option_index(options@, shown@, i as int); }
        options[0].key.clone()
    }
}

impl App {
    /// Runs one action on the model. What it changes and the work it leaves
    /// to do outside, in order, are stated by `action_result`.
    pub fn process_action(&mut self, action: Action) -> (effects: Vec<Effect>)
        requires
            old(self).wf(),
            old(self).action_ok(action),
        ensures
            App::action_result(*old(self), action, *final(self), effects@),
            final(self).wf(),
    {
        let ghost pre = *self;
        let mut effects: Vec<Effect> = Vec::new();
        match action {
            Action::MoveCursor(rel) => {
                self.move_cursor(rel);
                assert(App::action_result(pre, action, *self, effects@));
            },
            Action::RefreshView => {
                match self.mode {
                    Mode::Normal => effects.push(Effect::PopulateSheet(self.current_sheet)),
                    Mode::EditingCell(_) => {},
                    Mode::EditBelongsTo { .. } => effects.push(Effect::RefreshAutocomplete),
                }
                proof {
                    assert(effects@ =~= match pre.mode {
                        Mode::Normal => seq![Effect::PopulateSheet(pre.current_sheet)],
                        Mode::EditingCell(_) => Seq::empty(),
                        Mode::EditBelongsTo { .. } => seq![Effect::RefreshAutocomplete],
                    });
                }
                assert(App::action_result(pre, action, *self, effects@));
            },
            Action::Page(amount) => {
                let rows = match self.active_sheet() {
                    Some(sheet) => sheet.rows.len(),
                    None => vstd::pervasive::unreached(),
                };
                let delta = amount * (rows as i32);
                self.move_cursor(Vector2i::new(0, delta));
                assert(App::action_result(pre, action, *self, effects@));
            },
            Action::Scroll(amount) => {
                let mut sheet = self.take_active();
                if amount < 0 {
                    sheet.start_offset = sheet.start_offset - ((-amount) as usize);
                } else {
                    sheet.start_offset = sheet.start_offset + (amount as usize);
                }
                let ghost new_sheet = sheet;
                self.put_active(sheet);
                effects.push(Effect::PopulateSheet(self.current_sheet));
                proof {
                    assert(new_sheet == SheetCache { start_offset: scrolled(pre.active().start_offset, amount), ..pre.active() });
                    assert(self.sheets_cache@ =~= pre.sheets_cache@.insert(pre.current_sheet.0, new_sheet));
                    assert(effects@ =~= seq![Effect::PopulateSheet(pre.current_sheet)]);
                }
                assert(App::action_result(pre, action, *self, effects@));
            },
            Action::NextCell => {
                let mut sheet = self.take_active();
                let bounds = Vector2i::new(sheet.columns.len() as i32, sheet.total_count as i32);
                let mut new_cell = (sheet.selected_cell + Vector2i::new(1, 0)).clamp_wrapped(bounds);
                if new_cell.x == 0 {
                    new_cell.y = new_cell.y + 1;
                    new_cell = new_cell.clamp_wrapped(bounds);
                }
                sheet.selected_cell = new_cell;
                let ghost new_sheet = sheet;
                self.put_active(sheet);
                proof {
                    assert(new_sheet == SheetCache { selected_cell: next_cell_spec(pre.active()), ..pre.active() });
                    assert(self.sheets_cache@ =~= pre.sheets_cache@.insert(pre.current_sheet.0, new_sheet));
                }
                assert(App::action_result(pre, action, *self, effects@));
            },
            Action::EditCell { clear } => {
                let (shown, field_type_tag, options) = {
                    let sheet = match self.active_sheet() {
                        Some(s) => s,
                        None => vstd::pervasive::unreached(),
                    };
                    let cursor = sheet.view_cursor();
                    let shown = sheet.rows[cursor.row()].cells[cursor.col()].display.clone();
                    let col = &sheet.columns[cursor.col()];
                    proof {
                        assert(self.sheets_cache@.contains_key(self.current_sheet.0));
                        assert(sheet.refs_valid(self.schema));
                        assert(sheet.columns@[(cursor.x as usize) as int].field_id.0 < self.schema.fields@.len());
                    }
                    let field = self.schema.field(col.field_id);
                    proof {
                        assert(*col == cursor_column(self.active()));
                        assert(field.field_type == self.cursor_field_type());
                        assert(shown@ == cursor_cell(self.active()).display@);
                    }
                    match &field.field_type {
                        FieldType::StringField => (shown, 0u8, None),
                        FieldType::SelectField { options } => (shown, 1u8, Some(options)),
                        FieldType::BelongsToField(_, _) => (shown, 2u8, None),
                    }
                };
                proof {
                    assert(shown@ == cursor_cell(pre.active()).display@);
                    assert(field_type_tag == 0 <==> pre.cursor_field_type() is StringField);
                    assert(field_type_tag == 1 <==> pre.cursor_field_type() is SelectField);
                    assert(field_type_tag == 1 ==> options == Some(&pre.cursor_field_type()->options));
                }
                proof {
                    reveal_strlit("");
                }
                if field_type_tag == 0 {
                    let text = if clear { TextInput::new("") } else { TextInput::new(shown.as_str()) };
                    proof {
                        assert(text.input@ == (if clear { Seq::<char>::empty() } else { shown@ }));
                    }
                    self.mode = Mode::EditingCell(text);
                    assert(App::action_result(pre, action, *self, effects@));
                } else if field_type_tag == 1 {
                    let opts = match options {
                        Some(o) => o,
                        None => vstd::pervasive::unreached(),
                    };
                    let key = App::next_option(opts, &shown);
                    self.push_action(Action::SaveCell { value: key });
                    proof {
                        assert(self.command_buffer@.drop_last() =~= pre.command_buffer@);
                    }
                    assert(App::action_result(pre, action, *self, effects@));
                } else {
                    self.push_action(Action::SetMode(Mode::EditBelongsTo {
                        results: Vec::new(),
                        selected_index: 0,
                        search: TextInput::new(""),
                    }));
                    self.push_action(Action::RefreshView);
                    proof {
                        assert(self.command_buffer@.take(pre.command_buffer@.len() as int) =~= pre.command_buffer@);
                    }
                }
                assert(App::action_result(pre, action, *self, effects@));
            },
            Action::AddRow => {
                let (new_order, table_name) = {
                    let sheet = match self.active_sheet() {
                        Some(s) => s,
                        None => vstd::pervasive::unreached(),
                    };
                    let cursor = sheet.view_cursor();
                    let row = &sheet.rows[cursor.row()];
                    (row.rowid + 1, self.active_table_name_exec(sheet).clone())
                };
                let mut update = String::from_str("UPDATE ");
                update.append(table_name.as_str());
                update.append(" SET __order = __order + 1 WHERE __order >= ?");
                let mut up_params: Vec<SqlParam> = Vec::new();
                up_params.push(SqlParam::Integer(new_order));
                effects.push(Effect::Execute { sql: update, params: up_params });
                let mut insert = String::from_str("INSERT INTO ");
                insert.append(table_name.as_str());
                insert.append(" (__order) VALUES (?)");
                let mut in_params: Vec<SqlParam> = Vec::new();
                in_params.push(SqlParam::Integer(new_order));
                effects.push(Effect::Execute { sql: insert, params: in_params });
                let mut sheet = self.take_active();
                sheet.selected_cell = sheet.selected_cell + Vector2i::new(0, 1);
                let ghost new_sheet = sheet;
                self.put_active(sheet);
                effects.push(Effect::PopulateSheet(self.current_sheet));
                proof {
                    assert(self.sheets_cache@ =~= pre.sheets_cache@.insert(pre.current_sheet.0, new_sheet));
                    assert(up_params@ =~= seq![SqlParam::Integer(new_order)]);
                    assert(in_params@ =~= seq![SqlParam::Integer(new_order)]);
                }
                assert(App::action_result(pre, action, *self, effects@));
            },
            Action::FinishEdit => {
                let next = match &self.mode {
                    Mode::EditingCell(text_input) => {
                        let sheet = match self.active_sheet() {
                            Some(s) => s,
                            None => vstd::pervasive::unreached(),
                        };
                        let cursor = sheet.view_cursor();
                        if sheet.rows[cursor.row()].cells[cursor.col()].display == text_input.input {
                            Some(Action::SetMode(Mode::Normal))
                        } else {
                            Some(Action::SaveCell { value: text_input.input.clone() })
                        }
                    },
                    _ => None,
                };
                match next {
                    Some(a) => self.push_action(a),
                    None => {},
                }
                assert(App::action_result(pre, action, *self, effects@));
            },
            Action::SaveCell { value } => {
                let (sql, rowid) = {
                    let sheet = match self.active_sheet() {
                        Some(s) => s,
                        None => vstd::pervasive::unreached(),
                    };
                    let cursor = sheet.view_cursor();
                    proof {
                        assert(self.sheets_cache@.contains_key(self.current_sheet.0));
                        assert(sheet.refs_valid(self.schema));
                        assert(sheet.columns@[(cursor.x as usize) as int].field_id.0 < self.schema.fields@.len());
                    }
                    let col_name = &self.schema.field(sheet.columns[cursor.col()].field_id).name;
                    proof {
                        assert(col_name@ == self.cursor_field_name());
                    }
                    let mut sql = String::from_str("UPDATE ");
                    sql.append(self.active_table_name_exec(sheet).as_str());
                    sql.append(" SET ");
                    sql.append(col_name.as_str());
                    sql.append(" = ? WHERE __order = ?");
                    (sql, sheet.rows[cursor.row()].rowid)
                };
                let mut params: Vec<SqlParam> = Vec::new();
                params.push(SqlParam::Text(value));
                params.push(SqlParam::Integer(rowid));
                proof {
                    assert(params@ =~= seq![SqlParam::Text(value), SqlParam::Integer(rowid)]);
                }
                effects.push(Effect::Execute { sql, params });
                effects.push(Effect::PopulateSheet(self.current_sheet));
                self.mode = Mode::Normal;
                effects.push(Effect::SaveEntity(self.current_sheet));
                assert(App::action_result(pre, action, *self, effects@));
            },
            Action::CancelEdit => self.mode = Mode::Normal,
            Action::SetMode(mode) => self.mode = mode,
            _ => {},
        }
        effects
    }
}

/// Whether adding the two positions stays within `i32`.
fn add_fits_check(a: Vector2i, b: Vector2i) -> (r: bool)
    ensures
        r == add_fits(a, b),
{
    let x = a.x as i64 + b.x as i64;
    let y = a.y as i64 + b.y as i64;
    i32::MIN as i64 <= x && x <= i32::MAX as i64 && i32::MIN as i64 <= y && y <= i32::MAX as i64
}

/// Whether the scroll amount can be applied to the offset.
fn scroll_ok_check(offset: usize, amount: i32) -> (r: bool)
    ensures
        r == scroll_ok(offset, amount),
{
    if amount < 0 {
        amount > i32::MIN && offset >= ((-amount) as usize)
    } else {
        offset.checked_add(amount as usize).is_some()
    }
}

/// The cursor's row relative to the loaded rows, when it fits in `i32`.
fn view_row(s: &SheetCache) -> (r: Option<i32>)
    ensures
        match view_cursor_spec(*s) {
            Some((_, y)) => r == Some(y),
            None => r is None,
        },
{
    let y = s.selected_cell.y as i64 - (s.start_offset as i32) as i64;
    if i32::MIN as i64 <= y && y <= i32::MAX as i64 {
        Some(y as i32)
    } else {
        None
    }
}

/// Whether the loaded row under the cursor exists.
fn cursor_row_check(s: &SheetCache) -> (r: bool)
    ensures
        r == cursor_row_ok(*s),
{
    match view_row(s) {
        Some(y) => (y as usize) < s.rows.len(),
        None => false,
    }
}

/// Whether the cell under the cursor exists in its loaded row.
fn cursor_cell_check(s: &SheetCache) -> (r: bool)
    ensures
        r == cursor_cell_ok(*s),
{
    match view_row(s) {
        Some(y) => (y as usize) < s.rows.len() && (s.selected_cell.x as usize) < s.rows[y as usize].cells.len(),
        None => false,
    }
}

/// Whether the column under the cursor exists.
fn cursor_column_check(s: &SheetCache) -> (r: bool)
    ensures
        r == cursor_column_ok(*s),
{
    (s.selected_cell.x as usize) < s.columns.len()
}

impl Mode {
    /// Whether the text being edited has its cursor within it.
    pub fn is_wf(&self) -> (r: bool)
        ensures
            r == self.wf(),
    {
        match self {
            Mode::Normal => true,
            Mode::EditingCell(t) => t.char_index <= t.input.as_str().unicode_len(),
            Mode::EditBelongsTo { search, .. } => search.char_index <= search.input.as_str().unicode_len(),
        }
    }
}

impl App {
    /// Whether the action can run on the current state (see `action_ok`).
    pub fn action_allowed(&self, action: &Action) -> (r: bool)
        requires
            self.wf(),
        ensures
            r == self.action_ok(*action),
    {
        if let Action::SetMode(m) = action {
            return m.is_wf();
        }
        match action {
            Action::MoveCursor(_) | Action::Scroll(_) | Action::Page(_) | Action::AddRow
            | Action::NextCell | Action::FinishEdit | Action::SaveCell { .. }
            | Action::EditCell { .. } => {},
            _ => { return true; },
        }
        let s = match self.sheets_cache.get(&self.current_sheet.0) {
            Some(s) => s,
            None => { return false; },
        };
        proof {
            assert(self.has_active());
            assert(*s == self.active());
        }
        match action {
            Action::MoveCursor(rel) => add_fits_check(s.selected_cell, *rel),
            Action::Scroll(amount) => scroll_ok_check(s.start_offset, *amount),
            Action::Page(amount) => {
                let a = *amount as i64;
                let n = (s.rows.len() as i32) as i64;
                assert(-0x4000_0000_0000_0000 <= a * n <= 0x4000_0000_0000_0000) by (nonlinear_arith)
                    requires
                        -0x8000_0000 <= a <= 0x7fff_ffff,
                        -0x8000_0000 <= n <= 0x7fff_ffff,
                ;
                let delta = a * n;
                if i32::MIN as i64 <= delta && delta <= i32::MAX as i64 {
                    add_fits_check(s.selected_cell, Vector2i::new(0, delta as i32))
                } else {
                    false
                }
            },
            Action::AddRow => {
                if !cursor_row_check(s) || s.selected_cell.y == i32::MAX {
                    return false;
                }
                let y = match view_row(s) {
                    Some(y) => y,
                    None => { return false; },
                };
                s.rows[y as usize].rowid < i64::MAX
            },
            Action::NextCell => s.selected_cell.x < i32::MAX,
            Action::FinishEdit => !self.mode.is_editing() || cursor_cell_check(s),
            Action::SaveCell { .. } => cursor_row_check(s) && cursor_column_check(s),
            Action::EditCell { .. } => {
                if !cursor_cell_check(s) || !cursor_column_check(s) {
                    return false;
                }
                proof {
                    assert(s.refs_valid(self.schema));
                    assert(s.columns@[(s.selected_cell.x as usize) as int].field_id.0 < self.schema.fields@.len());
                }
                let field = self.schema.field(s.columns[s.selected_cell.x as usize].field_id);
                match &field.field_type {
                    FieldType::SelectField { options } => options.len() > 0,
                    _ => true,
                }
            },
            _ => true,
        }
    }
}

proof fn lemma_option_index(opts: Seq<SelectOption>, key: Seq<char>, i: int)
    requires
        0 <= i <= opts.len(),
        forall|j: int| 0 <= j < i ==> opts[j].key@ != key,
    ensures
        i < opts.len() && opts[i].key@ == key ==> option_index(opts, key) == Some(i),
        i == opts.len() ==> option_index(opts, key) is None,
    decreases i,
{
    if i > 0 {
        lemma_option_index(opts.drop_first(), key, i - 1);
    }
}

} // verus!
