use vstd::prelude::*;
use crate::strings::{byte_len, text_byte_len};
use crate::model::{App, CellData, CellValue, SheetCache, SheetColumn, SheetRow, value_text_spec};
use crate::schema::{FieldId, FieldSchema, FieldType, Schema, SelectOption, TableId, opt_view};
use crate::util::Vector2i;
use crate::db::{count_rows_sql, groups_sql, related_title_sql};

verus! {

broadcast use vstd::std_specs::hash::group_hash_axioms;

/// What loading a table's sheet asks of the database.
pub struct SheetQuery {
    /// Counts all the table's rows.
    pub count_sql: String,
    /// Lists the values of the grouping field, when the sheet is grouped.
    pub groups_sql: Option<String>,
    /// Reads the rows: its placeholders are the selected group's value (when
    /// grouped), then `limit` and `offset`.
    pub rows_sql: String,
    pub limit: usize,
    pub offset: usize,
    /// The position of the selected group among the grouping field's values.
    pub group_selected: usize,
    /// For each column, the query that reads the title of the related record
    /// when the column is a `belongs_to` field.
    pub related_title_sql: Vec<Option<String>>,
}

/// A cell as read from the database.
pub struct FetchedCell {
    pub value: CellValue,
    /// The text of the value when it is a real number, as the standard
    /// library formats it; unused for other values.
    pub real_text: String,
    /// The related record's title, for a `belongs_to` column, if it was found.
    pub related_title: Option<String>,
}

/// A row as read from the database.
pub struct FetchedRow {
    pub rowid: i64,
    pub order: i64,
    pub cells: Vec<FetchedCell>,
}

/// The fields of a table, in its order.
pub open spec fn table_fields(schema: Schema, tid: TableId) -> Seq<FieldSchema> {
    schema.tables@[tid.0 as int].fields@.map_values(|f: FieldId| schema.fields@[f.0 as int])
}

/// The cursor, offset, grouping field and selected group a sheet keeps when it
/// is loaded again; a sheet loaded the first time starts at the top.
pub open spec fn kept_position(app: App, tid: TableId) -> (Vector2i, usize, Option<FieldId>, usize) {
    if app.sheets_cache@.contains_key(tid.0) {
        let c = app.sheets_cache@[tid.0];
        (c.selected_cell, c.start_offset, c.group_by_field, c.group_selected)
    } else {
        (Vector2i { x: 0, y: 0 }, 0, None, 0)
    }
}

/// The first option with the key, if any.
pub open spec fn option_with_key(opts: Seq<SelectOption>, key: Seq<char>) -> Option<SelectOption>
    decreases opts.len(),
{
    if opts.len() == 0 {
        None
    } else if opts[0].key@ == key {
        Some(opts[0])
    } else {
        option_with_key(opts.drop_first(), key)
    }
}

/// The text shown for a value: a select option's label when the value is the
/// key of an option with a label, a related record's title when one was found,
/// and otherwise the value's text.
pub open spec fn display_text(ft: FieldType, text: Seq<char>, related: Option<Seq<char>>) -> Seq<char> {
    match ft {
        FieldType::StringField => text,
        FieldType::SelectField { options } => match option_with_key(options@, text) {
            Some(o) => match o.label {
                Some(l) => l@,
                None => text,
            },
            None => text,
        },
        FieldType::BelongsToField(_, _) => match related {
            Some(t) => t,
            None => text,
        },
    }
}

/// The text shown for a fetched cell.
pub open spec fn cell_display(ft: FieldType, cell: FetchedCell) -> Seq<char> {
    display_text(ft, value_text_spec(cell.value@, cell.real_text@), opt_view(cell.related_title))
}

/// A column's width after a cell whose text is `len` bytes long: 50 when the
/// text and its padding of 2 are longer than 50, the padded length when it is
/// wider than the column, and the width unchanged otherwise.
pub open spec fn width_step(w: u16, len: nat) -> u16 {
    if len + 2 > 50 {
        50
    } else if (w as nat) < len + 2 {
        (len + 2) as u16
    } else {
        w
    }
}

/// The width of column `i` after the given rows.
pub open spec fn width_after(w0: u16, ft: FieldType, rows: Seq<FetchedRow>, i: int) -> u16
    decreases rows.len(),
{
    if rows.len() == 0 {
        w0
    } else {
        width_step(
            width_after(w0, ft, rows.drop_last(), i),
            byte_len(cell_display(ft, rows.last().cells@[i])),
        )
    }
}

/// The width a column starts with: its name's length and a padding of 2,
/// as a `u16`.
pub open spec fn initial_width(f: FieldSchema) -> u16 {
    (byte_len(f.name@) + 2) as u16
}

/// A loaded row keeps the row's id and order, and has one cell per fetched
/// cell with its value and the text shown for it.
pub open spec fn row_matches(row: SheetRow, fetched: FetchedRow, fields: Seq<FieldSchema>) -> bool {
    &&& row.rowid == fetched.rowid
    &&& row.order == fetched.order
    &&& row.cells@.len() == fetched.cells@.len()
    &&& forall|i: int|
        0 <= i < row.cells@.len() ==> {
            &&& (#[trigger] row.cells@[i]).value@ == fetched.cells@[i].value@
            &&& row.cells@[i].display@ == cell_display(fields[i].field_type, fetched.cells@[i])
        }
}

impl Clone for CellValue {
    fn clone(&self) -> (r: Self)
        ensures
            r@ == self@,
    {
        match self {
            CellValue::StringValue(s) => CellValue::StringValue(s.clone()),
            CellValue::IntValue(i) => CellValue::IntValue(*i),
            CellValue::FloatValue(b) => CellValue::FloatValue(*b),
            CellValue::NullValue => CellValue::NullValue,
            CellValue::BlobValue(v) => {
                let c = v.clone();
                proof { assert(c@ =~= v@); }
                CellValue::BlobValue(c)
            },
        }
    }
}

/// The text shown for a value of a field of the given type.
pub fn display_value(ft: &FieldType, text: &String, related: &Option<String>) -> (r: String)
    ensures
        r@ == display_text(*ft, text@, opt_view(*related)),
{
    match ft {
        FieldType::StringField => text.clone(),
        FieldType::SelectField { options } => {
            proof { assert(options@.skip(0) =~= options@); }
            let mut i: usize = 0;
            while i < options.len()
                invariant
                    i <= options@.len(),
                    *ft matches FieldType::SelectField { options: o } && o == *options,
                    option_with_key(options@, text@) == option_with_key(options@.skip(i as int), text@),
                decreases options@.len() - i,
            {
                proof {
                    assert(options@.skip(i as int).drop_first() =~= options@.skip(i + 1));
                }
                proof { assert(options@.skip(i as int)[0] == options@[i as int]); }
                if options[i].key == *text {
                    proof {
                        assert(option_with_key(options@.skip(i as int), text@) == Some(options@[i as int]));
                    }
                    return match &options[i].label {
                        Some(l) => l.clone(),
                        None => text.clone(),
                    };
                }
                i = i + 1;
            }
            text.clone()
        },
        FieldType::BelongsToField(_, _) => match related {
            Some(t) => t.clone(),
            None => text.clone(),
        },
    }
}

/// The query that reads the title of the record a `belongs_to` cell refers
/// to; none for other fields.
pub open spec fn related_title_query(schema: Schema, ft: FieldType) -> Option<Seq<char>> {
    match ft {
        FieldType::BelongsToField(t, k) => Some(
            "SELECT "@ + "title"@ + " FROM "@ + schema.tables@[t.0 as int].name@ + " WHERE "@
                + schema.fields@[k.0 as int].name@ + " = ?"@,
        ),
        _ => None,
    }
}

impl App {
    /// The queries that load the sheet of a table: the count, the grouping
    /// field's values when the sheet is grouped, the rows from the kept offset
    /// with as many rows as fit the screen (its height less 3), and the
    /// related titles of `belongs_to` columns.
    pub fn populate_request(&self, table_id: TableId) -> (r: SheetQuery)
        requires
            self.wf(),
            table_id.0 < self.schema.tables@.len(),
            self.available_size.y >= i32::MIN + 3,
        ensures
            ({
                let (_, offset, group, selected) = kept_position(*self, table_id);
                let table = self.schema.tables@[table_id.0 as int].name@;
                &&& r.count_sql@ == "SELECT COUNT(*) FROM "@ + table
                &&& r.limit == ((self.available_size.y - 3) as i32) as usize
                &&& r.offset == offset
                &&& r.group_selected == selected
                &&& (match group {
                    Some(f) => {
                        let field = self.schema.fields@[f.0 as int].name@;
                        &&& r.groups_sql matches Some(g) && g@ == "SELECT "@ + field + " FROM "@
                            + table + " GROUP BY "@ + field
                        &&& r.rows_sql@ == "SELECT rowid, * from "@ + table + " WHERE "@ + field
                            + " = ? ORDER BY __order LIMIT ? OFFSET ?"@
                    },
                    None => {
                        &&& r.groups_sql is None
                        &&& r.rows_sql@ == "SELECT rowid, * from "@ + table
                            + " ORDER BY __order LIMIT ? OFFSET ?"@
                    },
                })
                &&& r.related_title_sql@.len() == table_fields(self.schema, table_id).len()
                &&& forall|i: int|
                    0 <= i < r.related_title_sql@.len() ==> opt_view(#[trigger] r.related_title_sql@[i])
                        == related_title_query(self.schema, table_fields(self.schema, table_id)[i].field_type)
            }),
    {
        let table = self.schema.table(table_id);
        let limit = (self.available_size.y - 3) as usize;
        let (offset, group_by_field, group_selected) = match self.sheets_cache.get(&table_id.0) {
            Some(c) => (c.start_offset, c.group_by_field, c.group_selected),
            None => (0, None, 0),
        };
        let count_sql = count_rows_sql(table.name.as_str());
        let (groups, rows_sql) = match group_by_field {
            Some(fid) => {
                proof { assert(self.sheets_cache@.contains_key(table_id.0)); }
                let field = self.schema.field(fid);
                let g = groups_sql(table.name.as_str(), field.name.as_str());
                let mut q = String::from_str("SELECT rowid, * from ");
                q.append(table.name.as_str());
                q.append(" WHERE ");
                q.append(field.name.as_str());
                q.append(" = ? ORDER BY __order LIMIT ? OFFSET ?");
                (Some(g), q)
            },
            None => {
                let mut q = String::from_str("SELECT rowid, * from ");
                q.append(table.name.as_str());
                q.append(" ORDER BY __order LIMIT ? OFFSET ?");
                (None, q)
            },
        };
        let columns = self.schema.fields_for_table(table_id);
        let mut related: Vec<Option<String>> = Vec::with_capacity(columns.len());
        let mut i: usize = 0;
        while i < columns.len()
            invariant
                i <= columns@.len(),
                self.wf(),
                table_id.0 < self.schema.tables@.len(),
                columns@.len() == table_fields(self.schema, table_id).len(),
                forall|k: int| 0 <= k < columns@.len() ==> *#[trigger] columns@[k] == table_fields(self.schema, table_id)[k],
                related@.len() == i,
                forall|k: int|
                    0 <= k < i ==> opt_view(#[trigger] related@[k]) == related_title_query(
                        self.schema,
                        table_fields(self.schema, table_id)[k].field_type,
                    ),
            decreases columns@.len() - i,
        {
            let q = match &columns[i].field_type {
                FieldType::BelongsToField(t, f) => {
                    proof {
                        let fid = self.schema.tables@[table_id.0 as int].fields@[i as int];
                        assert(fid.0 < self.schema.fields@.len());
                        assert(self.schema.fields@[fid.0 as int] == *columns@[i as int]);
                    }
                    let related_table = self.schema.table(*t);
                    let related_field = self.schema.field(*f);
                    Some(related_title_sql(related_table.name.as_str(), related_field.name.as_str(), "title"))
                },
                _ => None,
            };
            proof {
                assert(*columns@[i as int] == table_fields(self.schema, table_id)[i as int]);
                assert(opt_view(q) == related_title_query(self.schema, columns@[i as int].field_type));
            }
            let ghost before = related@;
            related.push(q);
            proof {
                assert(related@ == before.push(q));
            }
            i = i + 1;
        }
        SheetQuery {
            count_sql,
            groups_sql: groups,
            rows_sql,
            limit,
            offset,
            group_selected,
            related_title_sql: related,
        }
    }
}

/// The sheet that loading a table gives: the kept cursor, offset, grouping
/// field and selected group, the count, the group tabs, one column per field of
/// the table with its width, and the loaded rows.
pub open spec fn sheet_loaded(
    c: SheetCache,
    app: App,
    tid: TableId,
    count: i64,
    group_tabs: Seq<String>,
    rows: Seq<FetchedRow>,
) -> bool {
    let (sel, offset, group, selected) = kept_position(app, tid);
    let fields = table_fields(app.schema, tid);
    &&& c.selected_cell == sel
    &&& c.start_offset == offset
    &&& c.total_count == count as usize
    &&& c.table_id == tid
    &&& c.group_by_field == group
    &&& c.group_tabs@ == group_tabs
    &&& c.group_selected == selected
    &&& c.columns@.len() == fields.len()
    &&& forall|i: int|
        0 <= i < fields.len() ==> {
            &&& (#[trigger] c.columns@[i]).field_id == fields[i].id
            &&& c.columns@[i].width == width_after(initial_width(fields[i]), fields[i].field_type, rows, i)
        }
    &&& c.rows@.len() == rows.len()
    &&& forall|r: int| 0 <= r < rows.len() ==> row_matches(#[trigger] c.rows@[r], rows[r], fields)
}

/// In a loaded sheet each column belongs to the field of the table at its
/// position, and is 50 wide when one of its shown texts, padded by 2, is
/// longer than 50; otherwise it is exactly as wide as the widest of its
/// field's name and its shown texts, each padded by 2.
pub proof fn lemma_loaded_column_widths(
    c: SheetCache,
    app: App,
    tid: TableId,
    count: i64,
    group_tabs: Seq<String>,
    rows: Seq<FetchedRow>,
)
    requires
        sheet_loaded(c, app, tid, count, group_tabs, rows),
    ensures
        forall|i: int|
            0 <= i < table_fields(app.schema, tid).len() ==> {
                let f = table_fields(app.schema, tid)[i];
                let w = (#[trigger] c.columns@[i]).width;
                &&& c.columns@[i].field_id == f.id
                &&& (exists|r: int| 0 <= r < rows.len() && padded_len(f.field_type, #[trigger] rows[r], i) > 50)
                    ==> w == 50
                &&& (forall|r: int| 0 <= r < rows.len() ==> padded_len(f.field_type, #[trigger] rows[r], i) <= 50)
                    ==> {
                    &&& w >= initial_width(f)
                    &&& forall|r: int|
                        0 <= r < rows.len() ==> w >= padded_len(f.field_type, #[trigger] rows[r], i)
                    &&& w == initial_width(f) || exists|r: int|
                        0 <= r < rows.len() && w == padded_len(f.field_type, #[trigger] rows[r], i)
                }
            },
{
    let fields = table_fields(app.schema, tid);
    assert forall|i: int| 0 <= i < fields.len() implies {
        let f = fields[i];
        let w = (#[trigger] c.columns@[i]).width;
        &&& c.columns@[i].field_id == f.id
        &&& (exists|r: int| 0 <= r < rows.len() && padded_len(f.field_type, #[trigger] rows[r], i) > 50)
            ==> w == 50
        &&& (forall|r: int| 0 <= r < rows.len() ==> padded_len(f.field_type, #[trigger] rows[r], i) <= 50)
            ==> {
            &&& w >= initial_width(f)
            &&& forall|r: int|
                0 <= r < rows.len() ==> w >= padded_len(f.field_type, #[trigger] rows[r], i)
            &&& w == initial_width(f) || exists|r: int|
                0 <= r < rows.len() && w == padded_len(f.field_type, #[trigger] rows[r], i)
        }
    } by {
        lemma_width_after_closed_form(initial_width(fields[i]), fields[i].field_type, rows, i);
    }
}

/// In a loaded sheet every column is at least as wide as its field's name in
/// bytes plus 2, whatever its cells hold, except that a cell longer than 50
/// with its padding caps the column at 50; so a column whose padded cells all
/// fit in 50 shows its whole name.
pub proof fn lemma_loaded_column_fits_name(
    c: SheetCache,
    app: App,
    tid: TableId,
    count: i64,
    group_tabs: Seq<String>,
    rows: Seq<FetchedRow>,
)
    requires
        sheet_loaded(c, app, tid, count, group_tabs, rows),
    ensures
        forall|i: int|
            0 <= i < table_fields(app.schema, tid).len() && byte_len(table_fields(app.schema, tid)[i].name@) + 2
                <= u16::MAX ==> {
                let name_len = byte_len(table_fields(app.schema, tid)[i].name@);
                let w = (#[trigger] c.columns@[i]).width;
                &&& w >= name_len + 2 || w == 50
                &&& (forall|r: int|
                    0 <= r < rows.len() ==> padded_len(
                        table_fields(app.schema, tid)[i].field_type,
                        #[trigger] rows[r],
                        i,
                    ) <= 50) ==> w >= name_len + 2
            },
{
    let fields = table_fields(app.schema, tid);
    assert forall|i: int|
        0 <= i < fields.len() && byte_len(fields[i].name@) + 2 <= u16::MAX implies {
            let name_len = byte_len(fields[i].name@);
            let w = (#[trigger] c.columns@[i]).width;
            &&& w >= name_len + 2 || w == 50
            &&& (forall|r: int|
                0 <= r < rows.len() ==> padded_len(fields[i].field_type, #[trigger] rows[r], i) <= 50) ==> w
                >= name_len + 2
        } by {
        let f = fields[i];
        assert(initial_width(f) == byte_len(f.name@) + 2);
        lemma_width_after_closed_form(initial_width(f), f.field_type, rows, i);
    }
}

/// In a loaded sheet each cell keeps the value read for it, and shows the
/// value's text `s`, except that a select field shows the label of the first
/// option keyed `s` when that option has one, and a `belongs_to` field shows
/// the related record's title when it was found.
pub proof fn lemma_loaded_cell_display(
    c: SheetCache,
    app: App,
    tid: TableId,
    count: i64,
    group_tabs: Seq<String>,
    rows: Seq<FetchedRow>,
)
    requires
        sheet_loaded(c, app, tid, count, group_tabs, rows),
    ensures
        forall|r: int, i: int|
            0 <= r < rows.len() && 0 <= i < rows[r].cells@.len() ==> {
                let fetched = rows[r].cells@[i];
                let s = value_text_spec(fetched.value@, fetched.real_text@);
                let cell = #[trigger] c.rows@[r].cells@[i];
                &&& cell.value@ == fetched.value@
                &&& cell.display@ == match table_fields(app.schema, tid)[i].field_type {
                    FieldType::StringField => s,
                    FieldType::SelectField { options } => match option_with_key(options@, s) {
                        Some(o) => match o.label {
                            Some(l) => l@,
                            None => s,
                        },
                        None => s,
                    },
                    FieldType::BelongsToField(_, _) => match fetched.related_title {
                        Some(t) => t@,
                        None => s,
                    },
                }
            },
{
    assert forall|r: int, i: int|
        0 <= r < rows.len() && 0 <= i < rows[r].cells@.len() implies {
            let fetched = rows[r].cells@[i];
            let s = value_text_spec(fetched.value@, fetched.real_text@);
            let cell = #[trigger] c.rows@[r].cells@[i];
            &&& cell.value@ == fetched.value@
            &&& cell.display@ == match table_fields(app.schema, tid)[i].field_type {
                FieldType::StringField => s,
                FieldType::SelectField { options } => match option_with_key(options@, s) {
                    Some(o) => match o.label {
                        Some(l) => l@,
                        None => s,
                    },
                    None => s,
                },
                FieldType::BelongsToField(_, _) => match fetched.related_title {
                    Some(t) => t@,
                    None => s,
                },
            }
        } by {
        assert(row_matches(c.rows@[r], rows[r], table_fields(app.schema, tid)));
    }
}

proof fn lemma_width_after_next(w0: u16, ft: FieldType, rows: Seq<FetchedRow>, r: int, i: int)
    requires
        0 <= r < rows.len(),
    ensures
        width_after(w0, ft, rows.take(r + 1), i) == width_step(
            width_after(w0, ft, rows.take(r), i),
            byte_len(cell_display(ft, rows[r].cells@[i])),
        ),
{
    assert(rows.take(r + 1).drop_last() =~= rows.take(r));
}

/// The length of the text shown for a row's cell in column `i`, with the
/// padding of 2.
pub open spec fn padded_len(ft: FieldType, row: FetchedRow, i: int) -> nat {
    byte_len(cell_display(ft, row.cells@[i])) + 2
}

/// A column ends 50 wide when any of its cells, padded, is longer than 50;
/// otherwise it ends exactly as wide as the widest of its starting width and
/// its padded cells.
pub proof fn lemma_width_after_closed_form(w0: u16, ft: FieldType, rows: Seq<FetchedRow>, i: int)
    ensures
        (exists|r: int| 0 <= r < rows.len() && padded_len(ft, #[trigger] rows[r], i) > 50)
            ==> width_after(w0, ft, rows, i) == 50,
        (forall|r: int| 0 <= r < rows.len() ==> padded_len(ft, #[trigger] rows[r], i) <= 50) ==> {
            &&& width_after(w0, ft, rows, i) >= w0
            &&& forall|r: int|
                0 <= r < rows.len() ==> width_after(w0, ft, rows, i) >= padded_len(ft, #[trigger] rows[r], i)
            &&& width_after(w0, ft, rows, i) == w0 || exists|r: int|
                0 <= r < rows.len() && width_after(w0, ft, rows, i) == padded_len(ft, #[trigger] rows[r], i)
        },
    decreases rows.len(),
{
    if rows.len() > 0 {
        let prefix = rows.drop_last();
        let last = rows.last();
        lemma_width_after_closed_form(w0, ft, prefix, i);
        let w = width_after(w0, ft, prefix, i);
        assert(width_after(w0, ft, rows, i) == width_step(w, byte_len(cell_display(ft, last.cells@[i]))));
        assert(rows[rows.len() - 1] == last);
        assert forall|r: int| 0 <= r < prefix.len() implies #[trigger] prefix[r] == rows[r] by {}
        if exists|r: int| 0 <= r < rows.len() && padded_len(ft, #[trigger] rows[r], i) > 50 {
            let r = choose|r: int| 0 <= r < rows.len() && padded_len(ft, #[trigger] rows[r], i) > 50;
            if r < rows.len() - 1 {
                assert(padded_len(ft, prefix[r], i) > 50);
            }
        }
        if forall|r: int| 0 <= r < rows.len() ==> padded_len(ft, #[trigger] rows[r], i) <= 50 {
            assert(padded_len(ft, rows[rows.len() - 1], i) <= 50);
            assert forall|r: int| 0 <= r < prefix.len() implies padded_len(ft, #[trigger] prefix[r], i) <= 50 by {
                assert(padded_len(ft, rows[r], i) <= 50);
            }
            if w == w0 {
            } else {
                let r = choose|r: int| 0 <= r < prefix.len() && w == padded_len(ft, #[trigger] prefix[r], i);
                assert(w == padded_len(ft, rows[r], i));
            }
            assert forall|r: int| 0 <= r < rows.len() implies width_after(w0, ft, rows, i) >= padded_len(ft, #[trigger] rows[r], i) by {
                if r < rows.len() - 1 {
                    assert(w >= padded_len(ft, prefix[r], i));
                }
            }
        }
    }
}

impl App {
    /// Files the sheet loaded for a table from what the database returned:
    /// the row count, the group tab labels and the rows, each with one cell per
    /// field of the table.
    pub fn finish_populate(
        &mut self,
        table_id: TableId,
        count: i64,
        group_tabs: Vec<String>,
        rows: Vec<FetchedRow>,
    )
        requires
            old(self).wf(),
            table_id.0 < old(self).schema.tables@.len(),
            forall|i: int|
                0 <= i < table_fields(old(self).schema, table_id).len() ==> byte_len(
                    (#[trigger] table_fields(old(self).schema, table_id)[i]).name@,
                ) + 2 <= usize::MAX,
            forall|r: int|
                0 <= r < rows@.len() ==> (#[trigger] rows@[r]).cells@.len() == table_fields(
                    old(self).schema,
                    table_id,
                ).len(),
        ensures
            final(self).wf(),
            final(self).same_frame(old(self)),
            final(self).mode == old(self).mode,
            final(self).command_buffer == old(self).command_buffer,
            final(self).sheets_cache@.dom() == old(self).sheets_cache@.dom().insert(table_id.0),
            forall|k: usize| k != table_id.0 && #[trigger] old(self).sheets_cache@.contains_key(k)
                ==> final(self).sheets_cache@[k] == old(self).sheets_cache@[k],
            sheet_loaded(
                final(self).sheets_cache@[table_id.0],
                *old(self),
                table_id,
                count,
                group_tabs@,
                rows@,
            ),
    {
        let ghost pre = *self;
        let ghost fields = table_fields(self.schema, table_id);
        let (selected_cell, offset, group_by_field, group_selected) = match self.sheets_cache.get(
            &table_id.0,
        ) {
            Some(c) => (c.selected_cell, c.start_offset, c.group_by_field, c.group_selected),
            None => (Vector2i::new(0, 0), 0, None, 0),
        };
        let columns = self.schema.fields_for_table(table_id);
        let mut cols: Vec<SheetColumn> = Vec::with_capacity(columns.len());
        let mut i: usize = 0;
        while i < columns.len()
            invariant
                i <= columns@.len(),
                columns@.len() == fields.len(),
                fields == table_fields(self.schema, table_id),
                forall|k: int| 0 <= k < columns@.len() ==> *#[trigger] columns@[k] == fields[k],
                forall|k: int| 0 <= k < fields.len() ==> byte_len((#[trigger] fields[k]).name@) + 2 <= usize::MAX,
                cols@.len() == i,
                forall|k: int|
                    0 <= k < i ==> (#[trigger] cols@[k]).field_id == fields[k].id && cols@[k].width
                        == initial_width(fields[k]),
            decreases columns@.len() - i,
        {
            let name_len = text_byte_len(columns[i].name.as_str());
            proof {
                assert(columns[i as int]@.name == fields[i as int].name@);
            }
            cols.push(SheetColumn { field_id: columns[i].id, width: (name_len + 2) as u16 });
            i = i + 1;
        }
        proof {
            assert forall|k: int| 0 <= k < fields.len() implies (#[trigger] cols@[k]).width
                == width_after(initial_width(fields[k]), fields[k].field_type, rows@.take(0), k) by {
                assert(rows@.take(0).len() == 0);
            }
        }
        let mut sheet_rows: Vec<SheetRow> = Vec::with_capacity(rows.len());
        let mut r: usize = 0;
        while r < rows.len()
            invariant
                r <= rows@.len(),
                columns@.len() == fields.len(),
                forall|k: int| 0 <= k < columns@.len() ==> *#[trigger] columns@[k] == fields[k],
                forall|q: int| 0 <= q < rows@.len() ==> (#[trigger] rows@[q]).cells@.len() == fields.len(),
                cols@.len() == fields.len(),
                forall|k: int|
                    0 <= k < fields.len() ==> (#[trigger] cols@[k]).field_id == fields[k].id
                        && cols@[k].width == width_after(
                        initial_width(fields[k]),
                        fields[k].field_type,
                        rows@.take(r as int),
                        k,
                    ),
                sheet_rows@.len() == r,
                forall|q: int| 0 <= q < r ==> row_matches(#[trigger] sheet_rows@[q], rows@[q], fields),
            decreases rows@.len() - r,
        {
            let row = &rows[r];
            let mut cells: Vec<CellData> = Vec::with_capacity(columns.len());
            let mut i: usize = 0;
            while i < columns.len()
                invariant
                    i <= columns@.len(),
                    r < rows@.len(),
                    *row == rows@[r as int],
                    columns@.len() == fields.len(),
                    row.cells@.len() == fields.len(),
                    forall|k: int| 0 <= k < columns@.len() ==> *#[trigger] columns@[k] == fields[k],
                    cols@.len() == fields.len(),
                    forall|k: int|
                        0 <= k < i ==> (#[trigger] cols@[k]).field_id == fields[k].id
                            && cols@[k].width == width_after(
                            initial_width(fields[k]),
                            fields[k].field_type,
                            rows@.take(r + 1),
                            k,
                        ),
                    forall|k: int|
                        i <= k < fields.len() ==> (#[trigger] cols@[k]).field_id == fields[k].id
                            && cols@[k].width == width_after(
                            initial_width(fields[k]),
                            fields[k].field_type,
                            rows@.take(r as int),
                            k,
                        ),
                    cells@.len() == i,
                    forall|k: int|
                        0 <= k < i ==> (#[trigger] cells@[k]).value@ == row.cells@[k].value@
                            && cells@[k].display@ == cell_display(fields[k].field_type, row.cells@[k]),
                decreases columns@.len() - i,
            {
                let text = row.cells[i].value.value_text(row.cells[i].real_text.as_str());
                let display = display_value(&columns[i].field_type, &text, &row.cells[i].related_title);
                let len = text_byte_len(display.as_str());
                proof {
                    lemma_width_after_next(initial_width(fields[i as int]), fields[i as int].field_type, rows@, r as int, i as int);
                }
                if len > 48 {
                    cols[i].width = 50;
                } else if (cols[i].width as usize) < len + 2 {
                    cols[i].width = (len + 2) as u16;
                }
                cells.push(CellData { value: row.cells[i].value.clone(), display });
                i = i + 1;
            }
            sheet_rows.push(SheetRow { rowid: row.rowid, order: row.order, cells });
            r = r + 1;
        }
        proof {
            assert(rows@.take(rows@.len() as int) =~= rows@);
        }
        let cache = SheetCache {
            selected_cell,
            start_offset: offset,
            rows: sheet_rows,
            group_by_field,
            total_count: count as usize,
            columns: cols,
            table_id,
            group_tabs,
            group_selected,
        };
        self.sheets_cache.insert(table_id.0, cache);
    }
}

} // verus!
