use vstd::prelude::*;
use rusqlite::types::Value;
use crate::db::{WhereBuilder, groups_sql, related_title_sql};
use crate::model::{App, CellValue, value_text_spec};
use crate::model::populate::{display_text, display_value, related_title_query};
use crate::schema::{FieldType, TableId, opt_view};

verus! {

broadcast use vstd::std_specs::hash::group_hash_axioms;

/// A tab of a grouped sheet: a value of the grouping field and its label.
pub struct GroupTab {
    pub value: Value,
    pub label: String,
}

/// A value of the grouping field as read from the database.
pub struct FetchedGroup {
    pub value: Value,
    /// The same value as a cell value.
    pub cell: CellValue,
    /// The text of the value when it is a real number, as the standard
    /// library formats it; unused for other values.
    pub real_text: String,
    /// The related record's title, for a `belongs_to` field, if it was found.
    pub related_title: Option<String>,
}

/// What the group tabs of a table ask of the database.
pub struct GroupQuery {
    /// Lists the grouping field's values.
    pub groups_sql: String,
    /// Reads a related record's title, for a `belongs_to` grouping field.
    pub related_title_sql: Option<String>,
}

impl App {
    /// The grouping field of a table's loaded sheet, if any.
    pub open spec fn group_field_of(&self, table_id: TableId) -> Option<crate::schema::FieldId> {
        if self.sheets_cache@.contains_key(table_id.0) {
            self.sheets_cache@[table_id.0].group_by_field
        } else {
            None
        }
    }

    /// The selected group of a table's loaded sheet (0 when not loaded).
    pub open spec fn group_selected_of(&self, table_id: TableId) -> usize {
        if self.sheets_cache@.contains_key(table_id.0) {
            self.sheets_cache@[table_id.0].group_selected
        } else {
            0
        }
    }

    /// The queries the group tabs need: none when the sheet is not grouped.
    pub fn group_tabs_request(&self, table_id: TableId) -> (r: Option<GroupQuery>)
        requires
            self.wf(),
            table_id.0 < self.schema.tables@.len(),
        ensures
            match self.group_field_of(table_id) {
                None => r is None,
                Some(f) => r matches Some(q) && {
                    let field = self.schema.fields@[f.0 as int];
                    let table = self.schema.tables@[table_id.0 as int].name@;
                    &&& q.groups_sql@ == "SELECT "@ + field.name@ + " FROM "@ + table
                        + " GROUP BY "@ + field.name@
                    &&& opt_view(q.related_title_sql) == related_title_query(self.schema, field.field_type)
                },
            },
    {
        let table = self.schema.table(table_id);
        let group_by_field = match self.sheets_cache.get(&table_id.0) {
            Some(c) => c.group_by_field,
            None => None,
        };
        match group_by_field {
            Some(field_id) => {
                proof { assert(self.sheets_cache@.contains_key(table_id.0)); }
                let field = self.schema.field(field_id);
                let related = match field.field_type {
                    FieldType::BelongsToField(t, k) => {
                        proof { assert(self.schema.fields@[field_id.0 as int] == *field); }
                        let related_table = self.schema.table(t);
                        let related_field = self.schema.field(k);
                        Some(related_title_sql(related_table.name.as_str(), related_field.name.as_str(), "title"))
                    },
                    _ => None,
                };
                Some(GroupQuery { groups_sql: groups_sql(table.name.as_str(), field.name.as_str()), related_title_sql: related })
            },
            None => None,
        }
    }

    /// The tabs of a grouped sheet, one per value of the grouping field, each
    /// labelled as a cell of that field would show the value; none when the
    /// sheet is not grouped.
    pub fn table_group_tabs(&self, table_id: TableId, groups: Vec<FetchedGroup>) -> (r: Vec<GroupTab>)
        requires
            self.wf(),
        ensures
            match self.group_field_of(table_id) {
                None => r@.len() == 0,
                Some(f) => {
                    &&& r@.len() == groups@.len()
                    &&& forall|i: int|
                        0 <= i < r@.len() ==> (#[trigger] r@[i]).value == groups@[i].value
                            && r@[i].label@ == display_text(
                            self.schema.fields@[f.0 as int].field_type,
                            value_text_spec(groups@[i].cell@, groups@[i].real_text@),
                            opt_view(groups@[i].related_title),
                        )
                },
            },
    {
        let group_by_field = match self.sheets_cache.get(&table_id.0) {
            Some(c) => c.group_by_field,
            None => None,
        };
        let mut tabs: Vec<GroupTab> = Vec::new();
        match group_by_field {
            Some(field_id) => {
                proof { assert(self.sheets_cache@.contains_key(table_id.0)); }
                let field = self.schema.field(field_id);
                let mut groups = groups;
                let ghost all = groups@;
                let mut i: usize = 0;
                let n = groups.len();
                while groups.len() > 0
                    invariant
                        n == all.len(),
                        i <= n,
                        groups@ == all.skip(i as int),
                        tabs@.len() == i,
                        forall|k: int|
                            0 <= k < i ==> (#[trigger] tabs@[k]).value == all[k].value && tabs@[k].label@
                                == display_text(
                                field.field_type,
                                value_text_spec(all[k].cell@, all[k].real_text@),
                                opt_view(all[k].related_title),
                            ),
                    decreases groups@.len(),
                {
                    let g = groups.remove(0);
                    proof {
                        assert(g == all[i as int]);
                        assert(groups@ =~= all.skip(i + 1));
                    }
                    let text = g.cell.value_text(g.real_text.as_str());
                    let label = display_value(&field.field_type, &text, &g.related_title);
                    tabs.push(GroupTab { value: g.value, label });
                    i = i + 1;
                }
            },
            None => {},
        }
        tabs
    }

    /// The `WHERE` clause of a table's view: with a grouped sheet, the grouping
    /// field must equal the selected group's value.
    pub fn table_where_clause(&self, table_id: TableId, group_tabs: &Vec<GroupTab>) -> (r: WhereBuilder)
        requires
            self.wf(),
            self.group_field_of(table_id) is Some ==> self.group_selected_of(table_id) < group_tabs@.len(),
        ensures
            match self.group_field_of(table_id) {
                None => r@.clauses.len() == 0 && r@.params.len() == 0,
                Some(f) => {
                    &&& r@.clauses == seq![
                        "("@ + self.schema.fields@[f.0 as int].name@ + " = ?"@ + ")"@,
                    ]
                    &&& r@.params == seq![group_tabs@[self.group_selected_of(table_id) as int].value]
                },
            },
    {
        let (group_selected, group_by_field) = match self.sheets_cache.get(&table_id.0) {
            Some(c) => (c.group_selected, c.group_by_field),
            None => (0, None),
        };
        let mut where_clause = WhereBuilder::new();
        match group_by_field {
            Some(fid) => {
                proof { assert(self.sheets_cache@.contains_key(table_id.0)); }
                let current_group = group_tabs[group_selected].value.clone();
                let group_field = self.schema.field(fid);
                let mut clause = group_field.name.clone();
                clause.append(" = ?");
                let ghost empty = where_clause@;
                where_clause = where_clause.and(clause.as_str());
                where_clause = where_clause.param(current_group);
                proof {
                    assert(empty.clauses.len() == 0);
                    assert(where_clause@.clauses =~= seq!["("@ + clause@ + ")"@]);
                    assert(where_clause@.params =~= seq![group_tabs@[group_selected as int].value]);
                    assert(self.group_field_of(table_id) == Some(fid));
                    assert(self.group_selected_of(table_id) == group_selected);
                    let name = self.schema.fields@[fid.0 as int].name@;
                    assert(clause@ == name + " = ?"@);
                    assert("("@ + clause@ + ")"@ =~= "("@ + name + " = ?"@ + ")"@);
                }
            },
            None => {},
        }
        where_clause
    }
}

} // verus!
