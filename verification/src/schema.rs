use vstd::prelude::*;
use crate::strings::{str_concat, eq_str, join, join_spec, string_views};
use crate::dbconfig::{Config, ConfigFieldView, ConfigTableView, ConfigView, config_spec, lemma_config_spec_wf};
use crate::kdl_doc::DocNodeView;

verus! {

/// The position of a table in the schema.
#[derive(Debug, Clone, Copy, PartialEq, Eq, Hash, Structural)]
pub struct TableId(pub usize);

/// The position of a field in the schema.
#[derive(Debug, Clone, Copy, PartialEq, Eq, Hash, Structural)]
pub struct FieldId(pub usize);

#[derive(Debug)]
pub struct SelectOption {
    pub key: String,
    pub label: Option<String>,
}

pub struct SelectOptionView {
    pub key: Seq<char>,
    pub label: Option<Seq<char>>,
}

/// The view of an optional string.
pub open spec fn opt_view(o: Option<String>) -> Option<Seq<char>> {
    match o {
        Some(s) => Some(s@),
        None => None,
    }
}

pub fn clone_opt_string(o: &Option<String>) -> (r: Option<String>)
    ensures
        opt_view(r) == opt_view(*o),
{
    match o {
        Some(s) => Some(s.clone()),
        None => None,
    }
}

impl View for SelectOption {
    type V = SelectOptionView;

    open spec fn view(&self) -> SelectOptionView {
        SelectOptionView { key: self.key@, label: opt_view(self.label) }
    }
}

impl Clone for SelectOption {
    fn clone(&self) -> (r: Self)
        ensures
            r@ == self@,
    {
        SelectOption { key: self.key.clone(), label: clone_opt_string(&self.label) }
    }
}

/// The views of a list of select options.
pub open spec fn options_view(v: Seq<SelectOption>) -> Seq<SelectOptionView> {
    v.map_values(|o: SelectOption| o@)
}

pub fn clone_options(v: &Vec<SelectOption>) -> (r: Vec<SelectOption>)
    ensures
        options_view(r@) == options_view(v@),
{
    let mut r: Vec<SelectOption> = Vec::with_capacity(v.len());
    let mut i: usize = 0;
    while i < v.len()
        invariant
            i <= v.len(),
            options_view(r@) == options_view(v@).take(i as int),
        decreases v.len() - i,
    {
        let c = v[i].clone();
        let ghost old_r = r@;
        r.push(c);
        proof {
            assert(r@ == old_r.push(c));
            assert(options_view(r@) =~= options_view(old_r).push(c@));
            assert(options_view(r@) =~= options_view(v@).take(i + 1));
        }
        i = i + 1;
    }
    proof {
        assert(options_view(v@).take(v.len() as int) =~= options_view(v@));
    }
    r
}

#[derive(Debug)]
pub enum FieldType {
    StringField,
    SelectField { options: Vec<SelectOption> },
    BelongsToField(TableId, FieldId),
}

pub enum FieldTypeView {
    StringField,
    SelectField { options: Seq<SelectOptionView> },
    BelongsToField(TableId, FieldId),
}

impl View for FieldType {
    type V = FieldTypeView;

    open spec fn view(&self) -> FieldTypeView {
        match self {
            FieldType::StringField => FieldTypeView::StringField,
            FieldType::SelectField { options } => FieldTypeView::SelectField {
                options: options_view(options@),
            },
            FieldType::BelongsToField(t, f) => FieldTypeView::BelongsToField(*t, *f),
        }
    }
}

#[derive(Debug)]
pub struct TableSchema {
    pub id: TableId,
    pub name: String,
    pub label: Option<String>,
    /// The path of the CSV file that holds the table's rows.
    pub source_file: String,
    pub id_field: Option<FieldId>,
    pub title_field: Option<FieldId>,
    pub fields: Vec<FieldId>,
}

pub struct TableSchemaView {
    pub id: TableId,
    pub name: Seq<char>,
    pub label: Option<Seq<char>>,
    pub source_file: Seq<char>,
    pub id_field: Option<FieldId>,
    pub title_field: Option<FieldId>,
    pub fields: Seq<FieldId>,
}

impl View for TableSchema {
    type V = TableSchemaView;

    open spec fn view(&self) -> TableSchemaView {
        TableSchemaView {
            id: self.id,
            name: self.name@,
            label: opt_view(self.label),
            source_file: self.source_file@,
            id_field: self.id_field,
            title_field: self.title_field,
            fields: self.fields@,
        }
    }
}

impl Clone for TableSchema {
    fn clone(&self) -> (r: Self)
        ensures
            r@ == self@,
    {
        TableSchema {
            id: self.id,
            name: self.name.clone(),
            label: clone_opt_string(&self.label),
            source_file: self.source_file.clone(),
            id_field: self.id_field,
            title_field: self.title_field,
            fields: self.fields.clone(),
        }
    }
}

#[derive(Debug)]
pub struct FieldSchema {
    pub id: FieldId,
    pub table_id: TableId,
    pub name: String,
    pub field_type: FieldType,
}

pub struct FieldSchemaView {
    pub id: FieldId,
    pub table_id: TableId,
    pub name: Seq<char>,
    pub field_type: FieldTypeView,
}

impl View for FieldSchema {
    type V = FieldSchemaView;

    open spec fn view(&self) -> FieldSchemaView {
        FieldSchemaView {
            id: self.id,
            table_id: self.table_id,
            name: self.name@,
            field_type: self.field_type@,
        }
    }
}

#[derive(Debug)]
pub struct Schema {
    pub tables: Vec<TableSchema>,
    pub fields: Vec<FieldSchema>,
}

pub struct SchemaView {
    pub tables: Seq<TableSchemaView>,
    pub fields: Seq<FieldSchemaView>,
}

impl View for Schema {
    type V = SchemaView;

    open spec fn view(&self) -> SchemaView {
        SchemaView {
            tables: self.tables@.map_values(|t: TableSchema| t@),
            fields: self.fields@.map_values(|f: FieldSchema| f@),
        }
    }
}

/// The index of the first table called `name`, if there is one.
pub open spec fn first_table_named(tables: Seq<TableSchemaView>, name: Seq<char>) -> Option<int>
    decreases tables.len(),
{
    if tables.len() == 0 {
        None
    } else if tables[0].name == name {
        Some(0)
    } else {
        match first_table_named(tables.drop_first(), name) {
            Some(i) => Some(i + 1),
            None => None,
        }
    }
}

/// The index of the first field of table `table_id` called `name`, if there is one.
pub open spec fn first_field_named(
    fields: Seq<FieldSchemaView>,
    table_id: TableId,
    name: Seq<char>,
) -> Option<int>
    decreases fields.len(),
{
    if fields.len() == 0 {
        None
    } else if fields[0].name == name && fields[0].table_id == table_id {
        Some(0)
    } else {
        match first_field_named(fields.drop_first(), table_id, name) {
            Some(i) => Some(i + 1),
            None => None,
        }
    }
}

impl Schema {
    /// Every table lists only fields that exist.
    pub open spec fn fields_valid(&self) -> bool {
        forall|t: int, k: int|
            0 <= t < self.tables@.len() && 0 <= k < self.tables@[t].fields@.len()
                ==> #[trigger] self.tables@[t].fields@[k].0 < self.fields@.len()
    }

    /// Every table and field carries its own position as its id, every table
    /// lists only fields that exist, and every `belongs_to` field points at a
    /// table and a field that exist.
    pub open spec fn wf(&self) -> bool {
        &&& forall|t: int| 0 <= t < self.tables@.len() ==> (#[trigger] self.tables@[t]).id.0 == t
        &&& forall|f: int| 0 <= f < self.fields@.len() ==> (#[trigger] self.fields@[f]).id.0 == f
        &&& self.fields_valid()
        &&& forall|f: int|
            #![trigger self.fields@[f]]
            0 <= f < self.fields@.len() ==> (self.fields@[f].field_type matches FieldType::BelongsToField(
                t,
                k,
            ) ==> t.0 < self.tables@.len() && k.0 < self.fields@.len())
    }

    pub fn table(&self, id: TableId) -> (r: &TableSchema)
        requires
            id.0 < self.tables@.len(),
        ensures
            *r == self.tables@[id.0 as int],
    {
        &self.tables[id.0]
    }

    pub fn field(&self, id: FieldId) -> (r: &FieldSchema)
        requires
            id.0 < self.fields@.len(),
        ensures
            *r == self.fields@[id.0 as int],
    {
        &self.fields[id.0]
    }

    /// The fields of a table, in the order the table lists them.
    pub fn fields_for_table(&self, id: TableId) -> (r: Vec<&FieldSchema>)
        requires
            id.0 < self.tables@.len(),
            forall|k: int|
                0 <= k < self.tables@[id.0 as int].fields@.len()
                    ==> #[trigger] self.tables@[id.0 as int].fields@[k].0 < self.fields@.len(),
        ensures
            r@.len() == self.tables@[id.0 as int].fields@.len(),
            forall|k: int|
                0 <= k < r@.len() ==> *#[trigger] r@[k]
                    == self.fields@[self.tables@[id.0 as int].fields@[k].0 as int],
    {
        let table = self.table(id);
        let mut v: Vec<&FieldSchema> = Vec::with_capacity(table.fields.len());
        let mut k: usize = 0;
        while k < table.fields.len()
            invariant
                k <= table.fields@.len(),
                *table == self.tables@[id.0 as int],
                forall|j: int|
                    0 <= j < table.fields@.len() ==> #[trigger] table.fields@[j].0 < self.fields@.len(),
                id.0 < self.tables@.len(),
                v@.len() == k,
                forall|j: int|
                    0 <= j < k ==> *#[trigger] v@[j] == self.fields@[table.fields@[j].0 as int],
            decreases table.fields@.len() - k,
        {
            assert(table.fields@[k as int].0 < self.fields@.len());
            v.push(self.field(table.fields[k]));
            k = k + 1;
        }
        v
    }

    /// The first table called `name`.
    pub fn table_by_name(&self, name: &str) -> (r: Option<&TableSchema>)
        ensures
            match first_table_named(self@.tables, name@) {
                Some(i) => r == Some(&self.tables@[i]),
                None => r is None,
            },
    {
        let mut i: usize = 0;
        while i < self.tables.len()
            invariant
                i <= self.tables@.len(),
                forall|j: int| 0 <= j < i ==> self.tables@[j].name@ != name@,
            decreases self.tables@.len() - i,
        {
            if crate::strings::eq_str(&self.tables[i].name, name) {
                proof { lemma_first_table_named(self@.tables, name@, i as int); }
                return Some(&self.tables[i]);
            }
            i = i + 1;
        }
        proof { lemma_first_table_named(self@.tables, name@, self.tables@.len() as int); }
        None
    }

    /// The first field of table `table_id` called `name`.
    pub fn field_by_name(&self, table_id: TableId, name: &str) -> (r: Option<&FieldSchema>)
        ensures
            match first_field_named(self@.fields, table_id, name@) {
                Some(i) => r == Some(&self.fields@[i]),
                None => r is None,
            },
    {
        let mut i: usize = 0;
        while i < self.fields.len()
            invariant
                i <= self.fields@.len(),
                forall|j: int|
                    0 <= j < i ==> !(self.fields@[j].name@ == name@ && self.fields@[j].table_id
                        == table_id),
            decreases self.fields@.len() - i,
        {
            if crate::strings::eq_str(&self.fields[i].name, name) && self.fields[i].table_id == table_id {
                proof { lemma_first_field_named(self@.fields, table_id, name@, i as int); }
                return Some(&self.fields[i]);
            }
            i = i + 1;
        }
        proof { lemma_first_field_named(self@.fields, table_id, name@, self.fields@.len() as int); }
        None
    }

    /// The column names of the given fields, separated by `", "`, for use in a
    /// SQL query.
    pub fn field_query(&self, field_ids: &Vec<FieldId>) -> (r: String)
        requires
            forall|k: int| 0 <= k < field_ids@.len() ==> #[trigger] field_ids@[k].0 < self.fields@.len(),
        ensures
            r@ == join_spec(
                field_ids@.map_values(|f: FieldId| self.fields@[f.0 as int].name@),
                ", "@,
            ),
    {
        let mut names: Vec<String> = Vec::with_capacity(field_ids.len());
        let mut k: usize = 0;
        while k < field_ids.len()
            invariant
                k <= field_ids@.len(),
                forall|j: int| 0 <= j < field_ids@.len() ==> #[trigger] field_ids@[j].0 < self.fields@.len(),
                string_views(names@) =~= field_ids@.take(k as int).map_values(
                    |f: FieldId| self.fields@[f.0 as int].name@,
                ),
            decreases field_ids@.len() - k,
        {
            assert(field_ids@[k as int].0 < self.fields@.len());
            let name = self.field(field_ids[k]).name.clone();
            let ghost old_names = names@;
            names.push(name);
            proof {
                assert(string_views(names@) =~= string_views(old_names).push(name@));
                assert(field_ids@.take(k + 1) =~= field_ids@.take(k as int).push(field_ids@[k as int]));
            }
            k = k + 1;
        }
        assert(field_ids@.take(field_ids@.len() as int) =~= field_ids@);
        join(&names, ", ")
    }
}

/// `first_table_named` finds the first table with the name, given that none of
/// the first `i` tables has it.
pub proof fn lemma_first_table_named(tables: Seq<TableSchemaView>, name: Seq<char>, i: int)
    requires
        0 <= i <= tables.len(),
        forall|j: int| 0 <= j < i ==> tables[j].name != name,
    ensures
        i < tables.len() && tables[i].name == name ==> first_table_named(tables, name) == Some(i),
        i == tables.len() ==> first_table_named(tables, name) is None,
    decreases i,
{
    if i > 0 {
        lemma_first_table_named(tables.drop_first(), name, i - 1);
    }
}

/// `first_field_named` finds the first matching field, given that none of the
/// first `i` fields matches.
pub proof fn lemma_first_field_named(
    fields: Seq<FieldSchemaView>,
    table_id: TableId,
    name: Seq<char>,
    i: int,
)
    requires
        0 <= i <= fields.len(),
        forall|j: int| 0 <= j < i ==> !(fields[j].name == name && fields[j].table_id == table_id),
    ensures
        i < fields.len() && fields[i].name == name && fields[i].table_id == table_id
            ==> first_field_named(fields, table_id, name) == Some(i),
        i == fields.len() ==> first_field_named(fields, table_id, name) is None,
    decreases i,
{
    if i > 0 {
        lemma_first_field_named(fields.drop_first(), table_id, name, i - 1);
    }
}

/// Why a configuration does not make a schema.
#[derive(Debug)]
pub enum SchemaError {
    MissingRelatedEntity,
    MissingRelatedKey,
    TableNotFound(String),
    FieldNotFound(String),
    InvalidFieldType(String),
}

pub enum SchemaErrorView {
    MissingRelatedEntity,
    MissingRelatedKey,
    TableNotFound(Seq<char>),
    FieldNotFound(Seq<char>),
    InvalidFieldType(Seq<char>),
}

impl View for SchemaError {
    type V = SchemaErrorView;

    open spec fn view(&self) -> SchemaErrorView {
        match self {
            SchemaError::MissingRelatedEntity => SchemaErrorView::MissingRelatedEntity,
            SchemaError::MissingRelatedKey => SchemaErrorView::MissingRelatedKey,
            SchemaError::TableNotFound(s) => SchemaErrorView::TableNotFound(s@),
            SchemaError::FieldNotFound(s) => SchemaErrorView::FieldNotFound(s@),
            SchemaError::InvalidFieldType(s) => SchemaErrorView::InvalidFieldType(s@),
        }
    }
}

impl SchemaErrorView {
    pub open spec fn message(self) -> Seq<char> {
        match self {
            SchemaErrorView::MissingRelatedEntity => "Missing related_entity field for belongs_to relation"@,
            SchemaErrorView::MissingRelatedKey => "Missing related_key field for belongs_to relation"@,
            SchemaErrorView::TableNotFound(s) => "Table "@ + s + " not found"@,
            SchemaErrorView::FieldNotFound(s) => "Field "@ + s + " not found"@,
            SchemaErrorView::InvalidFieldType(s) => "Invalid field type "@ + s,
        }
    }
}

impl SchemaError {
    /// The error as a sentence.
    pub fn message(&self) -> (r: String)
        ensures
            r@ == self@.message(),
    {
        match self {
            SchemaError::MissingRelatedEntity => String::from_str(
                "Missing related_entity field for belongs_to relation",
            ),
            SchemaError::MissingRelatedKey => String::from_str(
                "Missing related_key field for belongs_to relation",
            ),
            SchemaError::TableNotFound(s) => {
                let mut r = str_concat("Table ", s.as_str());
                r.append(" not found");
                r
            },
            SchemaError::FieldNotFound(s) => {
                let mut r = str_concat("Field ", s.as_str());
                r.append(" not found");
                r
            },
            SchemaError::InvalidFieldType(s) => str_concat("Invalid field type ", s.as_str()),
        }
    }
}

/// The index of the first configured table called `name`.
pub open spec fn first_config_table_named(tables: Seq<ConfigTableView>, name: Seq<char>) -> Option<int>
    decreases tables.len(),
{
    if tables.len() == 0 {
        None
    } else if tables[0].name == name {
        Some(0)
    } else {
        match first_config_table_named(tables.drop_first(), name) {
            Some(i) => Some(i + 1),
            None => None,
        }
    }
}

/// The index of the first configured field of table `table_id` called `name`.
pub open spec fn first_config_field_named(
    fields: Seq<ConfigFieldView>,
    table_id: TableId,
    name: Seq<char>,
) -> Option<int>
    decreases fields.len(),
{
    if fields.len() == 0 {
        None
    } else if fields[0].table_id == table_id && fields[0].name == name {
        Some(0)
    } else {
        match first_config_field_named(fields.drop_first(), table_id, name) {
            Some(i) => Some(i + 1),
            None => None,
        }
    }
}

/// The type a configured field gets in the schema: no type or `string` is a
/// string field, `select` carries the field's options, and `belongs_to` points
/// at the first table called `related_entity` and its first field called
/// `related_key`.
pub open spec fn resolve_field_type(cfg: ConfigView, f: ConfigFieldView) -> Result<
    FieldTypeView,
    SchemaErrorView,
> {
    match f.field_type_name {
        None => Ok(FieldTypeView::StringField),
        Some(s) => if s == "string"@ {
            Ok(FieldTypeView::StringField)
        } else if s == "select"@ {
            Ok(FieldTypeView::SelectField { options: f.options })
        } else if s == "belongs_to"@ {
            match f.related_entity {
                None => Err(SchemaErrorView::MissingRelatedEntity),
                Some(entity) => match f.related_key {
                    None => Err(SchemaErrorView::MissingRelatedKey),
                    Some(key) => match first_config_table_named(cfg.tables, entity) {
                        None => Err(SchemaErrorView::TableNotFound(entity)),
                        Some(ti) => match first_config_field_named(
                            cfg.fields,
                            cfg.tables[ti].id,
                            key,
                        ) {
                            None => Err(SchemaErrorView::FieldNotFound(key)),
                            Some(fi) => Ok(
                                FieldTypeView::BelongsToField(cfg.tables[ti].id, cfg.fields[fi].id),
                            ),
                        },
                    },
                },
            }
        } else {
            Err(SchemaErrorView::InvalidFieldType(s))
        },
    }
}

/// The types of the first `k` configured fields, or the error of the first of
/// them that has none.
pub open spec fn resolve_prefix(cfg: ConfigView, k: nat) -> Result<
    Seq<FieldTypeView>,
    SchemaErrorView,
>
    decreases k,
{
    if k == 0 {
        Ok(Seq::empty())
    } else {
        match resolve_prefix(cfg, (k - 1) as nat) {
            Err(e) => Err(e),
            Ok(types) => match resolve_field_type(cfg, cfg.fields[k - 1]) {
                Err(e) => Err(e),
                Ok(t) => Ok(types.push(t)),
            },
        }
    }
}

/// The ids, in order, of the fields that belong to table `tid`.
pub open spec fn table_field_ids(fields: Seq<ConfigFieldView>, tid: TableId) -> Seq<FieldId>
    decreases fields.len(),
{
    if fields.len() == 0 {
        Seq::empty()
    } else {
        let rest = table_field_ids(fields.drop_last(), tid);
        if fields.last().table_id == tid {
            rest.push(fields.last().id)
        } else {
            rest
        }
    }
}

/// The id of the last field of table `tid` called `name`.
pub open spec fn last_field_named(fields: Seq<ConfigFieldView>, tid: TableId, name: Seq<char>) -> Option<FieldId>
    decreases fields.len(),
{
    if fields.len() == 0 {
        None
    } else if fields.last().table_id == tid && fields.last().name == name {
        Some(fields.last().id)
    } else {
        last_field_named(fields.drop_last(), tid, name)
    }
}

/// The schema entry of a configured table, given the configured fields.
pub open spec fn table_schema_spec(fields: Seq<ConfigFieldView>, t: ConfigTableView) -> TableSchemaView {
    TableSchemaView {
        id: t.id,
        name: t.name,
        label: None,
        source_file: t.source_file,
        id_field: last_field_named(fields, t.id, "id"@),
        title_field: last_field_named(fields, t.id, "title"@),
        fields: table_field_ids(fields, t.id),
    }
}

/// The schema entry of a configured field, given its type.
pub open spec fn field_schema_spec(f: ConfigFieldView, t: FieldTypeView) -> FieldSchemaView {
    FieldSchemaView { id: f.id, table_id: f.table_id, name: f.name, field_type: t }
}

/// The schema a configuration describes, or the first field's error.
pub open spec fn schema_spec(cfg: ConfigView) -> Result<SchemaView, SchemaErrorView> {
    match resolve_prefix(cfg, cfg.fields.len()) {
        Err(e) => Err(e),
        Ok(types) => Ok(
            SchemaView {
                tables: cfg.tables.map_values(|t: ConfigTableView| table_schema_spec(cfg.fields, t)),
                fields: Seq::new(
                    cfg.fields.len(),
                    |j: int| field_schema_spec(cfg.fields[j], types[j]),
                ),
            },
        ),
    }
}

pub proof fn lemma_resolve_prefix_len(cfg: ConfigView, k: nat)
    ensures
        resolve_prefix(cfg, k) matches Ok(types) ==> types.len() == k,
    decreases k,
{
    if k > 0 {
        lemma_resolve_prefix_len(cfg, (k - 1) as nat);
    }
}

pub proof fn lemma_first_config_table_named(tables: Seq<ConfigTableView>, name: Seq<char>, i: int)
    requires
        0 <= i <= tables.len(),
        forall|j: int| 0 <= j < i ==> tables[j].name != name,
    ensures
        i < tables.len() && tables[i].name == name ==> first_config_table_named(tables, name) == Some(i),
        i == tables.len() ==> first_config_table_named(tables, name) is None,
    decreases i,
{
    if i > 0 {
        lemma_first_config_table_named(tables.drop_first(), name, i - 1);
    }
}

pub proof fn lemma_first_config_field_named(
    fields: Seq<ConfigFieldView>,
    tid: TableId,
    name: Seq<char>,
    i: int,
)
    requires
        0 <= i <= fields.len(),
        forall|j: int| 0 <= j < i ==> !(fields[j].table_id == tid && fields[j].name == name),
    ensures
        i < fields.len() && fields[i].table_id == tid && fields[i].name == name
            ==> first_config_field_named(fields, tid, name) == Some(i),
        i == fields.len() ==> first_config_field_named(fields, tid, name) is None,
    decreases i,
{
    if i > 0 {
        lemma_first_config_field_named(fields.drop_first(), tid, name, i - 1);
    }
}

/// The type of one configured field, as `resolve_field_type` states it.
fn resolve_field(config: &Config, field: &crate::dbconfig::ConfigField) -> (r: Result<FieldType, SchemaError>)
    ensures
        match resolve_field_type(config@, field@) {
            Ok(t) => r matches Ok(ft) && ft@ == t,
            Err(e) => r matches Err(er) && er@ == e,
        },
{
    match &field.field_type_name {
        None => Ok(FieldType::StringField),
        Some(s) => {
            if eq_str(s, "string") {
                Ok(FieldType::StringField)
            } else if eq_str(s, "select") {
                Ok(FieldType::SelectField { options: clone_options(&field.options) })
            } else if eq_str(s, "belongs_to") {
                let related_entity = match &field.related_entity {
                    Some(e) => e,
                    None => { return Err(SchemaError::MissingRelatedEntity); },
                };
                let related_key = match &field.related_key {
                    Some(k) => k,
                    None => { return Err(SchemaError::MissingRelatedKey); },
                };
                let mut ti: usize = 0;
                while ti < config.tables.len()
                    invariant
                        ti <= config@.tables.len(),
                        forall|j: int| 0 <= j < ti ==> config@.tables[j].name != related_entity@,
                    ensures
                        ti <= config@.tables.len(),
                        forall|j: int| 0 <= j < ti ==> config@.tables[j].name != related_entity@,
                        ti < config@.tables.len() ==> config@.tables[ti as int].name == related_entity@,
                    decreases config@.tables.len() - ti,
                {
                    proof { assert(config@.tables[ti as int] == config.tables@[ti as int]@); }
                    if config.tables[ti].name == *related_entity {
                        break;
                    }
                    ti = ti + 1;
                }
                proof { lemma_first_config_table_named(config@.tables, related_entity@, ti as int); }
                if ti == config.tables.len() {
                    return Err(SchemaError::TableNotFound(related_entity.clone()));
                }
                proof { assert(config@.tables[ti as int] == config.tables@[ti as int]@); }
                let table_id = config.tables[ti].id;
                let mut fi: usize = 0;
                while fi < config.fields.len()
                    invariant
                        fi <= config@.fields.len(),
                        forall|j: int|
                            0 <= j < fi ==> !(config@.fields[j].table_id == table_id
                                && config@.fields[j].name == related_key@),
                    ensures
                        fi <= config@.fields.len(),
                        forall|j: int|
                            0 <= j < fi ==> !(config@.fields[j].table_id == table_id
                                && config@.fields[j].name == related_key@),
                        fi < config@.fields.len() ==> config@.fields[fi as int].table_id == table_id
                            && config@.fields[fi as int].name == related_key@,
                    decreases config@.fields.len() - fi,
                {
                    proof { assert(config@.fields[fi as int] == config.fields@[fi as int]@); }
                    if config.fields[fi].table_id == table_id && config.fields[fi].name == *related_key {
                        break;
                    }
                    fi = fi + 1;
                }
                proof { lemma_first_config_field_named(config@.fields, table_id, related_key@, fi as int); }
                proof {
                    assert(field@.related_entity == Some(related_entity@));
                    assert(field@.related_key == Some(related_key@));
                    assert(first_config_table_named(config@.tables, related_entity@) == Some(ti as int));
                    assert(config@.tables[ti as int].id == table_id);
                }
                if fi == config.fields.len() {
                    return Err(SchemaError::FieldNotFound(related_key.clone()));
                }
                proof { assert(config@.fields[fi as int] == config.fields@[fi as int]@); }
                Ok(FieldType::BelongsToField(table_id, config.fields[fi].id))
            } else {
                Err(SchemaError::InvalidFieldType(s.clone()))
            }
        },
    }
}

impl Schema {
    /// Builds the schema a configuration describes: each table keeps its name
    /// and source file and lists its fields in order, its `id` and `title`
    /// fields are the last fields of those names, and each field gets the type
    /// its type name gives it. The first field whose type cannot be resolved
    /// makes the whole conversion fail.
    pub fn try_from(config: &Config) -> (r: Result<Schema, SchemaError>)
        ensures
            match schema_spec(config@) {
                Ok(s) => r matches Ok(schema) && schema@ == s,
                Err(e) => r matches Err(err) && err@ == e,
            },
            config@.wf() ==> (r matches Ok(schema) ==> schema.wf()),
    {
        let ghost cfg = config@;
        let mut tables: Vec<TableSchema> = Vec::with_capacity(config.tables.len());
        let mut i: usize = 0;
        while i < config.tables.len()
            invariant
                cfg == config@,
                i <= cfg.tables.len(),
                tables@.len() == i,
                forall|k: int|
                    0 <= k < i ==> #[trigger] tables@[k]@ == table_schema_spec(
                        cfg.fields.take(0),
                        cfg.tables[k],
                    ),
            decreases cfg.tables.len() - i,
        {
            let t = &config.tables[i];
            tables.push(
                TableSchema {
                    id: t.id,
                    name: t.name.clone(),
                    label: None,
                    id_field: None,
                    title_field: None,
                    fields: Vec::new(),
                    source_file: t.source_file.clone(),
                },
            );
            proof {
                let ts = table_schema_spec(cfg.fields.take(0), cfg.tables[i as int]);
                assert(tables@[i as int]@.fields =~= ts.fields);
            }
            i = i + 1;
        }
        let mut fields: Vec<FieldSchema> = Vec::with_capacity(config.fields.len());
        let ghost mut types: Seq<FieldTypeView> = Seq::empty();
        let mut j: usize = 0;
        while j < config.fields.len()
            invariant
                cfg == config@,
                j <= cfg.fields.len(),
                tables@.len() == cfg.tables.len(),
                forall|k: int|
                    0 <= k < cfg.tables.len() ==> #[trigger] tables@[k]@ == table_schema_spec(
                        cfg.fields.take(j as int),
                        cfg.tables[k],
                    ),
                resolve_prefix(cfg, j as nat) == Ok::<Seq<FieldTypeView>, SchemaErrorView>(types),
                types.len() == j,
                fields@.len() == j,
                forall|k: int|
                    0 <= k < j ==> #[trigger] fields@[k]@ == field_schema_spec(cfg.fields[k], types[k]),
            decreases cfg.fields.len() - j,
        {
            let field = &config.fields[j];
            let field_type = match resolve_field(config, field) {
                Ok(t) => t,
                Err(e) => {
                    proof {
                        assert(cfg.fields[j as int] == field@);
                        assert(resolve_prefix(cfg, (j + 1) as nat) == Err::<Seq<FieldTypeView>, SchemaErrorView>(e@));
                        lemma_resolve_prefix_err_stays(cfg, (j + 1) as nat, cfg.fields.len());
                    }
                    return Err(e);
                },
            };
            proof {
                assert(cfg.fields[j as int] == field@);
            }
            let ghost ft = field_type@;
            fields.push(
                FieldSchema {
                    id: field.id,
                    table_id: field.table_id,
                    name: field.name.clone(),
                    field_type,
                },
            );
            proof {
                types = types.push(ft);
            }
            let is_id = eq_str(&field.name, "id");
            let is_title = eq_str(&field.name, "title");
            let mut k: usize = 0;
            while k < tables.len()
                invariant
                    cfg == config@,
                    j < cfg.fields.len(),
                    field@ == cfg.fields[j as int],
                    is_id == (field@.name == "id"@),
                    is_title == (field@.name == "title"@),
                    k <= tables@.len(),
                    tables@.len() == cfg.tables.len(),
                    forall|m: int|
                        0 <= m < k ==> #[trigger] tables@[m]@ == table_schema_spec(
                            cfg.fields.take(j + 1),
                            cfg.tables[m],
                        ),
                    forall|m: int|
                        k <= m < cfg.tables.len() ==> #[trigger] tables@[m]@ == table_schema_spec(
                            cfg.fields.take(j as int),
                            cfg.tables[m],
                        ),
                decreases tables@.len() - k,
            {
                let ghost pre = cfg.fields.take(j as int);
                let ghost post = cfg.fields.take(j + 1);
                proof {
                    assert(post.drop_last() =~= pre);
                    assert(post.last() == field@);
                }
                let ghost before = tables@[k as int]@;
                let ghost tk = cfg.tables[k as int];
                if tables[k].id == field.table_id {
                    tables[k].fields.push(field.id);
                    if is_id {
                        tables[k].id_field = Some(field.id);
                    }
                    if is_title {
                        tables[k].title_field = Some(field.id);
                    }
                    proof {
                        assert(tables@[k as int]@.fields =~= before.fields.push(field.id));
                        assert(table_field_ids(post, tk.id) == table_field_ids(pre, tk.id).push(field@.id));
                        assert(tables@[k as int]@ == table_schema_spec(post, tk));
                    }
                } else {
                    proof {
                        assert(table_field_ids(post, tk.id) == table_field_ids(pre, tk.id));
                        assert(tables@[k as int]@ == table_schema_spec(post, tk));
                    }
                }
                k = k + 1;
            }
            j = j + 1;
        }
        let table_count = tables.len();
        let field_count = fields.len();
        proof {
            // Both lengths are `usize` values, which the positions in the ids need.
            assert(tables@.len() == table_count && fields@.len() == field_count);
            lemma_resolve_prefix_len(cfg, cfg.fields.len());
            assert(cfg.fields.take(cfg.fields.len() as int) =~= cfg.fields);
            let s = match schema_spec(cfg) { Ok(s) => s, Err(_) => arbitrary() };
            let built = Schema { tables, fields };
            assert(built@.tables =~= s.tables);
            assert(built@.fields =~= s.fields);
            if cfg.wf() {
                lemma_schema_spec_wf(cfg);
                lemma_view_wf(built);
            }
        }
        Ok(Schema { tables, fields })
    }
}

impl SchemaView {
    /// Every table and field carries its position as its id, every table lists
    /// only fields that exist, and every `belongs_to` field points at a table
    /// and a field that exist.
    pub open spec fn wf(self) -> bool {
        &&& forall|t: int| 0 <= t < self.tables.len() ==> (#[trigger] self.tables[t]).id == TableId(t as usize)
        &&& forall|f: int| 0 <= f < self.fields.len() ==> (#[trigger] self.fields[f]).id == FieldId(f as usize)
        &&& forall|t: int, k: int|
            0 <= t < self.tables.len() && 0 <= k < self.tables[t].fields.len()
                ==> #[trigger] self.tables[t].fields[k].0 < self.fields.len()
        &&& forall|f: int|
            #![trigger self.fields[f]]
            0 <= f < self.fields.len() ==> (self.fields[f].field_type matches FieldTypeView::BelongsToField(
                t,
                k,
            ) ==> t.0 < self.tables.len() && k.0 < self.fields.len())
    }
}

/// A schema whose view is well-formed is well-formed.
proof fn lemma_view_wf(s: Schema)
    requires
        s@.wf(),
        s.tables@.len() <= usize::MAX,
        s.fields@.len() <= usize::MAX,
    ensures
        s.wf(),
{
    assert forall|t: int| 0 <= t < s.tables@.len() implies (#[trigger] s.tables@[t]).id.0 == t by {
        assert(s@.tables[t] == s.tables@[t]@);
    }
    assert forall|f: int| 0 <= f < s.fields@.len() implies (#[trigger] s.fields@[f]).id.0 == f by {
        assert(s@.fields[f] == s.fields@[f]@);
    }
    assert forall|t: int, k: int|
        0 <= t < s.tables@.len() && 0 <= k < s.tables@[t].fields@.len()
            implies #[trigger] s.tables@[t].fields@[k].0 < s.fields@.len() by {
        assert(s@.tables[t] == s.tables@[t]@);
        assert(s@.tables[t].fields[k] == s.tables@[t].fields@[k]);
    }
    assert forall|f: int|
        #![trigger s.fields@[f]]
        0 <= f < s.fields@.len() implies (s.fields@[f].field_type matches FieldType::BelongsToField(
            t,
            k,
        ) ==> t.0 < s.tables@.len() && k.0 < s.fields@.len()) by {
        assert(s@.fields[f] == s.fields@[f]@);
    }
}

proof fn lemma_table_field_ids_exist(fields: Seq<ConfigFieldView>, tid: TableId)
    requires
        forall|f: int| 0 <= f < fields.len() ==> (#[trigger] fields[f]).id == FieldId(f as usize),
    ensures
        forall|k: int|
            0 <= k < table_field_ids(fields, tid).len() ==> (#[trigger] table_field_ids(fields, tid)[k]).0
                < fields.len(),
    decreases fields.len(),
{
    if fields.len() > 0 {
        let prefix = fields.drop_last();
        assert forall|f: int| 0 <= f < prefix.len() implies (#[trigger] prefix[f]).id == FieldId(f as usize) by {
            assert(prefix[f] == fields[f]);
        }
        lemma_table_field_ids_exist(prefix, tid);
        let last = fields.len() - 1;
        assert(fields[last] == fields.last());
        assert((last as usize) <= last);
        let rest = table_field_ids(prefix, tid);
        let all = table_field_ids(fields, tid);
        assert forall|k: int| 0 <= k < all.len() implies (#[trigger] all[k]).0 < fields.len() by {
            if k < rest.len() {
                assert(all[k] == rest[k]);
            }
        }
    }
}

proof fn lemma_first_config_table_named_in_range(tables: Seq<ConfigTableView>, name: Seq<char>)
    ensures
        first_config_table_named(tables, name) matches Some(i) ==> 0 <= i < tables.len(),
    decreases tables.len(),
{
    if tables.len() > 0 {
        lemma_first_config_table_named_in_range(tables.drop_first(), name);
    }
}

proof fn lemma_first_config_field_named_in_range(fields: Seq<ConfigFieldView>, tid: TableId, name: Seq<char>)
    ensures
        first_config_field_named(fields, tid, name) matches Some(i) ==> 0 <= i < fields.len(),
    decreases fields.len(),
{
    if fields.len() > 0 {
        lemma_first_config_field_named_in_range(fields.drop_first(), tid, name);
    }
}

proof fn lemma_resolve_prefix_types(cfg: ConfigView, k: nat)
    requires
        k <= cfg.fields.len(),
    ensures
        resolve_prefix(cfg, k) matches Ok(types) ==> types.len() == k && forall|j: int|
            0 <= j < k ==> resolve_field_type(cfg, cfg.fields[j]) == Ok::<
                FieldTypeView,
                SchemaErrorView,
            >(#[trigger] types[j]),
    decreases k,
{
    if k > 0 {
        lemma_resolve_prefix_types(cfg, (k - 1) as nat);
    }
}

proof fn lemma_resolved_type_refs_exist(cfg: ConfigView, f: ConfigFieldView)
    requires
        cfg.wf(),
    ensures
        resolve_field_type(cfg, f) matches Ok(FieldTypeView::BelongsToField(t, k)) ==> t.0
            < cfg.tables.len() && k.0 < cfg.fields.len(),
{
    if let (Some(entity), Some(key)) = (f.related_entity, f.related_key) {
        lemma_first_config_table_named_in_range(cfg.tables, entity);
        if let Some(ti) = first_config_table_named(cfg.tables, entity) {
            lemma_first_config_field_named_in_range(cfg.fields, cfg.tables[ti].id, key);
        }
    }
}

/// A schema built from a configuration has its tables and fields one for one
/// and in order: each table keeps its id, name and source file and lists the
/// ids of its fields in configuration order, with its last fields called `id`
/// and `title` as its id and title fields; each field keeps its id, table and
/// name, and has the type its own entry resolves to.
pub proof fn lemma_schema_spec_shape(cfg: ConfigView)
    ensures
        schema_spec(cfg) matches Ok(s) ==> {
            &&& s.tables.len() == cfg.tables.len()
            &&& s.fields.len() == cfg.fields.len()
            &&& forall|i: int|
                0 <= i < cfg.tables.len() ==> {
                    let t = #[trigger] s.tables[i];
                    let c = cfg.tables[i];
                    &&& t.id == c.id
                    &&& t.name == c.name
                    &&& t.source_file == c.source_file
                    &&& t.fields == table_field_ids(cfg.fields, c.id)
                    &&& t.id_field == last_field_named(cfg.fields, c.id, "id"@)
                    &&& t.title_field == last_field_named(cfg.fields, c.id, "title"@)
                }
            &&& forall|j: int|
                0 <= j < cfg.fields.len() ==> {
                    let f = #[trigger] s.fields[j];
                    let c = cfg.fields[j];
                    &&& f.id == c.id
                    &&& f.table_id == c.table_id
                    &&& f.name == c.name
                    &&& resolve_field_type(cfg, c) == Ok::<FieldTypeView, SchemaErrorView>(f.field_type)
                }
        },
{
    lemma_resolve_prefix_types(cfg, cfg.fields.len());
}

/// The schema of a well-formed configuration is well-formed.
pub proof fn lemma_schema_spec_wf(cfg: ConfigView)
    requires
        cfg.wf(),
    ensures
        schema_spec(cfg) matches Ok(s) ==> s.wf(),
{
    lemma_resolve_prefix_types(cfg, cfg.fields.len());
    if let Ok(types) = resolve_prefix(cfg, cfg.fields.len()) {
        let s = schema_spec(cfg)->Ok_0;
        lemma_table_field_ids_exist(cfg.fields, TableId(0));
        assert forall|t: int, k: int|
            0 <= t < s.tables.len() && 0 <= k < s.tables[t].fields.len()
                implies #[trigger] s.tables[t].fields[k].0 < s.fields.len() by {
            lemma_table_field_ids_exist(cfg.fields, cfg.tables[t].id);
            assert(s.tables[t].fields == table_field_ids(cfg.fields, cfg.tables[t].id));
        }
        assert forall|f: int|
            #![trigger s.fields[f]]
            0 <= f < s.fields.len() implies (s.fields[f].field_type matches FieldTypeView::BelongsToField(
                t,
                k,
            ) ==> t.0 < s.tables.len() && k.0 < s.fields.len()) by {
            lemma_resolved_type_refs_exist(cfg, cfg.fields[f]);
            assert(resolve_field_type(cfg, cfg.fields[f]) == Ok::<FieldTypeView, SchemaErrorView>(types[f]));
        }
    }
}

/// The schema built from a configuration read from any document refers only
/// to tables and fields that exist, and gives each its position as its id.
pub proof fn lemma_parsed_schema_wf(nodes: Seq<DocNodeView>, source: Seq<char>)
    ensures
        config_spec(nodes, source) matches Ok(c) ==> (schema_spec(c) matches Ok(s) ==> s.wf()),
{
    lemma_config_spec_wf(nodes, source);
    if let Ok(c) = config_spec(nodes, source) {
        lemma_schema_spec_wf(c);
    }
}

/// Once a prefix of the fields fails to resolve, every longer prefix fails
/// with the same error.
pub proof fn lemma_resolve_prefix_err_stays(cfg: ConfigView, k: nat, n: nat)
    requires
        k <= n,
        resolve_prefix(cfg, k) is Err,
    ensures
        resolve_prefix(cfg, n) == resolve_prefix(cfg, k),
    decreases n - k,
{
    if k < n {
        lemma_resolve_prefix_err_stays(cfg, k, (n - 1) as nat);
    }
}

} // verus!
