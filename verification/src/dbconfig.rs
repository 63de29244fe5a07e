use vstd::prelude::*;
use crate::schema::{FieldId, SelectOption, SelectOptionView, TableId, opt_view, options_view};
use crate::kdl_doc::{DocNode, DocNodeView, argument, property, written_as, parse_document, kdl_document, lemma_nodes_view, nodes_view};
use crate::fold::{try_fold, lemma_try_fold_next, lemma_try_fold_err, lemma_try_fold_all, lemma_try_fold_keeps};

verus! {

#[derive(Debug)]
pub struct ConfigTable {
    pub id: TableId,
    pub name: String,
    /// The path of the table's CSV file.
    pub source_file: String,
}

#[derive(Debug)]
pub struct ConfigField {
    pub id: FieldId,
    pub table_id: TableId,
    pub related_entity: Option<String>,
    pub related_key: Option<String>,
    pub field_type_name: Option<String>,
    pub name: String,
    pub options: Vec<SelectOption>,
}

/// The tables and fields that a configuration file declares.
#[derive(Debug)]
pub struct Config {
    /// The path of the configuration file itself.
    pub config_source: String,
    pub tables: Vec<ConfigTable>,
    pub fields: Vec<ConfigField>,
}

pub struct ConfigTableView {
    pub id: TableId,
    pub name: Seq<char>,
    pub source_file: Seq<char>,
}

pub struct ConfigFieldView {
    pub id: FieldId,
    pub table_id: TableId,
    pub related_entity: Option<Seq<char>>,
    pub related_key: Option<Seq<char>>,
    pub field_type_name: Option<Seq<char>>,
    pub name: Seq<char>,
    pub options: Seq<SelectOptionView>,
}

#[verifier::ext_equal]
pub struct ConfigView {
    pub config_source: Seq<char>,
    pub tables: Seq<ConfigTableView>,
    pub fields: Seq<ConfigFieldView>,
}

impl View for ConfigTable {
    type V = ConfigTableView;

    open spec fn view(&self) -> ConfigTableView {
        ConfigTableView { id: self.id, name: self.name@, source_file: self.source_file@ }
    }
}

impl View for ConfigField {
    type V = ConfigFieldView;

    open spec fn view(&self) -> ConfigFieldView {
        ConfigFieldView {
            id: self.id,
            table_id: self.table_id,
            related_entity: opt_view(self.related_entity),
            related_key: opt_view(self.related_key),
            field_type_name: opt_view(self.field_type_name),
            name: self.name@,
            options: options_view(self.options@),
        }
    }
}

impl View for Config {
    type V = ConfigView;

    open spec fn view(&self) -> ConfigView {
        ConfigView {
            config_source: self.config_source@,
            tables: self.tables@.map_values(|t: ConfigTable| t@),
            fields: self.fields@.map_values(|f: ConfigField| f@),
        }
    }
}

impl Default for Config {
    fn default() -> (r: Self)
        ensures
            r@.config_source.len() == 0,
            r@.tables.len() == 0,
            r@.fields.len() == 0,
    {
        Config { config_source: String::new(), tables: Vec::new(), fields: Vec::new() }
    }
}

impl Config {
    /// Appends a table; its id is its position.
    pub fn add_table(&mut self, name: String, source_file: String) -> (r: TableId)
        ensures
            r.0 == old(self)@.tables.len(),
            final(self)@ == (ConfigView {
                tables: old(self)@.tables.push(
                    ConfigTableView { id: r, name: name@, source_file: source_file@ },
                ),
                ..old(self)@
            }),
    {
        let id = TableId(self.tables.len());
        self.tables.push(ConfigTable { id, name, source_file });
        proof {
            assert(self@.tables =~= old(self)@.tables.push(
                ConfigTableView { id, name: name@, source_file: source_file@ },
            ));
        }
        id
    }

    /// Appends a field; its id is its position.
    pub fn add_field(
        &mut self,
        table_id: TableId,
        name: String,
        field_type_name: Option<String>,
        related_entity: Option<String>,
        related_key: Option<String>,
        options: Vec<SelectOption>,
    ) -> (r: FieldId)
        ensures
            r.0 == old(self)@.fields.len(),
            final(self)@ == (ConfigView {
                fields: old(self)@.fields.push(
                    ConfigFieldView {
                        id: r,
                        table_id,
                        related_entity: opt_view(related_entity),
                        related_key: opt_view(related_key),
                        field_type_name: opt_view(field_type_name),
                        name: name@,
                        options: options_view(options@),
                    },
                ),
                ..old(self)@
            }),
    {
        let id = FieldId(self.fields.len());
        let ghost fv = ConfigFieldView {
            id,
            table_id,
            related_entity: opt_view(related_entity),
            related_key: opt_view(related_key),
            field_type_name: opt_view(field_type_name),
            name: name@,
            options: options_view(options@),
        };
        self.fields.push(
            ConfigField { id, name, table_id, field_type_name, related_entity, related_key, options },
        );
        proof {
            assert(self@.fields =~= old(self)@.fields.push(fv));
        }
        id
    }
}

/// The path with its last component taken off.
pub uninterp spec fn path_popped(p: Seq<char>) -> Seq<char>;

/// The path with `part` appended as a further component.
pub uninterp spec fn path_pushed(p: Seq<char>, part: Seq<char>) -> Seq<char>;

/// Calls `PathBuf::pop` on the path given as text, and gives the result back as
/// text. The contract names the result: it depends on the path alone.
#[verifier::external_body]
fn path_pop(p: &str) -> (r: String)
    ensures
        r@ == path_popped(p@),
{
    let mut buf = std::path::PathBuf::from(p);
    buf.pop();
    buf.to_string_lossy().into_owned()
}

/// Calls `PathBuf::push` on the path given as text, and gives the result back
/// as text. The contract names the result: it depends on the two texts alone.
#[verifier::external_body]
fn path_push(p: &str, part: &str) -> (r: String)
    ensures
        r@ == path_pushed(p@, part@),
{
    let mut buf = std::path::PathBuf::from(p);
    buf.push(part);
    buf.to_string_lossy().into_owned()
}

/// Why a configuration text was refused.
pub enum ConfigError {
    /// The text is not a KDL document.
    Syntax(kdl::KdlError),
    /// A node lacks its name, its first positional argument; the node is
    /// given as KDL writes it.
    MissingName(String),
    /// A node lacks a required property: the property's key, then the node as
    /// KDL writes it.
    MissingProperty(String, String),
}

pub enum ConfigErrorView {
    Syntax,
    MissingName(Seq<char>),
    MissingProperty(Seq<char>, Seq<char>),
}

impl View for ConfigError {
    type V = ConfigErrorView;

    open spec fn view(&self) -> ConfigErrorView {
        match self {
            ConfigError::Syntax(_) => ConfigErrorView::Syntax,
            ConfigError::MissingName(n) => ConfigErrorView::MissingName(n@),
            ConfigError::MissingProperty(k, n) => ConfigErrorView::MissingProperty(k@, n@),
        }
    }
}

/// A node's name (its first positional argument), or the error for its lack.
pub open spec fn required_name_spec(n: DocNodeView) -> Result<Seq<char>, ConfigErrorView> {
    match argument(n.entries, 0) {
        Some(v) => Ok(v),
        None => Err(ConfigErrorView::MissingName(n.text)),
    }
}

/// A node's property `key`, or the error for its lack.
pub open spec fn required_spec(n: DocNodeView, key: Seq<char>) -> Result<Seq<char>, ConfigErrorView> {
    match property(n.entries, key) {
        Some(v) => Ok(v),
        None => Err(ConfigErrorView::MissingProperty(key, n.text)),
    }
}

/// An `option` node adds a select option keyed by its name and labelled by its
/// `label` property; other nodes are skipped.
pub open spec fn option_step() -> spec_fn(Seq<SelectOptionView>, DocNodeView) -> Result<
    Seq<SelectOptionView>,
    ConfigErrorView,
> {
    |opts: Seq<SelectOptionView>, o: DocNodeView|
        if written_as(o, "option"@) {
            match required_name_spec(o) {
                Ok(k) => Ok(
                    opts.push(SelectOptionView { key: k, label: property(o.entries, "label"@) }),
                ),
                Err(e) => Err(e),
            }
        } else {
            Ok(opts)
        }
}

/// A `field` node adds a field to table `tid`: its options first, then its
/// name, type, related entity and related key; other nodes are skipped.
pub open spec fn field_step(tid: TableId) -> spec_fn(ConfigView, DocNodeView) -> Result<
    ConfigView,
    ConfigErrorView,
> {
    |cfg: ConfigView, f: DocNodeView|
        if written_as(f, "field"@) {
            match try_fold(Seq::<SelectOptionView>::empty(), f.children, option_step()) {
                Err(e) => Err(e),
                Ok(opts) => match required_name_spec(f) {
                    Err(e) => Err(e),
                    Ok(name) => Ok(
                        ConfigView {
                            fields: cfg.fields.push(
                                ConfigFieldView {
                                    id: FieldId(cfg.fields.len() as usize),
                                    table_id: tid,
                                    related_entity: property(f.entries, "related_entity"@),
                                    related_key: property(f.entries, "related_key"@),
                                    field_type_name: property(f.entries, "type"@),
                                    name,
                                    options: opts,
                                },
                            ),
                            ..cfg
                        },
                    ),
                },
            }
        } else {
            Ok(cfg)
        }
}

/// The table entry a `table` node adds: its file lies beside the configuration
/// file.
pub open spec fn table_entry(cfg: ConfigView, name: Seq<char>, file: Seq<char>) -> ConfigView {
    ConfigView {
        tables: cfg.tables.push(
            ConfigTableView {
                id: TableId(cfg.tables.len() as usize),
                name,
                source_file: path_pushed(path_popped(cfg.config_source), file),
            },
        ),
        ..cfg
    }
}

/// A `table` node adds a table (its `file` property first, then its name) and
/// then its fields; other nodes are skipped.
pub open spec fn table_step() -> spec_fn(ConfigView, DocNodeView) -> Result<ConfigView, ConfigErrorView> {
    |cfg: ConfigView, t: DocNodeView|
        if written_as(t, "table"@) {
            match required_spec(t, "file"@) {
                Err(e) => Err(e),
                Ok(file) => match required_name_spec(t) {
                    Err(e) => Err(e),
                    Ok(name) => try_fold(
                        table_entry(cfg, name, file),
                        t.children,
                        field_step(TableId(cfg.tables.len() as usize)),
                    ),
                },
            }
        } else {
            Ok(cfg)
        }
}

/// A `schema` node adds its tables; other top-level nodes are skipped.
pub open spec fn document_step() -> spec_fn(ConfigView, DocNodeView) -> Result<ConfigView, ConfigErrorView> {
    |cfg: ConfigView, n: DocNodeView|
        if written_as(n, "schema"@) {
            try_fold(cfg, n.children, table_step())
        } else {
            Ok(cfg)
        }
}

/// The configuration that the top-level nodes of a document describe, read
/// from a file at `source`.
pub open spec fn config_spec(nodes: Seq<DocNodeView>, source: Seq<char>) -> Result<ConfigView, ConfigErrorView> {
    try_fold(
        ConfigView { config_source: source, tables: Seq::empty(), fields: Seq::empty() },
        nodes,
        document_step(),
    )
}

impl ConfigView {
    /// Every table and field carries its position as its id, and every field
    /// belongs to a table that exists.
    pub open spec fn wf(self) -> bool {
        &&& forall|t: int| 0 <= t < self.tables.len() ==> (#[trigger] self.tables[t]).id == TableId(t as usize)
        &&& forall|f: int|
            0 <= f < self.fields.len() ==> (#[trigger] self.fields[f]).id == FieldId(f as usize)
                && self.fields[f].table_id.0 < self.tables.len()
    }
}

/// A well-formed configuration in which table `tid` exists.
pub open spec fn wf_with_table(tid: TableId) -> spec_fn(ConfigView) -> bool {
    |c: ConfigView| c.wf() && tid.0 < c.tables.len()
}

/// Well-formed configurations.
pub open spec fn config_wf() -> spec_fn(ConfigView) -> bool {
    |c: ConfigView| c.wf()
}

proof fn lemma_field_step_keeps_wf(tid: TableId)
    ensures
        forall|c: ConfigView, n: DocNodeView|
            wf_with_table(tid)(c) && (#[trigger] field_step(tid)(c, n)) is Ok ==> wf_with_table(tid)(
                field_step(tid)(c, n)->Ok_0,
            ),
{
}

proof fn lemma_table_step_keeps_wf()
    ensures
        forall|c: ConfigView, n: DocNodeView|
            config_wf()(c) && (#[trigger] table_step()(c, n)) is Ok ==> config_wf()(
                table_step()(c, n)->Ok_0,
            ),
{
    assert forall|c: ConfigView, n: DocNodeView|
        config_wf()(c) && (#[trigger] table_step()(c, n)) is Ok implies config_wf()(
            table_step()(c, n)->Ok_0,
        ) by {
        if written_as(n, "table"@) {
            if let Ok(file) = required_spec(n, "file"@) {
                if let Ok(name) = required_name_spec(n) {
                    let tid = TableId(c.tables.len() as usize);
                    let c1 = table_entry(c, name, file);
                    assert(wf_with_table(tid)(c1));
                    lemma_field_step_keeps_wf(tid);
                    lemma_try_fold_keeps(c1, n.children, field_step(tid), wf_with_table(tid));
                }
            }
        }
    }
}

proof fn lemma_document_step_keeps_wf()
    ensures
        forall|c: ConfigView, n: DocNodeView|
            config_wf()(c) && (#[trigger] document_step()(c, n)) is Ok ==> config_wf()(
                document_step()(c, n)->Ok_0,
            ),
{
    assert forall|c: ConfigView, n: DocNodeView|
        config_wf()(c) && (#[trigger] document_step()(c, n)) is Ok implies config_wf()(
            document_step()(c, n)->Ok_0,
        ) by {
        if written_as(n, "schema"@) {
            lemma_table_step_keeps_wf();
            lemma_try_fold_keeps(c, n.children, table_step(), config_wf());
        }
    }
}

/// A configuration read from any document gives each table and field its
/// position as its id and puts each field under a table that exists.
pub proof fn lemma_config_spec_wf(nodes: Seq<DocNodeView>, source: Seq<char>)
    ensures
        config_spec(nodes, source) matches Ok(c) ==> c.wf(),
{
    let init = ConfigView { config_source: source, tables: Seq::empty(), fields: Seq::empty() };
    lemma_document_step_keeps_wf();
    lemma_try_fold_keeps(init, nodes, document_step(), config_wf());
}

/// The nodes written as `name`, in order.
pub open spec fn written_nodes(nodes: Seq<DocNodeView>, name: Seq<char>) -> Seq<DocNodeView>
    decreases nodes.len(),
{
    if nodes.len() == 0 {
        Seq::empty()
    } else {
        written_nodes(nodes.drop_last(), name) + if written_as(nodes.last(), name) {
            seq![nodes.last()]
        } else {
            Seq::empty()
        }
    }
}

/// The `table` nodes under the top-level `schema` nodes, in document order.
pub open spec fn schema_tables(nodes: Seq<DocNodeView>) -> Seq<DocNodeView>
    decreases nodes.len(),
{
    if nodes.len() == 0 {
        Seq::empty()
    } else {
        schema_tables(nodes.drop_last()) + if written_as(nodes.last(), "schema"@) {
            written_nodes(nodes.last().children, "table"@)
        } else {
            Seq::empty()
        }
    }
}

/// The table a `table` node at position `k` becomes: its id is its position,
/// its name its first argument, and its file the `file` property taken beside
/// the configuration file `source`.
pub open spec fn table_of_node(k: int, t: DocNodeView, source: Seq<char>) -> ConfigTableView {
    ConfigTableView {
        id: TableId(k as usize),
        name: required_name_spec(t)->Ok_0,
        source_file: path_pushed(path_popped(source), required_spec(t, "file"@)->Ok_0),
    }
}

/// The tables the `table` nodes add after `before` tables.
pub open spec fn tables_of_nodes(before: nat, ts: Seq<DocNodeView>, source: Seq<char>) -> Seq<ConfigTableView> {
    Seq::new(ts.len(), |i: int| table_of_node(before + i, ts[i], source))
}

/// The tables and the configuration file's path.
pub open spec fn same_tables(tables: Seq<ConfigTableView>, source: Seq<char>) -> spec_fn(ConfigView) -> bool {
    |c: ConfigView| c.tables == tables && c.config_source == source
}

proof fn lemma_fields_keep_tables(c: ConfigView, kids: Seq<DocNodeView>, tid: TableId)
    ensures
        try_fold(c, kids, field_step(tid)) matches Ok(x) ==> x.tables == c.tables && x.config_source
            == c.config_source,
{
    let inv = same_tables(c.tables, c.config_source);
    assert forall|s: ConfigView, a: DocNodeView|
        inv(s) && (#[trigger] field_step(tid)(s, a)) is Ok implies inv(field_step(tid)(s, a)->Ok_0) by {}
    lemma_try_fold_keeps(c, kids, field_step(tid), inv);
}

proof fn lemma_table_fold_tables(c: ConfigView, kids: Seq<DocNodeView>)
    ensures
        try_fold(c, kids, table_step()) matches Ok(x) ==> x.config_source == c.config_source
            && x.tables == c.tables + tables_of_nodes(c.tables.len(), written_nodes(kids, "table"@), c.config_source),
    decreases kids.len(),
{
    if kids.len() > 0 {
        let prefix = kids.drop_last();
        let t = kids.last();
        lemma_table_fold_tables(c, prefix);
        if let Ok(y) = try_fold(c, prefix, table_step()) {
            let before = tables_of_nodes(c.tables.len(), written_nodes(prefix, "table"@), c.config_source);
            let all = tables_of_nodes(c.tables.len(), written_nodes(kids, "table"@), c.config_source);
            if written_as(t, "table"@) {
                if let Ok(file) = required_spec(t, "file"@) {
                    if let Ok(name) = required_name_spec(t) {
                        let tid = TableId(y.tables.len() as usize);
                        let y1 = table_entry(y, name, file);
                        lemma_fields_keep_tables(y1, t.children, tid);
                        assert(written_nodes(kids, "table"@) == written_nodes(prefix, "table"@).push(t));
                        assert(all =~= before.push(table_of_node((c.tables.len() + before.len()) as int, t, c.config_source)));
                        if let Ok(x) = try_fold(c, kids, table_step()) {
                            assert(x.tables =~= c.tables + all);
                        }
                    }
                }
            } else {
                assert(written_nodes(kids, "table"@) =~= written_nodes(prefix, "table"@));
            }
        }
    }
}

proof fn lemma_document_fold_tables(c: ConfigView, nodes: Seq<DocNodeView>)
    ensures
        try_fold(c, nodes, document_step()) matches Ok(x) ==> x.config_source == c.config_source
            && x.tables == c.tables + tables_of_nodes(c.tables.len(), schema_tables(nodes), c.config_source),
    decreases nodes.len(),
{
    if nodes.len() > 0 {
        let prefix = nodes.drop_last();
        let n = nodes.last();
        lemma_document_fold_tables(c, prefix);
        if let Ok(y) = try_fold(c, prefix, document_step()) {
            let before = tables_of_nodes(c.tables.len(), schema_tables(prefix), c.config_source);
            let all = tables_of_nodes(c.tables.len(), schema_tables(nodes), c.config_source);
            if written_as(n, "schema"@) {
                lemma_table_fold_tables(y, n.children);
                let added = tables_of_nodes(y.tables.len(), written_nodes(n.children, "table"@), c.config_source);
                assert(all =~= before + added);
                if let Ok(x) = try_fold(c, nodes, document_step()) {
                    assert(x.tables =~= c.tables + all);
                }
            } else {
                assert(schema_tables(nodes) =~= schema_tables(prefix));
                assert(all =~= before);
            }
        }
    }
}

/// A configuration read from a document keeps the path it was read from, and
/// has one table per `table` node under a top-level `schema` node, in document
/// order: its id is its position, its name the node's first argument, and its
/// file the node's `file` property taken beside the configuration file. Other
/// nodes add no table.
pub proof fn lemma_config_spec_tables(nodes: Seq<DocNodeView>, source: Seq<char>)
    ensures
        config_spec(nodes, source) matches Ok(c) ==> {
            &&& c.config_source == source
            &&& c.tables.len() == schema_tables(nodes).len()
            &&& forall|i: int|
                0 <= i < c.tables.len() ==> #[trigger] c.tables[i] == table_of_node(
                    i,
                    schema_tables(nodes)[i],
                    source,
                )
        },
{
    let init = ConfigView { config_source: source, tables: Seq::empty(), fields: Seq::empty() };
    lemma_document_fold_tables(init, nodes);
    if let Ok(c) = config_spec(nodes, source) {
        assert(c.tables =~= tables_of_nodes(0, schema_tables(nodes), source));
    }
}

/// The field a `field` node becomes as the `j`-th field, in table `tid`: its
/// name is its first argument, its type, related entity and related key are
/// its properties of those names, and its options come from its `option`
/// nodes.
pub open spec fn field_of_node(j: int, tid: TableId, f: DocNodeView) -> ConfigFieldView {
    ConfigFieldView {
        id: FieldId(j as usize),
        table_id: tid,
        related_entity: property(f.entries, "related_entity"@),
        related_key: property(f.entries, "related_key"@),
        field_type_name: property(f.entries, "type"@),
        name: required_name_spec(f)->Ok_0,
        options: try_fold(Seq::<SelectOptionView>::empty(), f.children, option_step())->Ok_0,
    }
}

/// The fields the `field` nodes of table `tid` add after `before` fields.
pub open spec fn fields_of_nodes(before: nat, tid: TableId, fs: Seq<DocNodeView>) -> Seq<ConfigFieldView> {
    Seq::new(fs.len(), |i: int| field_of_node(before + i, tid, fs[i]))
}

/// The fields the `table` nodes add, in order, after `first_table` tables and
/// `first_field` fields: the fields of each table's `field` nodes, in the
/// table at that table's position.
pub open spec fn fields_of_tables(first_table: nat, first_field: nat, ts: Seq<DocNodeView>) -> Seq<
    ConfigFieldView,
>
    decreases ts.len(),
{
    if ts.len() == 0 {
        Seq::empty()
    } else {
        let pre = fields_of_tables(first_table, first_field, ts.drop_last());
        pre + fields_of_nodes(
            first_field + pre.len(),
            TableId((first_table + ts.len() - 1) as usize),
            written_nodes(ts.last().children, "field"@),
        )
    }
}

proof fn lemma_field_fold_fields(c: ConfigView, kids: Seq<DocNodeView>, tid: TableId)
    ensures
        try_fold(c, kids, field_step(tid)) matches Ok(x) ==> x.fields == c.fields + fields_of_nodes(
            c.fields.len(),
            tid,
            written_nodes(kids, "field"@),
        ),
    decreases kids.len(),
{
    if kids.len() > 0 {
        let prefix = kids.drop_last();
        let f = kids.last();
        lemma_field_fold_fields(c, prefix, tid);
        if let Ok(y) = try_fold(c, prefix, field_step(tid)) {
            let before = fields_of_nodes(c.fields.len(), tid, written_nodes(prefix, "field"@));
            let all = fields_of_nodes(c.fields.len(), tid, written_nodes(kids, "field"@));
            if written_as(f, "field"@) {
                assert(written_nodes(kids, "field"@) == written_nodes(prefix, "field"@).push(f));
                assert(all =~= before.push(field_of_node((c.fields.len() + before.len()) as int, tid, f)));
                if let Ok(x) = try_fold(c, kids, field_step(tid)) {
                    assert(x.fields =~= c.fields + all);
                }
            } else {
                assert(written_nodes(kids, "field"@) =~= written_nodes(prefix, "field"@));
            }
        }
    }
}

proof fn lemma_fields_of_tables_append(a: nat, b: nat, s1: Seq<DocNodeView>, s2: Seq<DocNodeView>)
    ensures
        fields_of_tables(a, b, s1 + s2) == fields_of_tables(a, b, s1) + fields_of_tables(
            a + s1.len(),
            b + fields_of_tables(a, b, s1).len(),
            s2,
        ),
    decreases s2.len(),
{
    if s2.len() == 0 {
        assert(s1 + s2 =~= s1);
        assert(fields_of_tables(a, b, s1) + fields_of_tables(
            a + s1.len(),
            b + fields_of_tables(a, b, s1).len(),
            s2,
        ) =~= fields_of_tables(a, b, s1));
    } else {
        lemma_fields_of_tables_append(a, b, s1, s2.drop_last());
        assert((s1 + s2).drop_last() =~= s1 + s2.drop_last());
        assert((s1 + s2).last() == s2.last());
        let f1 = fields_of_tables(a, b, s1);
        assert(fields_of_tables(a, b, s1 + s2) =~= f1 + fields_of_tables(a + s1.len(), b + f1.len(), s2));
    }
}

proof fn lemma_table_fold_fields(c: ConfigView, kids: Seq<DocNodeView>)
    ensures
        try_fold(c, kids, table_step()) matches Ok(x) ==> x.fields == c.fields + fields_of_tables(
            c.tables.len(),
            c.fields.len(),
            written_nodes(kids, "table"@),
        ),
    decreases kids.len(),
{
    if kids.len() > 0 {
        let prefix = kids.drop_last();
        let t = kids.last();
        lemma_table_fold_fields(c, prefix);
        lemma_table_fold_tables(c, prefix);
        if let Ok(y) = try_fold(c, prefix, table_step()) {
            let pre_ts = written_nodes(prefix, "table"@);
            let before = fields_of_tables(c.tables.len(), c.fields.len(), pre_ts);
            if written_as(t, "table"@) {
                if let Ok(file) = required_spec(t, "file"@) {
                    if let Ok(name) = required_name_spec(t) {
                        let tid = TableId(y.tables.len() as usize);
                        let y1 = table_entry(y, name, file);
                        lemma_field_fold_fields(y1, t.children, tid);
                        let ts = written_nodes(kids, "table"@);
                        assert(ts == pre_ts.push(t));
                        assert(ts.drop_last() =~= pre_ts);
                        assert(y.tables.len() == c.tables.len() + pre_ts.len());
                        if let Ok(x) = try_fold(c, kids, table_step()) {
                            assert(x.fields =~= c.fields + fields_of_tables(c.tables.len(), c.fields.len(), ts));
                        }
                    }
                }
            } else {
                assert(written_nodes(kids, "table"@) =~= pre_ts);
            }
        }
    }
}

proof fn lemma_document_fold_fields(c: ConfigView, nodes: Seq<DocNodeView>)
    ensures
        try_fold(c, nodes, document_step()) matches Ok(x) ==> x.fields == c.fields + fields_of_tables(
            c.tables.len(),
            c.fields.len(),
            schema_tables(nodes),
        ),
    decreases nodes.len(),
{
    if nodes.len() > 0 {
        let prefix = nodes.drop_last();
        let n = nodes.last();
        lemma_document_fold_fields(c, prefix);
        lemma_document_fold_tables(c, prefix);
        if let Ok(y) = try_fold(c, prefix, document_step()) {
            let pre_ts = schema_tables(prefix);
            if written_as(n, "schema"@) {
                let ts = written_nodes(n.children, "table"@);
                lemma_table_fold_fields(y, n.children);
                lemma_fields_of_tables_append(c.tables.len(), c.fields.len(), pre_ts, ts);
                assert(schema_tables(nodes) == pre_ts + ts);
                assert(y.tables.len() == c.tables.len() + pre_ts.len());
                if let Ok(x) = try_fold(c, nodes, document_step()) {
                    assert(x.fields =~= c.fields + fields_of_tables(c.tables.len(), c.fields.len(), schema_tables(nodes)));
                }
            } else {
                assert(schema_tables(nodes) =~= pre_ts);
            }
        }
    }
}

/// A configuration read from a document has one field per `field` node under
/// a table of its tables (see `lemma_config_spec_tables`), in document order:
/// its id is its position, its table the enclosing table, its name the
/// node's first argument, its type, related entity and related key the node's
/// properties of those names, and its options the node's `option` nodes.
pub proof fn lemma_config_spec_fields(nodes: Seq<DocNodeView>, source: Seq<char>)
    ensures
        config_spec(nodes, source) matches Ok(c) ==> c.fields == fields_of_tables(0, 0, schema_tables(nodes)),
{
    let init = ConfigView { config_source: source, tables: Seq::empty(), fields: Seq::empty() };
    lemma_document_fold_fields(init, nodes);
    if let Ok(c) = config_spec(nodes, source) {
        assert(c.fields =~= fields_of_tables(0, 0, schema_tables(nodes)));
    }
}

impl DocNode {
    /// The node's first positional argument, required.
    pub fn required_name(&self) -> (r: Result<String, ConfigError>)
        ensures
            match required_name_spec(self@) {
                Ok(v) => r matches Ok(s) && s@ == v,
                Err(e) => r matches Err(err) && err@ == e,
            },
    {
        match self.first_argument() {
            Some(v) => Ok(v.clone()),
            None => Err(ConfigError::MissingName(self.text.clone())),
        }
    }

    /// The node's property `key`, required.
    pub fn required(&self, key: &str) -> (r: Result<String, ConfigError>)
        ensures
            match required_spec(self@, key@) {
                Ok(v) => r matches Ok(s) && s@ == v,
                Err(e) => r matches Err(err) && err@ == e,
            },
    {
        match self.property(key) {
            Some(v) => Ok(v.clone()),
            None => Err(ConfigError::MissingProperty(String::from_str(key), self.text.clone())),
        }
    }

    /// The node's property `key`, if it has one.
    pub fn optional(&self, key: &str) -> (r: Option<String>)
        ensures
            opt_view(r) == property(self@.entries, key@),
    {
        match self.property(key) {
            Some(v) => Some(v.clone()),
            None => None,
        }
    }
}

/// The select options under a field node.
fn parse_options(f: &DocNode) -> (r: Result<Vec<SelectOption>, ConfigError>)
    ensures
        match try_fold(Seq::<SelectOptionView>::empty(), f@.children, option_step()) {
            Ok(o) => r matches Ok(v) && options_view(v@) == o,
            Err(e) => r matches Err(err) && err@ == e,
        },
{
    let ghost init = Seq::<SelectOptionView>::empty();
    let ghost kids = f@.children;
    proof { lemma_nodes_view(f.children@); }
    let mut options: Vec<SelectOption> = Vec::new();
    proof {
        assert(kids.take(0) =~= Seq::<DocNodeView>::empty());
        assert(options_view(options@) =~= init);
    }
    let mut i: usize = 0;
    while i < f.children.len()
        invariant
            i <= kids.len(),
            kids == nodes_view(f.children@),
            kids.len() == f.children@.len(),
            init == Seq::<SelectOptionView>::empty(),
            try_fold(init, kids.take(i as int), option_step()) == Ok::<
                Seq<SelectOptionView>,
                ConfigErrorView,
            >(options_view(options@)),
        decreases kids.len() - i,
    {
        proof {
            lemma_try_fold_next(init, kids, option_step(), i as int);
            lemma_nodes_view(f.children@);
        }
        let opt = &f.children[i];
        if opt.is_written_as("option") {
            let key = match opt.required_name() {
                Ok(k) => k,
                Err(e) => {
                    proof {
                        assert((option_step())(options_view(options@), opt@) == Err::<Seq<SelectOptionView>, ConfigErrorView>(e@));
                        assert(try_fold(init, kids.take(i + 1), option_step()) == Err::<Seq<SelectOptionView>, ConfigErrorView>(e@));
                        lemma_try_fold_err(init, kids, option_step(), i + 1);
                        assert(try_fold(init, kids, option_step()) == Err::<Seq<SelectOptionView>, ConfigErrorView>(e@));
                    }
                    return Err(e);
                },
            };
            let label = opt.optional("label");
            let ghost before = options@;
            let o = SelectOption { key, label };
            options.push(o);
            proof {
                assert(options_view(options@) =~= options_view(before).push(o@));
            }
        }
        i = i + 1;
    }
    proof { lemma_try_fold_all(init, kids, option_step()); }
    Ok(options)
}

/// Adds the field that a child node of a table describes, if it is a field node.
fn parse_field(state: &mut Config, table_id: TableId, f: &DocNode) -> (r: Result<(), ConfigError>)
    ensures
        match (field_step(table_id))(old(state)@, f@) {
            Ok(c) => r is Ok && final(state)@ == c,
            Err(e) => r matches Err(err) && err@ == e,
        },
{
    if f.is_written_as("field") {
        let options = match parse_options(f) {
            Ok(o) => o,
            Err(e) => { return Err(e); },
        };
        let name = match f.required_name() {
            Ok(n) => n,
            Err(e) => { return Err(e); },
        };
        state.add_field(
            table_id,
            name,
            f.optional("type"),
            f.optional("related_entity"),
            f.optional("related_key"),
            options,
        );
    }
    Ok(())
}

/// Adds the table that a child node of a schema node describes, with its fields.
fn parse_table(state: &mut Config, t: &DocNode) -> (r: Result<(), ConfigError>)
    ensures
        match (table_step())(old(state)@, t@) {
            Ok(c) => r is Ok && final(state)@ == c,
            Err(e) => r matches Err(err) && err@ == e,
        },
{
    if t.is_written_as("table") {
        let file = match t.required("file") {
            Ok(f) => f,
            Err(e) => { return Err(e); },
        };
        let dir = path_pop(state.config_source.as_str());
        let path = path_push(dir.as_str(), file.as_str());
        let name = match t.required_name() {
            Ok(n) => n,
            Err(e) => { return Err(e); },
        };
        let ghost start = state@;
        let ghost name_v = name@;
        let table_id = state.add_table(name, path);
        let ghost init = state@;
        proof {
            assert(start == old(state)@);
            assert(init =~= table_entry(old(state)@, name@, file@));
        }
        let ghost kids = t@.children;
        proof {
            lemma_nodes_view(t.children@);
            assert(kids.take(0) =~= Seq::<DocNodeView>::empty());
        }
        let mut i: usize = 0;
        while i < t.children.len()
            invariant
                i <= kids.len(),
                kids == nodes_view(t.children@),
                kids.len() == t.children@.len(),
                table_id == TableId(start.tables.len() as usize),
                start == old(state)@,
                init == table_entry(start, name_v, file@),
                written_as(t@, "table"@),
                required_spec(t@, "file"@) == Ok::<Seq<char>, ConfigErrorView>(file@),
                required_name_spec(t@) == Ok::<Seq<char>, ConfigErrorView>(name_v),
                try_fold(init, kids.take(i as int), field_step(table_id)) == Ok::<
                    ConfigView,
                    ConfigErrorView,
                >(state@),
            decreases kids.len() - i,
        {
            proof {
                lemma_try_fold_next(init, kids, field_step(table_id), i as int);
                lemma_nodes_view(t.children@);
            }
            match parse_field(state, table_id, &t.children[i]) {
                Ok(()) => {},
                Err(e) => {
                    proof {
                        assert(try_fold(init, kids.take(i + 1), field_step(table_id)) == Err::<ConfigView, ConfigErrorView>(e@));
                        lemma_try_fold_err(init, kids, field_step(table_id), i + 1);
                        assert(try_fold(init, kids, field_step(table_id)) == Err::<ConfigView, ConfigErrorView>(e@));
                    }
                    return Err(e);
                },
            }
            i = i + 1;
        }
        proof { lemma_try_fold_all(init, kids, field_step(table_id)); }
    }
    Ok(())
}

/// Adds the tables under a schema node.
fn parse_schema(state: &mut Config, n: &DocNode) -> (r: Result<(), ConfigError>)
    ensures
        match (document_step())(old(state)@, n@) {
            Ok(c) => r is Ok && final(state)@ == c,
            Err(e) => r matches Err(err) && err@ == e,
        },
{
    if n.is_written_as("schema") {
        let ghost init = state@;
        let ghost kids = n@.children;
        proof {
            lemma_nodes_view(n.children@);
            assert(kids.take(0) =~= Seq::<DocNodeView>::empty());
        }
        let mut i: usize = 0;
        while i < n.children.len()
            invariant
                i <= kids.len(),
                kids == nodes_view(n.children@),
                kids.len() == n.children@.len(),
                init == old(state)@,
                written_as(n@, "schema"@),
                try_fold(init, kids.take(i as int), table_step()) == Ok::<
                    ConfigView,
                    ConfigErrorView,
                >(state@),
            decreases kids.len() - i,
        {
            proof {
                lemma_try_fold_next(init, kids, table_step(), i as int);
                lemma_nodes_view(n.children@);
            }
            match parse_table(state, &n.children[i]) {
                Ok(()) => {},
                Err(e) => {
                    proof { lemma_try_fold_err(init, kids, table_step(), i + 1); }
                    return Err(e);
                },
            }
            i = i + 1;
        }
        proof { lemma_try_fold_all(init, kids, table_step()); }
    }
    Ok(())
}

impl Config {
    /// Reads a configuration from KDL text that was loaded from `source`.
    ///
    /// Every `table` node under a top-level `schema` node adds a table, named by
    /// its first argument and stored in the file its `file` property names,
    /// beside the configuration file; every `field` node under a table adds a
    /// field with its `type`, `related_entity` and `related_key` properties and
    /// the `option` nodes under it. The first missing name or `file` property,
    /// in document order, is the error.
    pub fn parse_from_str(content: &str, source: &str) -> (r: Result<Config, ConfigError>)
        ensures
            match kdl_document(content@) {
                None => r matches Err(e) && e@ == ConfigErrorView::Syntax,
                Some(nodes) => match config_spec(nodes, source@) {
                    Ok(c) => r matches Ok(cfg) && cfg@ == c,
                    Err(e) => r matches Err(err) && err@ == e,
                },
            },
            r matches Ok(cfg) ==> cfg@.wf(),
    {
        let nodes = match parse_document(content) {
            Ok(n) => n,
            Err(e) => { return Err(ConfigError::Syntax(e)); },
        };
        Config::from_nodes(&nodes, source)
    }

    /// Reads a configuration from the top-level nodes of a KDL document that
    /// was loaded from `source` (see `parse_from_str`).
    pub fn from_nodes(nodes: &Vec<DocNode>, source: &str) -> (r: Result<Config, ConfigError>)
        ensures
            match config_spec(nodes_view(nodes@), source@) {
                Ok(c) => r matches Ok(cfg) && cfg@ == c,
                Err(e) => r matches Err(err) && err@ == e,
            },
            r matches Ok(cfg) ==> cfg@.wf(),
    {
        let ghost views = nodes_view(nodes@);
        proof { lemma_nodes_view(nodes@); }
        let mut state = Config::default();
        state.config_source = String::from_str(source);
        let ghost init = state@;
        proof {
            assert(init.tables =~= Seq::<ConfigTableView>::empty());
            assert(init.fields =~= Seq::<ConfigFieldView>::empty());
            assert(init =~= ConfigView { config_source: source@, tables: Seq::empty(), fields: Seq::empty() });
            assert(views.take(0) =~= Seq::<DocNodeView>::empty());
        }
        let mut i: usize = 0;
        while i < nodes.len()
            invariant
                i <= views.len(),
                views == nodes_view(nodes@),
                views.len() == nodes@.len(),
                init == (ConfigView { config_source: source@, tables: Seq::empty(), fields: Seq::empty() }),
                try_fold(init, views.take(i as int), document_step()) == Ok::<
                    ConfigView,
                    ConfigErrorView,
                >(state@),
            decreases views.len() - i,
        {
            proof {
                lemma_try_fold_next(init, views, document_step(), i as int);
                lemma_nodes_view(nodes@);
            }
            match parse_schema(&mut state, &nodes[i]) {
                Ok(()) => {},
                Err(e) => {
                    proof { lemma_try_fold_err(init, views, document_step(), i + 1); }
                    return Err(e);
                },
            }
            i = i + 1;
        }
        proof {
            lemma_try_fold_all(init, views, document_step());
            lemma_config_spec_wf(views, source@);
        }
        Ok(state)
    }
}

} // verus!
