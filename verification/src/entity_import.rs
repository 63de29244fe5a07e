use vstd::prelude::*;
use crate::kdl_doc::{DocEntry, DocEntryView, DocNode, DocNodeView, kdl_document, lemma_nodes_view, nodes_view, parse_document};
use crate::strings::{join, join_spec, string_views, decimal, signed_decimal};
use crate::db::placeholders;

verus! {

/// A record named in a node: its table (the entity type) and its id.
pub struct EntityId {
    pub entity_type: String,
    pub entity_id: String,
}

impl Clone for EntityId {
    fn clone(&self) -> (r: Self)
        ensures
            r.entity_type@ == self.entity_type@,
            r.entity_id@ == self.entity_id@,
    {
        EntityId { entity_type: self.entity_type.clone(), entity_id: self.entity_id.clone() }
    }
}

/// How a node names its record: `.type.id` gives the id, `.type` leaves it to
/// be numbered.
pub enum EntityDefinition {
    WithId(EntityId),
    AutoId(String),
}

/// A node name that is not an entity definition.
#[derive(Debug, PartialEq, Eq, Structural)]
pub struct ParseFailure;

/// The counter that numbers records defined without an id.
pub struct State(pub i32);

/// An ASCII letter or digit.
pub open spec fn is_alnum(c: char) -> bool {
    ('0' <= c && c <= '9') || ('a' <= c && c <= 'z') || ('A' <= c && c <= 'Z')
}

/// The number of ASCII letters and digits at the start of `s`.
pub open spec fn alnum_run(s: Seq<char>) -> nat
    decreases s.len(),
{
    if s.len() > 0 && is_alnum(s[0]) {
        1 + alnum_run(s.drop_first())
    } else {
        0
    }
}

/// `type.id` at the start of `s`: the rest of the text, the type and the id.
pub open spec fn with_id_spec(s: Seq<char>) -> Option<(Seq<char>, Seq<char>, Seq<char>)> {
    let n1 = alnum_run(s) as int;
    if n1 > 0 && s.len() > n1 && s[n1] == '.' && alnum_run(s.skip(n1 + 1)) > 0 {
        let n2 = alnum_run(s.skip(n1 + 1)) as int;
        Some((s.skip(n1 + 1 + n2), s.take(n1), s.skip(n1 + 1).take(n2)))
    } else {
        None
    }
}

/// `type` at the start of `s`: the rest of the text and the type.
pub open spec fn auto_id_spec(s: Seq<char>) -> Option<(Seq<char>, Seq<char>)> {
    let n1 = alnum_run(s);
    if n1 > 0 {
        Some((s.skip(n1 as int), s.take(n1 as int)))
    } else {
        None
    }
}

fn is_alnum_char(c: char) -> (r: bool)
    ensures
        r == is_alnum(c),
{
    ('0' <= c && c <= '9') || ('a' <= c && c <= 'z') || ('A' <= c && c <= 'Z')
}

proof fn lemma_alnum_run_prefix(s: Seq<char>, i: int)
    requires
        0 <= i <= s.len(),
        forall|j: int| 0 <= j < i ==> is_alnum(#[trigger] s[j]),
    ensures
        alnum_run(s) == i + alnum_run(s.skip(i)),
    decreases i,
{
    if i > 0 {
        lemma_alnum_run_prefix(s.drop_first(), i - 1);
        assert(s.drop_first().skip(i - 1) =~= s.skip(i));
    } else {
        assert(s.skip(0) =~= s);
    }
}

proof fn lemma_alnum_run_bound(s: Seq<char>)
    ensures
        alnum_run(s) <= s.len(),
        forall|j: int| 0 <= j < alnum_run(s) ==> is_alnum(#[trigger] s[j]),
        alnum_run(s) < s.len() ==> !is_alnum(s[alnum_run(s) as int]),
    decreases s.len(),
{
    if s.len() > 0 && is_alnum(s[0]) {
        lemma_alnum_run_bound(s.drop_first());
        assert forall|j: int| 0 <= j < alnum_run(s) implies is_alnum(#[trigger] s[j]) by {
            if j > 0 {
                assert(s[j] == s.drop_first()[j - 1]);
            }
        }
    }
}

/// The number of ASCII letters and digits at the start of `s[from..]`.
fn alnum_run_from(s: &str, from: usize) -> (r: usize)
    requires
        from <= s@.len(),
    ensures
        r == alnum_run(s@.skip(from as int)),
        from + r <= s@.len(),
{
    let len = s.unicode_len();
    let mut i = from;
    while i < len && is_alnum_char(s.get_char(i))
        invariant
            from <= i <= len,
            len == s@.len(),
            forall|j: int| from <= j < i ==> is_alnum(#[trigger] s@[j]),
        decreases len - i,
    {
        i = i + 1;
    }
    proof {
        let t = s@.skip(from as int);
        assert forall|j: int| 0 <= j < i - from implies is_alnum(#[trigger] t[j]) by {
            assert(t[j] == s@[from + j]);
        }
        lemma_alnum_run_prefix(t, i - from);
        assert(t.skip(i - from) =~= s@.skip(i as int));
        if i < len {
            assert(s@.skip(i as int)[0] == s@[i as int]);
        }
        assert(alnum_run(s@.skip(i as int)) == 0);
    }
    i - from
}

impl EntityId {
    /// Parses `type.id` at the start of the text; gives back the rest of the text.
    pub fn parse(input: &str) -> (r: Result<(&str, EntityId), ParseFailure>)
        ensures
            match with_id_spec(input@) {
                Some((rest, t, id)) => r matches Ok((rr, e)) && rr@ == rest && e.entity_type@ == t
                    && e.entity_id@ == id,
                None => r is Err,
            },
    {
        let len = input.unicode_len();
        let n1 = alnum_run_from(input, 0);
        proof { assert(input@.skip(0) =~= input@); }
        if n1 == 0 || n1 >= len || input.get_char(n1) != '.' {
            return Err(ParseFailure);
        }
        let n2 = alnum_run_from(input, n1 + 1);
        if n2 == 0 {
            return Err(ParseFailure);
        }
        let rest = input.substring_char(n1 + 1 + n2, len);
        let entity_type = String::from_str(input.substring_char(0, n1));
        let entity_id = String::from_str(input.substring_char(n1 + 1, n1 + 1 + n2));
        proof {
            assert(input@.skip(n1 + 1 + n2) =~= input@.subrange((n1 + 1 + n2) as int, len as int));
            assert(input@.take(n1 as int) =~= input@.subrange(0, n1 as int));
            assert(input@.skip(n1 + 1).take(n2 as int) =~= input@.subrange((n1 + 1) as int, (n1 + 1 + n2) as int));
        }
        Ok((rest, EntityId { entity_type, entity_id }))
    }
}

impl EntityDefinition {
    /// Parses `type` at the start of the text.
    pub fn parse_auto_id(input: &str) -> (r: Result<(&str, EntityDefinition), ParseFailure>)
        ensures
            match auto_id_spec(input@) {
                Some((rest, t)) => r matches Ok((rr, EntityDefinition::AutoId(ty))) && rr@ == rest
                    && ty@ == t,
                None => r is Err,
            },
    {
        let len = input.unicode_len();
        let n1 = alnum_run_from(input, 0);
        proof { assert(input@.skip(0) =~= input@); }
        if n1 == 0 {
            return Err(ParseFailure);
        }
        let rest = input.substring_char(n1, len);
        let ty = String::from_str(input.substring_char(0, n1));
        proof {
            assert(input@.skip(n1 as int) =~= input@.subrange(n1 as int, len as int));
            assert(input@.take(n1 as int) =~= input@.subrange(0, n1 as int));
        }
        Ok((rest, EntityDefinition::AutoId(ty)))
    }

    /// Parses `type.id` at the start of the text.
    pub fn parse_with_id(input: &str) -> (r: Result<(&str, EntityDefinition), ParseFailure>)
        ensures
            match with_id_spec(input@) {
                Some((rest, t, id)) => r matches Ok((rr, EntityDefinition::WithId(e))) && rr@ == rest
                    && e.entity_type@ == t && e.entity_id@ == id,
                None => r is Err,
            },
    {
        match EntityId::parse(input) {
            Ok((rest, id)) => Ok((rest, EntityDefinition::WithId(id))),
            Err(e) => Err(e),
        }
    }

    /// Parses a node name: a `.` and then `type.id`, or failing that `type`.
    pub fn parse(input: &str) -> (r: Result<(&str, EntityDefinition), ParseFailure>)
        ensures
            input@.len() > 0 && input@[0] == '.' ==> match with_id_spec(input@.skip(1)) {
                Some((rest, t, id)) => r matches Ok((rr, EntityDefinition::WithId(e))) && rr@ == rest
                    && e.entity_type@ == t && e.entity_id@ == id,
                None => match auto_id_spec(input@.skip(1)) {
                    Some((rest, t)) => r matches Ok((rr, EntityDefinition::AutoId(ty))) && rr@
                        == rest && ty@ == t,
                    None => r is Err,
                },
            },
            !(input@.len() > 0 && input@[0] == '.') ==> r is Err,
    {
        let len = input.unicode_len();
        if len == 0 || input.get_char(0) != '.' {
            return Err(ParseFailure);
        }
        let after = input.substring_char(1, len);
        proof {
            assert(after@ =~= input@.skip(1));
        }
        match EntityDefinition::parse_with_id(after) {
            Ok(r) => Ok(r),
            Err(_) => EntityDefinition::parse_auto_id(after),
        }
    }

    /// The table the record goes into.
    pub fn entity_type(&self) -> (r: &str)
        ensures
            r@ == match self {
                EntityDefinition::WithId(eid) => eid.entity_type@,
                EntityDefinition::AutoId(etype) => etype@,
            },
    {
        match self {
            EntityDefinition::WithId(eid) => eid.entity_type.as_str(),
            EntityDefinition::AutoId(etype) => etype.as_str(),
        }
    }
}

/// The record a node describes, ready to insert.
pub struct EntityRow {
    /// The record's id, which its child nodes refer to.
    pub id: EntityId,
    pub columns: Vec<String>,
    pub values: Vec<String>,
    /// The `INSERT` statement, with one placeholder per value.
    pub query: String,
}

/// The title: the node's positional values separated by single spaces, a
/// space being put only after a non-empty title.
pub open spec fn title_spec(entries: Seq<DocEntryView>) -> Seq<char>
    decreases entries.len(),
{
    if entries.len() == 0 {
        Seq::empty()
    } else {
        let t = title_spec(entries.drop_last());
        if entries.last().name is None {
            (if t.len() > 0 { t.push(' ') } else { t }) + entries.last().value
        } else {
            t
        }
    }
}

/// The named entries of a node, each as the pair of its name as KDL writes it
/// and its value.
pub open spec fn named_columns(entries: Seq<DocEntryView>) -> Seq<(Seq<char>, Seq<char>)>
    decreases entries.len(),
{
    if entries.len() == 0 {
        Seq::empty()
    } else {
        let c = named_columns(entries.drop_last());
        match entries.last().name {
            Some(n) => c.push((n.text, entries.last().value)),
            None => c,
        }
    }
}

/// The columns of a record: its id, the reference to its parent, its named
/// entries and its title when it has one.
pub open spec fn row_columns(
    id: Seq<char>,
    parent: Option<(Seq<char>, Seq<char>)>,
    entries: Seq<DocEntryView>,
) -> Seq<(Seq<char>, Seq<char>)> {
    let base = seq![("id"@, id)] + match parent {
        Some((ptype, pid)) => seq![(ptype + "_id"@, pid)],
        None => Seq::empty(),
    } + named_columns(entries);
    if title_spec(entries).len() > 0 {
        base.push(("title"@, title_spec(entries)))
    } else {
        base
    }
}

/// The `INSERT` statement for a record with these columns.
pub open spec fn insert_sql_spec(table: Seq<char>, columns: Seq<Seq<char>>) -> Seq<char> {
    "INSERT INTO "@ + table + " ("@ + join_spec(columns, ","@) + ") VALUES ("@ + join_spec(
        placeholders(columns.len()),
        ","@,
    ) + ")"@
}

fn push_column(
    columns: &mut Vec<String>,
    values: &mut Vec<String>,
    name: String,
    value: String,
)
    requires
        old(columns)@.len() == old(values)@.len(),
    ensures
        final(columns)@ == old(columns)@.push(name),
        final(values)@ == old(values)@.push(value),
{
    columns.push(name);
    values.push(value);
}

/// What a node name defines: whether the id is left to the counter, the
/// entity type and the given id (empty when left to the counter).
pub open spec fn entity_definition_spec(s: Seq<char>) -> Option<(bool, Seq<char>, Seq<char>)> {
    if s.len() > 0 && s[0] == '.' {
        match with_id_spec(s.skip(1)) {
            Some((_, t, id)) => Some((false, t, id)),
            None => match auto_id_spec(s.skip(1)) {
                Some((_, t)) => Some((true, t, Seq::empty())),
                None => None,
            },
        }
    } else {
        None
    }
}

/// A record ready to insert, as values.
pub struct RowView {
    pub entity_type: Seq<char>,
    pub entity_id: Seq<char>,
    pub columns: Seq<Seq<char>>,
    pub values: Seq<Seq<char>>,
    pub query: Seq<char>,
}

impl View for EntityRow {
    type V = RowView;

    open spec fn view(&self) -> RowView {
        RowView {
            entity_type: self.id.entity_type@,
            entity_id: self.id.entity_id@,
            columns: string_views(self.columns@),
            values: string_views(self.values@),
            query: self.query@,
        }
    }
}

/// The record a node defines under `parent`, with the counter after it; none
/// when the node's name is not an entity definition. A record without an id
/// gets `auto-` and the counter's value, and advances the counter by one.
pub open spec fn entity_row_spec(
    counter: int,
    parent: Option<(Seq<char>, Seq<char>)>,
    n: DocNodeView,
) -> Option<(RowView, int)> {
    match entity_definition_spec(n.name) {
        None => None,
        Some((auto, t, id)) => {
            let rid = if auto { "auto-"@ + decimal(counter) } else { id };
            let cols = row_columns(rid, parent, n.entries);
            let names = cols.map_values(|c: (Seq<char>, Seq<char>)| c.0);
            Some(
                (
                    RowView {
                        entity_type: t,
                        entity_id: rid,
                        columns: names,
                        values: cols.map_values(|c: (Seq<char>, Seq<char>)| c.1),
                        query: insert_sql_spec(t, names),
                    },
                    if auto { counter + 1 } else { counter },
                ),
            )
        },
    }
}

/// The view of an optional parent record.
pub open spec fn parent_view(belongs_to: Option<&EntityId>) -> Option<(Seq<char>, Seq<char>)> {
    match belongs_to {
        Some(b) => Some((b.entity_type@, b.entity_id@)),
        None => None,
    }
}

proof fn lemma_title_next(entries: Seq<DocEntryView>, i: int)
    requires
        0 <= i < entries.len(),
    ensures
        title_spec(entries.take(i + 1)) == if entries[i].name is None {
            (if title_spec(entries.take(i)).len() > 0 {
                title_spec(entries.take(i)).push(' ')
            } else {
                title_spec(entries.take(i))
            }) + entries[i].value
        } else {
            title_spec(entries.take(i))
        },
        named_columns(entries.take(i + 1)) == match entries[i].name {
            Some(n) => named_columns(entries.take(i)).push((n.text, entries[i].value)),
            None => named_columns(entries.take(i)),
        },
{
    assert(entries.take(i + 1).drop_last() =~= entries.take(i));
}

/// The record that a node defines, given the record it sits under; `None`
/// when the node's name is not an entity definition. A record without an id
/// is given `auto-` and the counter's value, and advances the counter.
pub fn entity_row(state: &mut State, belongs_to: Option<&EntityId>, node: &DocNode) -> (r: Option<EntityRow>)
    requires
        entity_definition_spec(node@.name) matches Some((auto, _, _)) && auto ==> old(state).0 < i32::MAX,
    ensures
        match entity_row_spec(old(state).0 as int, parent_view(belongs_to), node@) {
            None => r is None && final(state).0 == old(state).0,
            Some((row, counter)) => r matches Some(x) && x@ == row && final(state).0 == counter,
        },
{
    let def = match EntityDefinition::parse(node.name.as_str()) {
        Ok((_, d)) => d,
        Err(_) => { return None; },
    };
    let id = match &def {
        EntityDefinition::WithId(eid) => eid.clone(),
        EntityDefinition::AutoId(etype) => {
            let n = signed_decimal(state.0 as i64);
            let mut s = String::from_str("auto-");
            s.append(n.as_str());
            state.0 = state.0 + 1;
            EntityId { entity_type: etype.clone(), entity_id: s }
        },
    };
    let ghost parent = parent_view(belongs_to);
    let ghost es = node@.entries;
    let mut columns: Vec<String> = Vec::new();
    let mut values: Vec<String> = Vec::new();
    push_column(&mut columns, &mut values, String::from_str("id"), id.entity_id.clone());
    match belongs_to {
        Some(b) => {
            let mut c = b.entity_type.clone();
            c.append("_id");
            push_column(&mut columns, &mut values, c, b.entity_id.clone());
        },
        None => {},
    }
    let ghost base_cols = seq![("id"@, id.entity_id@)] + match parent {
        Some((ptype, pid)) => seq![(ptype + "_id"@, pid)],
        None => Seq::<(Seq<char>, Seq<char>)>::empty(),
    };
    proof {
        assert(string_views(columns@) =~= base_cols.map_values(|c: (Seq<char>, Seq<char>)| c.0));
        assert(string_views(values@) =~= base_cols.map_values(|c: (Seq<char>, Seq<char>)| c.1));
        assert(es.take(0) =~= Seq::<DocEntryView>::empty());
    }
    let mut title = String::new();
    let mut i: usize = 0;
    while i < node.entries.len()
        invariant
            i <= node.entries@.len(),
            es == node.entries@.map_values(|e: DocEntry| e@),
            columns@.len() == values@.len(),
            title@ == title_spec(es.take(i as int)),
            string_views(columns@) == (base_cols + named_columns(es.take(i as int))).map_values(
                |c: (Seq<char>, Seq<char>)| c.0,
            ),
            string_views(values@) == (base_cols + named_columns(es.take(i as int))).map_values(
                |c: (Seq<char>, Seq<char>)| c.1,
            ),
        decreases node.entries@.len() - i,
    {
        proof { lemma_title_next(es, i as int); }
        let entry = &node.entries[i];
        let ghost cols_before = columns@;
        let ghost vals_before = values@;
        match &entry.name {
            Some(n) => {
                let cn = n.text.clone();
                let cv = entry.value.clone();
                push_column(&mut columns, &mut values, cn, cv);
                proof {
                    let oc = base_cols + named_columns(es.take(i as int));
                    let nc = base_cols + named_columns(es.take(i + 1));
                    assert(nc =~= oc.push((n.text@, entry.value@)));
                    assert(string_views(columns@) =~= string_views(cols_before).push(cn@));
                    assert(string_views(values@) =~= string_views(vals_before).push(cv@));
                    assert(nc.map_values(|c: (Seq<char>, Seq<char>)| c.0) =~= oc.map_values(|c: (Seq<char>, Seq<char>)| c.0).push(cn@));
                    assert(nc.map_values(|c: (Seq<char>, Seq<char>)| c.1) =~= oc.map_values(|c: (Seq<char>, Seq<char>)| c.1).push(cv@));
                    assert(string_views(columns@) =~= nc.map_values(|c: (Seq<char>, Seq<char>)| c.0));
                    assert(string_views(values@) =~= nc.map_values(|c: (Seq<char>, Seq<char>)| c.1));
                }
            },
            None => {
                let ghost t0 = title@;
                if !title.as_str().is_empty() {
                    title.append(" ");
                    proof {
                        reveal_strlit(" ");
                        assert(title@ =~= t0.push(' '));
                    }
                }
                title.append(entry.value.as_str());
                proof {
                    assert(named_columns(es.take(i + 1)) == named_columns(es.take(i as int)));
                }
            },
        }
        i = i + 1;
    }
    proof {
        assert(es.take(node.entries@.len() as int) =~= es);
    }
    if !title.as_str().is_empty() {
        let ghost t = title@;
        let ghost cols_before = columns@;
        let ghost vals_before = values@;
        let tk = String::from_str("title");
        push_column(&mut columns, &mut values, tk, title);
        proof {
            let oc = base_cols + named_columns(es);
            let all = oc.push(("title"@, t));
            assert(string_views(columns@) =~= string_views(cols_before).push(tk@));
            assert(string_views(values@) =~= string_views(vals_before).push(t));
            assert(all.map_values(|c: (Seq<char>, Seq<char>)| c.0) =~= oc.map_values(|c: (Seq<char>, Seq<char>)| c.0).push("title"@));
            assert(all.map_values(|c: (Seq<char>, Seq<char>)| c.1) =~= oc.map_values(|c: (Seq<char>, Seq<char>)| c.1).push(t));
            assert(string_views(columns@) =~= all.map_values(|c: (Seq<char>, Seq<char>)| c.0));
            assert(string_views(values@) =~= all.map_values(|c: (Seq<char>, Seq<char>)| c.1));
        }
    }
    let mut marks: Vec<String> = Vec::with_capacity(columns.len());
    let mut k: usize = 0;
    while k < columns.len()
        invariant
            k <= columns@.len(),
            string_views(marks@) =~= placeholders(columns@.len() as nat).take(k as int),
        decreases columns@.len() - k,
    {
        let q = String::from_str("?");
        let ghost before = marks@;
        marks.push(q);
        proof {
            assert(string_views(marks@) =~= string_views(before).push(q@));
        }
        k = k + 1;
    }
    proof {
        assert(placeholders(columns@.len() as nat).take(columns@.len() as int) =~= placeholders(columns@.len() as nat));
        assert(string_views(columns@).len() == columns@.len());
    }
    let mut query = String::from_str("INSERT INTO ");
    query.append(def.entity_type());
    query.append(" (");
    let cols = join(&columns, ",");
    query.append(cols.as_str());
    query.append(") VALUES (");
    let m = join(&marks, ",");
    query.append(m.as_str());
    query.append(")");
    Some(EntityRow { id, columns, values, query })
}

/// What importing a node does: insert a record, or skip a node (named here)
/// whose name defines no record.
pub enum ImportStep {
    Insert(EntityRow),
    Skip(String),
}

pub enum ImportStepView {
    Insert(RowView),
    Skip(Seq<char>),
}

impl View for ImportStep {
    type V = ImportStepView;

    open spec fn view(&self) -> ImportStepView {
        match self {
            ImportStep::Insert(row) => ImportStepView::Insert(row@),
            ImportStep::Skip(name) => ImportStepView::Skip(name@),
        }
    }
}

/// The views of the steps.
pub open spec fn steps_view(steps: Seq<ImportStep>) -> Seq<ImportStepView> {
    steps.map_values(|s: ImportStep| s@)
}

/// The steps that import a node and, after its record, its children under
/// that record, in document order; with the counter after them. A node that
/// defines no record is skipped with its children.
pub open spec fn import_node_spec(
    counter: int,
    parent: Option<(Seq<char>, Seq<char>)>,
    n: DocNodeView,
) -> (Seq<ImportStepView>, int)
    decreases n, 1nat,
{
    match entity_row_spec(counter, parent, n) {
        None => (seq![ImportStepView::Skip(n.name)], counter),
        Some((row, c)) => {
            let (rest, c2) = import_nodes_spec(c, Some((row.entity_type, row.entity_id)), n.children);
            (seq![ImportStepView::Insert(row)] + rest, c2)
        },
    }
}

/// The steps that import the nodes one after the other, with the counter after
/// them.
pub open spec fn import_nodes_spec(
    counter: int,
    parent: Option<(Seq<char>, Seq<char>)>,
    ns: Seq<DocNodeView>,
) -> (Seq<ImportStepView>, int)
    decreases ns, 0nat,
{
    if ns.len() == 0 {
        (Seq::empty(), counter)
    } else {
        let (first, c1) = import_node_spec(counter, parent, ns[0]);
        let (rest, c2) = import_nodes_spec(c1, parent, ns.drop_first());
        (first + rest, c2)
    }
}

/// Importing never moves the counter back.
pub proof fn lemma_import_counter_grows(
    counter: int,
    parent: Option<(Seq<char>, Seq<char>)>,
    n: DocNodeView,
    ns: Seq<DocNodeView>,
)
    ensures
        import_node_spec(counter, parent, n).1 >= counter,
        import_nodes_spec(counter, parent, ns).1 >= counter,
{
    lemma_import_node_counter_grows(counter, parent, n);
    lemma_import_nodes_counter_grows(counter, parent, ns);
}

proof fn lemma_import_node_counter_grows(counter: int, parent: Option<(Seq<char>, Seq<char>)>, n: DocNodeView)
    ensures
        import_node_spec(counter, parent, n).1 >= counter,
    decreases n, 1nat,
{
    if let Some((row, c)) = entity_row_spec(counter, parent, n) {
        lemma_import_nodes_counter_grows(c, Some((row.entity_type, row.entity_id)), n.children);
    }
}

proof fn lemma_import_nodes_counter_grows(
    counter: int,
    parent: Option<(Seq<char>, Seq<char>)>,
    ns: Seq<DocNodeView>,
)
    ensures
        import_nodes_spec(counter, parent, ns).1 >= counter,
    decreases ns, 0nat,
{
    if ns.len() > 0 {
        lemma_import_node_counter_grows(counter, parent, ns[0]);
        let c1 = import_node_spec(counter, parent, ns[0]).1;
        lemma_import_nodes_counter_grows(c1, parent, ns.drop_first());
    }
}

/// The number of records without an id that importing a node defines: the
/// node's own, when its name defines one, and those of its children when its
/// name defines a record at all.
pub open spec fn numbered_in_node(n: DocNodeView) -> nat
    decreases n, 1nat,
{
    match entity_definition_spec(n.name) {
        None => 0,
        Some((auto, _, _)) => (if auto { 1nat } else { 0nat }) + numbered_in_nodes(n.children),
    }
}

/// The number of records without an id that importing the nodes defines.
pub open spec fn numbered_in_nodes(ns: Seq<DocNodeView>) -> nat
    decreases ns, 0nat,
{
    if ns.len() == 0 {
        0
    } else {
        numbered_in_node(ns[0]) + numbered_in_nodes(ns.drop_first())
    }
}

/// Importing a node advances the counter by exactly the number of records
/// without an id in what it imports, whatever the counter and the parent; a
/// record with an id uses no counter value.
pub proof fn lemma_import_counts_numbered_records(
    counter: int,
    parent: Option<(Seq<char>, Seq<char>)>,
    n: DocNodeView,
)
    ensures
        import_node_spec(counter, parent, n).1 == counter + numbered_in_node(n),
    decreases n, 1nat,
{
    if let Some((row, c)) = entity_row_spec(counter, parent, n) {
        lemma_import_nodes_counts_numbered_records(c, Some((row.entity_type, row.entity_id)), n.children);
    }
}

/// Importing the nodes advances the counter by exactly the number of records
/// without an id in what they import.
pub proof fn lemma_import_nodes_counts_numbered_records(
    counter: int,
    parent: Option<(Seq<char>, Seq<char>)>,
    ns: Seq<DocNodeView>,
)
    ensures
        import_nodes_spec(counter, parent, ns).1 == counter + numbered_in_nodes(ns),
    decreases ns, 0nat,
{
    if ns.len() > 0 {
        lemma_import_counts_numbered_records(counter, parent, ns[0]);
        let c1 = import_node_spec(counter, parent, ns[0]).1;
        lemma_import_nodes_counts_numbered_records(c1, parent, ns.drop_first());
    }
}

/// Importing a node that defines a record inserts, first, that record: in
/// the table its name gives, with `auto-` and the counter as its id when the
/// name gives none, with the columns `row_columns` lists (its id, the parent
/// reference, its properties, its title) and one placeholder per column; its
/// children follow, imported under it. A node that defines no record is
/// skipped, with its children.
pub proof fn lemma_import_node_steps(counter: int, parent: Option<(Seq<char>, Seq<char>)>, n: DocNodeView)
    ensures
        match entity_definition_spec(n.name) {
            None => import_node_spec(counter, parent, n) == (seq![ImportStepView::Skip(n.name)], counter),
            Some((auto, t, id)) => {
                let rid = if auto { "auto-"@ + decimal(counter) } else { id };
                let cols = row_columns(rid, parent, n.entries);
                let names = cols.map_values(|c: (Seq<char>, Seq<char>)| c.0);
                let row = RowView {
                    entity_type: t,
                    entity_id: rid,
                    columns: names,
                    values: cols.map_values(|c: (Seq<char>, Seq<char>)| c.1),
                    query: insert_sql_spec(t, names),
                };
                let next = if auto { counter + 1 } else { counter };
                import_node_spec(counter, parent, n) == (
                    seq![ImportStepView::Insert(row)] + import_nodes_spec(next, Some((t, rid)), n.children).0,
                    import_nodes_spec(next, Some((t, rid)), n.children).1,
                )
            },
        },
{
}

/// Whether the name defines a record without an id.
fn defines_numbered_record(name: &str) -> (r: bool)
    ensures
        r == (entity_definition_spec(name@) matches Some((auto, _, _)) && auto),
{
    match EntityDefinition::parse(name) {
        Ok((_, EntityDefinition::AutoId(_))) => true,
        _ => false,
    }
}

/// The steps that import a node: its record, when its name defines one,
/// followed by the steps of its children under that record; a skip of the
/// node otherwise. The counter numbers the records without id; `None` when it
/// would pass `i32::MAX`.
pub fn import_node(state: &mut State, belongs_to: Option<&EntityId>, node: &DocNode) -> (r: Option<Vec<ImportStep>>)
    ensures
        ({
            let (steps, counter) = import_node_spec(old(state).0 as int, parent_view(belongs_to), node@);
            &&& r is None <==> counter > i32::MAX
            &&& r matches Some(v) ==> steps_view(v@) == steps && final(state).0 == counter
        }),
    decreases node, 1nat,
{
    let ghost c0 = state.0 as int;
    let ghost parent = parent_view(belongs_to);
    if state.0 == i32::MAX && defines_numbered_record(node.name.as_str()) {
        proof {
            let (row, c) = entity_row_spec(c0, parent, node@)->Some_0;
            lemma_import_nodes_counter_grows(c, Some((row.entity_type, row.entity_id)), node@.children);
        }
        return None;
    }
    let row = match entity_row(state, belongs_to, node) {
        None => {
            let mut steps: Vec<ImportStep> = Vec::new();
            steps.push(ImportStep::Skip(node.name.clone()));
            proof {
                assert(steps_view(steps@) =~= seq![ImportStepView::Skip(node@.name)]);
            }
            return Some(steps);
        },
        Some(row) => row,
    };
    let ghost row_v = row@;
    let id = row.id.clone();
    let mut steps: Vec<ImportStep> = Vec::new();
    steps.push(ImportStep::Insert(row));
    let mut rest = match import_nodes(state, Some(&id), &node.children) {
        Some(rest) => rest,
        None => { return None; },
    };
    let ghost before = steps@;
    let ghost rest_v = rest@;
    steps.append(&mut rest);
    proof {
        assert(steps_view(before) =~= seq![ImportStepView::Insert(row_v)]);
        assert(steps_view(steps@) =~= steps_view(before) + steps_view(rest_v));
    }
    Some(steps)
}

/// The steps that import the nodes one after the other, under the same
/// parent record; `None` when the counter would pass `i32::MAX`.
pub fn import_nodes(state: &mut State, belongs_to: Option<&EntityId>, nodes: &Vec<DocNode>) -> (r: Option<
    Vec<ImportStep>,
>)
    ensures
        ({
            let (steps, counter) = import_nodes_spec(
                old(state).0 as int,
                parent_view(belongs_to),
                nodes_view(nodes@),
            );
            &&& r is None <==> counter > i32::MAX
            &&& r matches Some(v) ==> steps_view(v@) == steps && final(state).0 == counter
        }),
    decreases nodes, 0nat,
{
    let ghost kids = nodes_view(nodes@);
    let ghost parent = parent_view(belongs_to);
    let ghost total = import_nodes_spec(state.0 as int, parent, kids);
    let mut steps: Vec<ImportStep> = Vec::new();
    proof {
        lemma_nodes_view(nodes@);
        assert(steps_view(steps@) =~= Seq::<ImportStepView>::empty());
        assert(kids.skip(0) =~= kids);
    }
    let mut i: usize = 0;
    while i < nodes.len()
        invariant
            i <= nodes@.len(),
            kids == nodes_view(nodes@),
            kids.len() == nodes@.len(),
            parent == parent_view(belongs_to),
            total == import_nodes_spec(old(state).0 as int, parent, kids),
            ({
                let rest = import_nodes_spec(state.0 as int, parent, kids.skip(i as int));
                &&& total.0 == steps_view(steps@) + rest.0
                &&& rest.1 == total.1
            }),
        decreases nodes@.len() - i,
    {
        let ghost ci = state.0 as int;
        let ghost rest_i = kids.skip(i as int);
        proof {
            lemma_nodes_view(nodes@);
            assert(rest_i[0] == kids[i as int]);
            assert(rest_i.drop_first() =~= kids.skip(i + 1));
            let first = import_node_spec(ci, parent, kids[i as int]);
            lemma_import_nodes_counter_grows(first.1, parent, kids.skip(i + 1));
            assert(nodes@[i as int]@ == kids[i as int]);
        }
        let mut sub = match import_node(state, belongs_to, &nodes[i]) {
            Some(sub) => sub,
            None => { return None; },
        };
        let ghost before = steps@;
        steps.append(&mut sub);
        proof {
            assert(steps_view(steps@) =~= steps_view(before) + import_node_spec(ci, parent, kids[i as int]).0);
        }
        i = i + 1;
    }
    proof {
        assert(kids.skip(i as int) =~= Seq::<DocNodeView>::empty());
        assert(steps_view(steps@) =~= total.0);
    }
    Some(steps)
}

/// The steps that import the records a KDL document defines: those of its
/// top-level nodes, in order, numbering the records without id from the
/// counter. The error when the text is not KDL; `None` when the counter would
/// pass `i32::MAX`.
pub fn import_document(state: &mut State, text: &str) -> (r: Result<Option<Vec<ImportStep>>, kdl::KdlError>)
    ensures
        match kdl_document(text@) {
            None => r is Err && *final(state) == *old(state),
            Some(nodes) => r matches Ok(x) && {
                let (steps, counter) = import_nodes_spec(old(state).0 as int, None, nodes);
                &&& x is None <==> counter > i32::MAX
                &&& x matches Some(v) ==> steps_view(v@) == steps && final(state).0 == counter
            },
        },
{
    let nodes = match parse_document(text) {
        Ok(n) => n,
        Err(e) => { return Err(e); },
    };
    Ok(import_nodes(state, None, &nodes))
}

} // verus!
