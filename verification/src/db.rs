use vstd::prelude::*;
use rusqlite::types::Value;
use crate::strings::{join, join_spec, lemma_join_push, string_views, decimal, signed_decimal};

verus! {

#[verifier::external_type_specification]
#[verifier::external_body]
pub struct ExSqlValue(rusqlite::types::Value);

#[verifier::external_type_specification]
#[verifier::external_body]
#[verifier::reject_recursive_types(I)]
pub struct ExParamsFromIter<I>(rusqlite::ParamsFromIter<I>);

/// `Value::clone` (derived) copies the value: the copy is the same value.
pub assume_specification[ <rusqlite::types::Value as Clone>::clone ](v: &Value) -> (r: Value)
    ensures
        r == *v,
;

/// Builds the `WHERE` part of a query from clauses and the values of their
/// placeholders.
pub struct WhereBuilder {
    clauses: Vec<String>,
    params: Vec<Value>,
}

pub struct WhereBuilderView {
    pub clauses: Seq<Seq<char>>,
    pub params: Seq<Value>,
}

impl WhereBuilderView {
    /// The clause, parenthesised, joined to the clauses before it with `joiner`.
    pub open spec fn with_clause(self, joiner: Seq<char>, clause: Seq<char>) -> WhereBuilderView {
        WhereBuilderView {
            clauses: self.clauses.push(
                if self.clauses.len() == 0 {
                    "("@ + clause + ")"@
                } else {
                    joiner + " ("@ + clause + ")"@
                },
            ),
            params: self.params,
        }
    }

    /// The `WHERE` text: nothing without clauses, else `WHERE ` and the
    /// clauses separated by spaces.
    pub open spec fn query(self) -> Seq<char> {
        if self.clauses.len() == 0 {
            Seq::empty()
        } else {
            "WHERE "@ + join_spec(self.clauses, " "@)
        }
    }
}

/// Adding a clause to a builder that has clauses already extends its `WHERE`
/// text by a space, the joiner (`AND` or `OR`) and the parenthesised clause;
/// adding one to a builder without clauses makes the text `WHERE (clause)`.
pub proof fn lemma_clause_extends_query(w: WhereBuilderView, joiner: Seq<char>, clause: Seq<char>)
    ensures
        w.clauses.len() == 0 ==> w.with_clause(joiner, clause).query() == "WHERE "@ + ("("@ + clause
            + ")"@),
        w.clauses.len() > 0 ==> w.with_clause(joiner, clause).query() == w.query() + " "@ + (joiner
            + " ("@ + clause + ")"@),
{
    let w2 = w.with_clause(joiner, clause);
    if w.clauses.len() == 0 {
        assert(w2.clauses =~= seq!["("@ + clause + ")"@]);
    } else {
        assert(w2.clauses.drop_last() =~= w.clauses);
        let j = join_spec(w.clauses, " "@);
        let x = joiner + " ("@ + clause + ")"@;
        assert(join_spec(w2.clauses, " "@) == j + " "@ + x);
        assert("WHERE "@ + (j + " "@ + x) =~= "WHERE "@ + j + " "@ + x);
    }
}

impl View for WhereBuilder {
    type V = WhereBuilderView;

    closed spec fn view(&self) -> WhereBuilderView {
        WhereBuilderView { clauses: string_views(self.clauses@), params: self.params@ }
    }
}

impl Clone for WhereBuilder {
    fn clone(&self) -> (r: Self)
        ensures
            r@ == self@,
    {
        let r = WhereBuilder { clauses: self.clauses.clone(), params: self.params.clone() };
        proof {
            assert(string_views(r.clauses@) =~= string_views(self.clauses@));
            assert(r.params@ =~= self.params@);
        }
        r
    }
}

/// A new clause, parenthesised, after `joiner` when it is not the first.
fn clause_text(first: bool, joiner: &str, clause: &str) -> (r: String)
    ensures
        r@ == if first { "("@ + clause@ + ")"@ } else { joiner@ + " ("@ + clause@ + ")"@ },
{
    let mut r = if first {
        String::from_str("(")
    } else {
        let mut j = String::from_str(joiner);
        j.append(" (");
        j
    };
    r.append(clause);
    r.append(")");
    r
}

impl WhereBuilder {
    pub fn new() -> (r: Self)
        ensures
            r@.clauses.len() == 0,
            r@.params.len() == 0,
    {
        let r = WhereBuilder { clauses: Vec::new(), params: Vec::new() };
        proof {
            assert(string_views(r.clauses@).len() == 0);
        }
        r
    }

    /// A builder that holds one clause.
    pub fn with(first_clause: &str) -> (r: Self)
        ensures
            r@.clauses == seq!["("@ + first_clause@ + ")"@],
            r@.params.len() == 0,
    {
        let builder = WhereBuilder::new();
        let r = builder.and(first_clause);
        proof {
            assert(r@.clauses =~= seq!["("@ + first_clause@ + ")"@]);
        }
        r
    }

    /// Adds a clause that must hold too.
    pub fn and(self, clause: &str) -> (r: Self)
        ensures
            r@ == self@.with_clause("AND"@, clause@),
    {
        let mut s = self;
        let first = s.clauses.len() == 0;
        let text = clause_text(first, "AND", clause);
        let ghost before = s.clauses@;
        s.clauses.push(text);
        proof {
            assert(string_views(s.clauses@) =~= string_views(before).push(text@));
        }
        s
    }

    /// Adds a clause that may hold instead.
    pub fn or(self, clause: &str) -> (r: Self)
        ensures
            r@ == self@.with_clause("OR"@, clause@),
    {
        let mut s = self;
        let first = s.clauses.len() == 0;
        let text = clause_text(first, "OR", clause);
        let ghost before = s.clauses@;
        s.clauses.push(text);
        proof {
            assert(string_views(s.clauses@) =~= string_views(before).push(text@));
        }
        s
    }

    /// Adds the value of the next placeholder.
    pub fn param(self, param: Value) -> (r: Self)
        ensures
            r@.clauses == self@.clauses,
            r@.params == self@.params.push(param),
    {
        let mut s = self;
        s.params.push(param);
        s
    }

    /// Adds the values of the next placeholders.
    pub fn params(self, params: &[Value]) -> (r: Self)
        ensures
            r@.clauses == self@.clauses,
            r@.params == self@.params + params@,
    {
        let mut s = self;
        s.params.extend_from_slice(params);
        proof {
            assert(s.params@ =~= self@.params + params@);
        }
        s
    }

    /// The values of the placeholders, in order.
    pub fn param_values(&self) -> (r: &Vec<Value>)
        ensures
            r@ == self@.params,
    {
        &self.params
    }

    pub fn as_query(&self) -> (r: String)
        ensures
            r@ == self@.query(),
    {
        if self.clauses.len() == 0 {
            String::new()
        } else {
            let mut r = String::from_str("WHERE ");
            let j = join(&self.clauses, " ");
            r.append(j.as_str());
            r
        }
    }
}

/// Builds a query from parts separated by spaces, with the values of its
/// placeholders.
pub struct QueryBuilder {
    clauses: Vec<String>,
    params: Vec<Value>,
}

pub struct QueryBuilderView {
    pub clauses: Seq<Seq<char>>,
    pub params: Seq<Value>,
}

impl View for QueryBuilder {
    type V = QueryBuilderView;

    closed spec fn view(&self) -> QueryBuilderView {
        QueryBuilderView { clauses: string_views(self.clauses@), params: self.params@ }
    }
}

/// The values that a parameter list made by `params_from_iter` binds to the
/// placeholders, in order.
pub uninterp spec fn bound_values(params: rusqlite::ParamsFromIter<std::slice::Iter<'_, Value>>) -> Seq<Value>;

impl QueryBuilder {
    /// A query always holds the part it was started with.
    #[verifier::type_invariant]
    spec fn has_first_part(&self) -> bool {
        self.clauses@.len() > 0
    }
}

impl QueryBuilder {
    /// A builder that starts with the given part.
    pub fn with(clause: &str) -> (r: Self)
        ensures
            r@.clauses == seq![clause@],
            r@.params.len() == 0,
    {
        let mut clauses: Vec<String> = Vec::new();
        clauses.push(String::from_str(clause));
        let r = QueryBuilder { clauses, params: Vec::new() };
        proof {
            assert(string_views(r.clauses@) =~= seq![clause@]);
        }
        r
    }

    /// Appends a part.
    pub fn add(self, clause: &str) -> (r: Self)
        ensures
            r@.clauses == self@.clauses.push(clause@),
            r@.params == self@.params,
            join_spec(r@.clauses, " "@) == join_spec(self@.clauses, " "@) + " "@ + clause@,
    {
        proof {
            use_type_invariant(&self);
            lemma_join_push(self@.clauses, " "@, clause@);
        }
        let ghost before = self.clauses@;
        let QueryBuilder { mut clauses, params } = self;
        let text = String::from_str(clause);
        clauses.push(text);
        proof {
            assert(string_views(clauses@) =~= string_views(before).push(clause@));
        }
        QueryBuilder { clauses, params }
    }

    /// Appends the `WHERE` part of the builder and its placeholder values.
    pub fn add_where(self, where_builder: &WhereBuilder) -> (r: Self)
        ensures
            r@.clauses == self@.clauses.push(where_builder@.query()),
            r@.params == self@.params + where_builder@.params,
            join_spec(r@.clauses, " "@) == join_spec(self@.clauses, " "@) + " "@ + where_builder@.query(),
    {
        proof {
            use_type_invariant(&self);
            lemma_join_push(self@.clauses, " "@, where_builder@.query());
        }
        let ghost before = self.clauses@;
        let ghost old_params = self.params@;
        let QueryBuilder { mut clauses, mut params } = self;
        let text = where_builder.as_query();
        clauses.push(text);
        params.extend_from_slice(where_builder.param_values().as_slice());
        proof {
            assert(string_views(clauses@) =~= string_views(before).push(text@));
            assert(params@ =~= old_params + where_builder@.params);
        }
        QueryBuilder { clauses, params }
    }

    /// Adds the value of the next placeholder.
    pub fn param(self, p: Value) -> (r: Self)
        ensures
            r@.clauses == self@.clauses,
            r@.params == self@.params.push(p),
    {
        proof { use_type_invariant(&self); }
        let QueryBuilder { clauses, mut params } = self;
        params.push(p);
        QueryBuilder { clauses, params }
    }

    /// Adds the values of the next placeholders.
    pub fn params(self, params: &[Value]) -> (r: Self)
        ensures
            r@.clauses == self@.clauses,
            r@.params == self@.params + params@,
    {
        proof { use_type_invariant(&self); }
        let ghost old_params = self.params@;
        let QueryBuilder { clauses, params: mut values } = self;
        values.extend_from_slice(params);
        proof {
            assert(values@ =~= old_params + params@);
        }
        QueryBuilder { clauses, params: values }
    }

    /// The values of the placeholders, in order.
    pub fn param_values(&self) -> (r: &Vec<Value>)
        ensures
            r@ == self@.params,
    {
        &self.params
    }

    /// Calls `rusqlite::params_from_iter` on an iterator over the placeholder
    /// values, for handing to a statement. The contract claims that it binds
    /// exactly the builder's values, in order: `params_from_iter` keeps the
    /// iterator and binds each item it yields to the next placeholder.
    #[verifier::external_body]
    pub fn params_iter(&self) -> (r: rusqlite::ParamsFromIter<std::slice::Iter<'_, Value>>)
        ensures
            bound_values(r) == self@.params,
    {
        rusqlite::params_from_iter(self.params.iter())
    }

    /// The parts separated by spaces; there is always at least one.
    pub fn as_query(&self) -> (r: String)
        ensures
            r@ == join_spec(self@.clauses, " "@),
            self@.clauses.len() > 0,
    {
        proof { use_type_invariant(self); }
        join(&self.clauses, " ")
    }
}

/// Each header followed by ` TEXT`.
pub open spec fn text_column_definitions(headers: Seq<Seq<char>>) -> Seq<Seq<char>> {
    headers.map_values(|h: Seq<char>| h + " TEXT"@)
}

/// `n` copies of the placeholder `?`.
pub open spec fn placeholders(n: nat) -> Seq<Seq<char>> {
    Seq::new(n, |i: int| "?"@)
}

/// The text of the statement that creates the table for a CSV file.
pub open spec fn create_table_text(table_name: Seq<char>, headers: Seq<Seq<char>>) -> Seq<char> {
    "CREATE TABLE "@ + table_name + " (__order INTEGER, "@ + join_spec(
        text_column_definitions(headers),
        ", "@,
    ) + ")"@
}

/// The text of the statement that indexes a table by its `__order` column.
pub open spec fn order_index_text(table_name: Seq<char>) -> Seq<char> {
    "CREATE INDEX "@ + table_name + "_order_idx ON "@ + table_name + " (__order)"@
}

/// The text of the statement that inserts one CSV row at position `order`,
/// with `value_count` placeholders.
pub open spec fn insert_row_text(
    table_name: Seq<char>,
    headers: Seq<Seq<char>>,
    order: int,
    value_count: nat,
) -> Seq<char> {
    "INSERT INTO "@ + table_name + " (__order, "@ + join_spec(headers, ", "@) + ") VALUES ("@
        + decimal(order) + ", "@ + join_spec(placeholders(value_count), ","@) + ")"@
}

/// The statement that creates the table for a CSV file: an `__order` integer
/// column, then one text column per header.
pub fn create_table_sql(table_name: &str, headers: &Vec<String>) -> (r: String)
    ensures
        r@ == create_table_text(table_name@, string_views(headers@)),
{
    let mut defs: Vec<String> = Vec::with_capacity(headers.len());
    let mut i: usize = 0;
    while i < headers.len()
        invariant
            i <= headers@.len(),
            string_views(defs@) =~= text_column_definitions(string_views(headers@)).take(i as int),
        decreases headers@.len() - i,
    {
        let mut d = headers[i].clone();
        d.append(" TEXT");
        let ghost before = defs@;
        defs.push(d);
        proof {
            assert(string_views(defs@) =~= string_views(before).push(d@));
        }
        i = i + 1;
    }
    proof {
        assert(text_column_definitions(string_views(headers@)).take(headers@.len() as int)
            =~= text_column_definitions(string_views(headers@)));
    }
    let mut r = String::from_str("CREATE TABLE ");
    r.append(table_name);
    r.append(" (__order INTEGER, ");
    let d = join(&defs, ", ");
    r.append(d.as_str());
    r.append(")");
    r
}

/// The statement that indexes a table by its `__order` column.
pub fn create_order_index_sql(table_name: &str) -> (r: String)
    ensures
        r@ == order_index_text(table_name@),
{
    let mut r = String::from_str("CREATE INDEX ");
    r.append(table_name);
    r.append("_order_idx ON ");
    r.append(table_name);
    r.append(" (__order)");
    r
}

/// The statement that inserts one CSV row at position `order`, with one
/// placeholder per value.
pub fn insert_row_sql(table_name: &str, headers: &Vec<String>, order: i64, value_count: usize) -> (r: String)
    ensures
        r@ == insert_row_text(table_name@, string_views(headers@), order as int, value_count as nat),
{
    let mut marks: Vec<String> = Vec::with_capacity(value_count);
    let mut i: usize = 0;
    while i < value_count
        invariant
            i <= value_count,
            string_views(marks@) =~= placeholders(value_count as nat).take(i as int),
        decreases value_count - i,
    {
        let q = String::from_str("?");
        let ghost before = marks@;
        marks.push(q);
        proof {
            assert(string_views(marks@) =~= string_views(before).push(q@));
        }
        i = i + 1;
    }
    proof {
        assert(placeholders(value_count as nat).take(value_count as int) =~= placeholders(value_count as nat));
    }
    let mut r = String::from_str("INSERT INTO ");
    r.append(table_name);
    r.append(" (__order, ");
    let cols = join(headers, ", ");
    r.append(cols.as_str());
    r.append(") VALUES (");
    let o = signed_decimal(order);
    r.append(o.as_str());
    r.append(", ");
    let m = join(&marks, ",");
    r.append(m.as_str());
    r.append(")");
    r
}

/// The query that lists the distinct values of a field.
pub fn groups_sql(table_name: &str, field_name: &str) -> (r: String)
    ensures
        r@ == "SELECT "@ + field_name@ + " FROM "@ + table_name@ + " GROUP BY "@ + field_name@,
{
    let mut r = String::from_str("SELECT ");
    r.append(field_name);
    r.append(" FROM ");
    r.append(table_name);
    r.append(" GROUP BY ");
    r.append(field_name);
    r
}

/// The query that reads the title of the related record whose key is the
/// placeholder's value.
pub fn related_title_sql(table_name: &str, key_name: &str, title_field: &str) -> (r: String)
    ensures
        r@ == "SELECT "@ + title_field@ + " FROM "@ + table_name@ + " WHERE "@ + key_name@ + " = ?"@,
{
    let mut r = String::from_str("SELECT ");
    r.append(title_field);
    r.append(" FROM ");
    r.append(table_name);
    r.append(" WHERE ");
    r.append(key_name);
    r.append(" = ?");
    r
}

/// The query that counts the rows of a table.
pub fn count_rows_sql(table_name: &str) -> (r: String)
    ensures
        r@ == "SELECT COUNT(*) FROM "@ + table_name@,
{
    let mut r = String::from_str("SELECT COUNT(*) FROM ");
    r.append(table_name);
    r
}

} // verus!
