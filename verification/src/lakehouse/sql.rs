//! SQL identifiers, table names and the statements that build typed tables.
use vstd::prelude::*;
use crate::lakehouse::types::{spark_type_name, TypedColumn};
use crate::text::{
    ascii_lower, cat, cat3, chars_of, is_ascii_alphanumeric, join, join_strings, push_char,
    push_str, replace_char, replace_char_with, split_once, split_once_char, string_of,
};

verus! {

/// A character of a SQL name: ASCII letters and digits in lower case, `_`
/// for anything else.
pub open spec fn sql_name_char(c: char) -> char {
    if is_ascii_alphanumeric(c) {
        ascii_lower(c)
    } else {
        '_'
    }
}

/// Drops leading `_` characters.
pub open spec fn trim_leading_underscores(s: Seq<char>) -> Seq<char>
    decreases s.len(),
{
    if s.len() > 0 && s[0] == '_' {
        trim_leading_underscores(s.drop_first())
    } else {
        s
    }
}

/// Drops trailing `_` characters.
pub open spec fn trim_trailing_underscores(s: Seq<char>) -> Seq<char>
    decreases s.len(),
{
    if s.len() > 0 && s.last() == '_' {
        trim_trailing_underscores(s.drop_last())
    } else {
        s
    }
}

/// A text made safe as a SQL name: characters mapped by `sql_name_char`,
/// then the `_` at either end dropped.
pub open spec fn sql_name(s: Seq<char>) -> Seq<char> {
    trim_trailing_underscores(trim_leading_underscores(s.map_values(|c: char| sql_name_char(c))))
}

/// Makes a text safe as an unquoted SQL name.
pub fn safe_sql_name(value: &str) -> (r: String)
    ensures
        r@ == sql_name(value@),
{
    let cs = chars_of(value);
    let mut mapped: Vec<char> = Vec::new();
    for i in 0..cs.len()
        invariant
            cs@ == value@,
            mapped@ == value@.take(i as int).map_values(|c: char| sql_name_char(c)),
    {
        let c = cs[i];
        let m = if ('a' <= c && c <= 'z') || ('0' <= c && c <= '9') {
            c
        } else if 'A' <= c && c <= 'Z' {
            crate::text::ascii_lower_char(c)
        } else {
            '_'
        };
        mapped.push(m);
        assert(mapped@ =~= value@.take(i + 1).map_values(|c: char| sql_name_char(c)));
    }
    assert(value@.take(value@.len() as int) =~= value@);
    let ghost all = mapped@;
    let n = mapped.len();
    let mut i: usize = 0;
    assert(all.subrange(0, n as int) =~= all);
    while i < n && mapped[i] == '_'
        invariant
            i <= n,
            n == all.len(),
            mapped@ == all,
            trim_leading_underscores(all) == trim_leading_underscores(all.subrange(i as int, n as int)),
        decreases n - i,
    {
        assert(all.subrange(i as int, n as int).drop_first() =~= all.subrange(i + 1, n as int));
        i = i + 1;
    }
    let ghost front = all.subrange(i as int, n as int);
    assert(trim_leading_underscores(front) == front);
    let mut j: usize = n;
    while j > i && mapped[j - 1] == '_'
        invariant
            i <= j <= n,
            n == all.len(),
            mapped@ == all,
            front == all.subrange(i as int, n as int),
            trim_trailing_underscores(front) == trim_trailing_underscores(all.subrange(i as int, j as int)),
        decreases j,
    {
        assert(all.subrange(i as int, j as int).drop_last() =~= all.subrange(i as int, j - 1));
        j = j - 1;
    }
    string_of(&mapped.as_slice()[i..j])
}

/// A backquoted SQL identifier, with backquotes doubled inside.
pub open spec fn quoted(value: Seq<char>) -> Seq<char> {
    seq!['`'] + replace_char(value, '`', seq!['`', '`']) + seq!['`']
}

/// A schema-qualified, quoted table name.
pub open spec fn qualified_spec(schema: Seq<char>, table: Seq<char>) -> Seq<char> {
    quoted(schema) + seq!['.'] + quoted(table)
}

/// Quotes a SQL identifier with backquotes.
pub fn quote_ident(value: &str) -> (r: String)
    ensures
        r@ == quoted(value@),
{
    let mut r = String::new();
    push_char(&mut r, '`');
    let inner = replace_char_with(value, '`', "``");
    push_str(&mut r, inner.as_str());
    push_char(&mut r, '`');
    proof {
        reveal_strlit("``");
        assert("``"@ =~= seq!['`', '`']);
    }
    r
}

/// `schema`.`table`, each part quoted.
pub fn qualified(schema: &str, table: &str) -> (r: String)
    ensures
        r@ == qualified_spec(schema@, table@),
{
    let s = quote_ident(schema);
    let t = quote_ident(table);
    let mut r = s;
    push_char(&mut r, '.');
    push_str(&mut r, t.as_str());
    r
}

/// The quoted name of a table written `schema.table` or `table`.
pub open spec fn qualified_name_spec(table: Seq<char>) -> Seq<char> {
    match split_once(table, '.') {
        Some(p) => qualified_spec(p.0, p.1),
        None => quoted(table),
    }
}

/// Quotes a table name, qualifying it where it names a schema.
pub fn qualified_name(table: &str) -> (r: String)
    ensures
        r@ == qualified_name_spec(table@),
{
    match split_once_char(table, '.') {
        Some((schema, name)) => qualified(schema.as_str(), name.as_str()),
        None => quote_ident(table),
    }
}

/// `SELECT COUNT(*) AS row_count FROM ` and a table name.
pub open spec fn count_sql(name: Seq<char>) -> Seq<char> {
    "SELECT COUNT(*) AS row_count FROM "@ + name
}

/// The row count query for a table named `schema.table` or `table`, and,
/// for a qualified name, the query on the bare table to try if the first
/// fails.
pub fn count_queries(table: &str) -> (r: (String, Option<String>))
    ensures
        r.0@ == count_sql(qualified_name_spec(table@)),
        match split_once(table@, '.') {
            Some(p) => r.1 matches Some(f) && f@ == count_sql(quoted(p.1)),
            None => r.1 is None,
        },
{
    match split_once_char(table, '.') {
        Some((schema, name)) => {
            let q = qualified(schema.as_str(), name.as_str());
            let b = quote_ident(name.as_str());
            (
                cat("SELECT COUNT(*) AS row_count FROM ", q.as_str()),
                Some(cat("SELECT COUNT(*) AS row_count FROM ", b.as_str())),
            )
        },
        None => {
            let q = quote_ident(table);
            (cat("SELECT COUNT(*) AS row_count FROM ", q.as_str()), None)
        },
    }
}

/// `TRY_CAST(<source> AS <type>) AS <name>` for one column.
pub open spec fn select_item(c: TypedColumn) -> Seq<char> {
    "TRY_CAST("@ + quoted(c.source_name@) + " AS "@ + spark_type_name(c.data_type) + ") AS "@
        + quoted(c.name@)
}

/// The select list that casts staged text columns to their types.
pub open spec fn select_list(columns: Seq<TypedColumn>) -> Seq<char> {
    join(columns.map_values(|c: TypedColumn| select_item(c)), ", "@)
}

/// The select list of a typed table.
fn typed_select(columns: &Vec<TypedColumn>) -> (r: String)
    ensures
        r@ == select_list(columns@),
{
    let mut items: Vec<String> = Vec::new();
    for i in 0..columns.len()
        invariant
            items@.len() == i,
            forall|j: int| 0 <= j < i ==> #[trigger] items@[j]@ == select_item(columns@[j]),
    {
        let c = &columns[i];
        let source = quote_ident(c.source_name.as_str());
        let name = quote_ident(c.name.as_str());
        let mut item = cat3("TRY_CAST(", source.as_str(), " AS ");
        push_str(&mut item, c.data_type.spark_type());
        push_str(&mut item, ") AS ");
        push_str(&mut item, name.as_str());
        items.push(item);
    }
    let r = join_strings(&items, ", ");
    assert(items@.map_values(|p: String| p@) =~= columns@.map_values(|c: TypedColumn| select_item(c)));
    r
}

/// `CREATE TABLE` of a typed table from a staged view of text columns.
pub open spec fn create_typed_sql(
    schema: Seq<char>,
    table: Seq<char>,
    stage_view: Seq<char>,
    columns: Seq<TypedColumn>,
) -> Seq<char> {
    "CREATE TABLE "@ + qualified_spec(schema, table) + " USING parquet AS SELECT "@ + select_list(
        columns,
    ) + " FROM "@ + quoted(stage_view)
}

/// `INSERT INTO` a typed table from a staged view of text columns.
pub open spec fn insert_typed_sql(
    schema: Seq<char>,
    table: Seq<char>,
    stage_view: Seq<char>,
    columns: Seq<TypedColumn>,
) -> Seq<char> {
    "INSERT INTO "@ + qualified_spec(schema, table) + " SELECT "@ + select_list(columns) + " FROM "@
        + quoted(stage_view)
}

/// Creates a typed table from a staged view, casting each column.
pub fn create_typed_table_sql(
    schema: &str,
    table: &str,
    stage_view: &str,
    columns: &Vec<TypedColumn>,
) -> (r: String)
    ensures
        r@ == create_typed_sql(schema@, table@, stage_view@, columns@),
{
    let q = qualified(schema, table);
    let select = typed_select(columns);
    let view = quote_ident(stage_view);
    let mut r = cat3("CREATE TABLE ", q.as_str(), " USING parquet AS SELECT ");
    push_str(&mut r, select.as_str());
    push_str(&mut r, " FROM ");
    push_str(&mut r, view.as_str());
    r
}

/// Appends a staged view to a typed table, casting each column.
pub fn insert_typed_table_sql(
    schema: &str,
    table: &str,
    stage_view: &str,
    columns: &Vec<TypedColumn>,
) -> (r: String)
    ensures
        r@ == insert_typed_sql(schema@, table@, stage_view@, columns@),
{
    let q = qualified(schema, table);
    let select = typed_select(columns);
    let view = quote_ident(stage_view);
    let mut r = cat3("INSERT INTO ", q.as_str(), " SELECT ");
    push_str(&mut r, select.as_str());
    push_str(&mut r, " FROM ");
    push_str(&mut r, view.as_str());
    r
}

/// `DROP TABLE IF EXISTS` of a qualified table.
pub open spec fn drop_table_sql(schema: Seq<char>, table: Seq<char>) -> Seq<char> {
    "DROP TABLE IF EXISTS "@ + qualified_spec(schema, table)
}

/// The statements that replace a table by the contents of a view: drop it,
/// then create it from the view.
pub fn replace_table_sql(schema: &str, table: &str, view: &str) -> (r: (String, String))
    ensures
        r.0@ == drop_table_sql(schema@, table@),
        r.1@ == "CREATE TABLE "@ + qualified_spec(schema@, table@) + " USING parquet AS SELECT * FROM "@
            + quoted(view@),
{
    let q = qualified(schema, table);
    let v = quote_ident(view);
    let drop = cat("DROP TABLE IF EXISTS ", q.as_str());
    let create = cat3("CREATE TABLE ", q.as_str(), " USING parquet AS SELECT * FROM ");
    let mut create = create;
    push_str(&mut create, v.as_str());
    (drop, create)
}

/// `CREATE DATABASE IF NOT EXISTS` of a schema.
pub fn create_schema_sql(schema: &str) -> (r: String)
    ensures
        r@ == "CREATE DATABASE IF NOT EXISTS "@ + quoted(schema@),
{
    let q = quote_ident(schema);
    cat("CREATE DATABASE IF NOT EXISTS ", q.as_str())
}

} // verus!
