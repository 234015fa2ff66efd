//! The catalog of a database, put together from the rows of its column listing:
//! schemas by name, their tables by name, and the columns of each table in the
//! order of the rows.

use crate::json::{
    group_json_view, items_view, no_fields, put_field, Json, JsonNumber, JsonView, NumberView,
};
use crate::statement::rows_view;
use crate::text::{
    comes_before, precedes, precedes_irreflexive, precedes_total, precedes_transitive, same, texts,
};
use vstd::prelude::*;

verus! {

/// A column of a table of a schema.
#[verifier::ext_equal]
pub struct ColumnEntry {
    pub schema: Seq<char>,
    pub table: Seq<char>,
    pub column: JsonView,
}

/// The place of the first `name`.
pub open spec fn place_of(names: Seq<Seq<char>>, name: Seq<char>) -> Option<int>
    decreases names.len(),
{
    if names.len() == 0 {
        None
    } else if names[0] == name {
        Some(0)
    } else {
        match place_of(names.skip(1), name) {
            Some(at) => Some(at + 1),
            None => None,
        }
    }
}

/// The text in a cell, nothing where there is none.
pub open spec fn cell_text(row: Seq<JsonView>, at: int) -> Seq<char> {
    if 0 <= at < row.len() {
        match row[at] {
            JsonView::String(text) => text,
            _ => Seq::empty(),
        }
    } else {
        Seq::empty()
    }
}

/// The integer in a cell, zero where there is none.
pub open spec fn cell_integer(row: Seq<JsonView>, at: Option<int>) -> i64 {
    match at {
        Some(at) => if 0 <= at < row.len() {
            match row[at].as_i64() {
                Some(n) => n,
                None => 0,
            }
        } else {
            0
        },
        None => 0,
    }
}

/// How a column is described.
pub open spec fn column_view(name: Seq<char>, data_type: Seq<char>, ordinal: i64) -> JsonView {
    JsonView::Object(
        map![
            "name"@ => JsonView::String(name),
            "dataType"@ => JsonView::String(data_type),
            "nullable"@ => JsonView::Bool(true),
            "ordinal"@ => JsonView::Number(NumberView::integer(ordinal)),
        ],
    )
}

/// Where in a row the listing has what.
#[verifier::ext_equal]
pub struct Places {
    pub schema: int,
    pub table: int,
    pub column: int,
    pub data_type: int,
    pub ordinal: Option<int>,
}

/// Where the columns of a listing are, if none but the ordinal is missing.
pub open spec fn places_of(columns: Seq<Seq<char>>) -> Option<Places> {
    match (
        place_of(columns, "table_schema"@),
        place_of(columns, "table_name"@),
        place_of(columns, "column_name"@),
        place_of(columns, "data_type"@),
    ) {
        (Some(schema), Some(table), Some(column), Some(data_type)) => Some(
            Places {
                schema,
                table,
                column,
                data_type,
                ordinal: place_of(columns, "ordinal_position"@),
            },
        ),
        _ => None,
    }
}

/// Whether a row names schema, table and column.
pub open spec fn is_listed(places: Places, row: Seq<JsonView>) -> bool {
    &&& cell_text(row, places.schema).len() > 0
    &&& cell_text(row, places.table).len() > 0
    &&& cell_text(row, places.column).len() > 0
}

/// The column that a row lists.
pub open spec fn listed_column(places: Places, row: Seq<JsonView>) -> ColumnEntry {
    ColumnEntry {
        schema: cell_text(row, places.schema),
        table: cell_text(row, places.table),
        column: column_view(
            cell_text(row, places.column),
            cell_text(row, places.data_type),
            cell_integer(row, places.ordinal),
        ),
    }
}

/// The columns that the rows list, in their order.
pub open spec fn listed(places: Places, rows: Seq<Seq<JsonView>>) -> Seq<ColumnEntry>
    decreases rows.len(),
{
    if rows.len() == 0 {
        Seq::empty()
    } else {
        let earlier = listed(places, rows.drop_last());
        if is_listed(places, rows.last()) {
            earlier.push(listed_column(places, rows.last()))
        } else {
            earlier
        }
    }
}

/// The names with one more, in order, each once.
pub open spec fn with_name(names: Seq<Seq<char>>, name: Seq<char>) -> Seq<Seq<char>>
    decreases names.len(),
{
    if names.len() == 0 {
        seq![name]
    } else if names[0] == name {
        names
    } else if precedes(name, names[0]) {
        seq![name] + names
    } else {
        seq![names[0]] + with_name(names.skip(1), name)
    }
}

/// The names in order, each once.
pub open spec fn sorted_names(names: Seq<Seq<char>>) -> Seq<Seq<char>>
    decreases names.len(),
{
    if names.len() == 0 {
        Seq::empty()
    } else {
        with_name(sorted_names(names.drop_last()), names.last())
    }
}

/// The schemas of the listed columns.
pub open spec fn schemas_of(entries: Seq<ColumnEntry>) -> Seq<Seq<char>> {
    entries.map_values(|e: ColumnEntry| e.schema)
}

/// The tables of the columns listed for a schema.
pub open spec fn tables_of(entries: Seq<ColumnEntry>, schema: Seq<char>) -> Seq<Seq<char>>
    decreases entries.len(),
{
    if entries.len() == 0 {
        Seq::empty()
    } else {
        let earlier = tables_of(entries.drop_last(), schema);
        if entries.last().schema == schema {
            earlier.push(entries.last().table)
        } else {
            earlier
        }
    }
}

/// The columns listed for a table, in the order of the listing.
pub open spec fn columns_of(
    entries: Seq<ColumnEntry>,
    schema: Seq<char>,
    table: Seq<char>,
) -> Seq<JsonView>
    decreases entries.len(),
{
    if entries.len() == 0 {
        Seq::empty()
    } else {
        let earlier = columns_of(entries.drop_last(), schema, table);
        if entries.last().schema == schema && entries.last().table == table {
            earlier.push(entries.last().column)
        } else {
            earlier
        }
    }
}

/// The tables of a schema by name, each with its columns.
pub open spec fn tables_in(entries: Seq<ColumnEntry>, schema: Seq<char>) -> Seq<
    (Seq<char>, Seq<JsonView>),
> {
    sorted_names(tables_of(entries, schema)).map_values(
        |table: Seq<char>| (table, columns_of(entries, schema, table)),
    )
}

/// The schemas by name, each with its tables.
pub open spec fn grouped(entries: Seq<ColumnEntry>) -> Seq<
    (Seq<char>, Seq<(Seq<char>, Seq<JsonView>)>),
> {
    sorted_names(schemas_of(entries)).map_values(
        |schema: Seq<char>| (schema, tables_in(entries, schema)),
    )
}

/// How a table is described.
pub open spec fn table_view(schema: Seq<char>, table: (Seq<char>, Seq<JsonView>)) -> JsonView {
    JsonView::Object(
        map![
            "schema"@ => JsonView::String(schema),
            "name"@ => JsonView::String(table.0),
            "kind"@ => JsonView::String("table"@),
            "columns"@ => JsonView::Array(table.1),
            "indexes"@ => JsonView::Array(Seq::empty()),
            "primaryKey"@ => JsonView::Array(Seq::empty()),
            "foreignKeys"@ => JsonView::Array(Seq::empty()),
        ],
    )
}

/// How a schema is described.
pub open spec fn schema_view(schema: (Seq<char>, Seq<(Seq<char>, Seq<JsonView>)>)) -> JsonView {
    JsonView::Object(
        map![
            "name"@ => JsonView::String(schema.0),
            "objects"@ => JsonView::Array(
                schema.1.map_values(
                    |table: (Seq<char>, Seq<JsonView>)| table_view(schema.0, table),
                ),
            ),
        ],
    )
}

/// How a catalog is described.
pub open spec fn catalog_view(
    schemas: Seq<(Seq<char>, Seq<(Seq<char>, Seq<JsonView>)>)>,
) -> JsonView {
    JsonView::Object(
        map![
            "schemas"@ => JsonView::Array(
                schemas.map_values(
                    |schema: (Seq<char>, Seq<(Seq<char>, Seq<JsonView>)>)| schema_view(schema),
                ),
            ),
        ],
    )
}

/// The catalog that a column listing gives. One that lacks a column it is read
/// by gives an empty catalog.
pub open spec fn metadata_view(columns: Seq<Seq<char>>, rows: Seq<Seq<JsonView>>) -> JsonView {
    match places_of(columns) {
        Some(places) => catalog_view(grouped(listed(places, rows))),
        None => catalog_view(Seq::empty()),
    }
}

/// Whether the names are in order, each there once.
pub open spec fn ordered(names: Seq<Seq<char>>) -> bool {
    forall|i: int, j: int| 0 <= i < j < names.len() ==> precedes(#[trigger] names[i], #[trigger] names[j])
}

/// Adding a name keeps the order and adds that name alone.
proof fn lemma_with_name(names: Seq<Seq<char>>, name: Seq<char>)
    requires
        ordered(names),
    ensures
        ordered(with_name(names, name)),
        forall|n: Seq<char>| #[trigger]
            with_name(names, name).contains(n) <==> n == name || names.contains(n),
    decreases names.len(),
{
    let next = with_name(names, name);
    if names.len() == 0 {
        assert(next[0] == name);
    } else if names[0] == name {
        assert(names.contains(name));
    } else if precedes(name, names[0]) {
        assert forall|j: int| 0 <= j < names.len() implies precedes(name, #[trigger] names[j]) by {
            if j > 0 {
                precedes_transitive(name, names[0], names[j]);
            }
        }
        assert(next[0] == name);
        assert forall|n: Seq<char>| names.contains(n) implies #[trigger] next.contains(n) by {
            let i = choose|i: int| 0 <= i < names.len() && names[i] == n;
            assert(next[i + 1] == n);
        }
    } else {
        let rest = names.skip(1);
        precedes_total(name, names[0]);
        assert(ordered(rest)) by {
            assert forall|i: int, j: int| 0 <= i < j < rest.len() implies precedes(
                #[trigger] rest[i],
                #[trigger] rest[j],
            ) by {
                assert(rest[i] == names[i + 1] && rest[j] == names[j + 1]);
            }
        }
        lemma_with_name(rest, name);
        let tail = with_name(rest, name);
        assert forall|j: int| 0 <= j < tail.len() implies precedes(names[0], #[trigger] tail[j]) by {
            assert(tail.contains(tail[j]));
            if tail[j] != name {
                assert(rest.contains(tail[j]));
                let k = choose|k: int| 0 <= k < rest.len() && rest[k] == tail[j];
                assert(names[k + 1] == tail[j]);
            }
        }
        assert forall|n: Seq<char>| #[trigger]
            next.contains(n) <==> n == name || names.contains(n) by {
            if next.contains(n) {
                let i = choose|i: int| 0 <= i < next.len() && next[i] == n;
                if i > 0 {
                    assert(tail[i - 1] == n);
                    assert(tail.contains(n));
                    if n != name {
                        let k = choose|k: int| 0 <= k < rest.len() && rest[k] == n;
                        assert(names[k + 1] == n);
                    }
                }
            }
            if n == name || names.contains(n) {
                if n != name && n == names[0] {
                    assert(next[0] == n);
                } else {
                    if n != name {
                        let k = choose|k: int| 0 <= k < names.len() && names[k] == n;
                        assert(rest[k - 1] == n);
                        assert(rest.contains(n));
                    }
                    assert(tail.contains(n));
                    let i = choose|i: int| 0 <= i < tail.len() && tail[i] == n;
                    assert(next[i + 1] == n);
                }
            }
        }
    }
}

/// Sorting names keeps them all, each once, in order.
pub proof fn sorting_names(names: Seq<Seq<char>>)
    ensures
        ordered(sorted_names(names)),
        forall|n: Seq<char>| #[trigger] sorted_names(names).contains(n) <==> names.contains(n),
    decreases names.len(),
{
    if names.len() > 0 {
        sorting_names(names.drop_last());
        lemma_with_name(sorted_names(names.drop_last()), names.last());
        assert forall|n: Seq<char>| #[trigger]
            sorted_names(names).contains(n) <==> names.contains(n) by {
            if names.contains(n) {
                let i = choose|i: int| 0 <= i < names.len() && names[i] == n;
                if i < names.len() - 1 {
                    assert(names.drop_last()[i] == n);
                    assert(names.drop_last().contains(n));
                }
            }
            if sorted_names(names).contains(n) && n != names.last() {
                assert(names.drop_last().contains(n));
                let i = choose|i: int| 0 <= i < names.drop_last().len() && names.drop_last()[i] == n;
                assert(names[i] == n);
            }
        }
    }
}

/// Where a name goes into ordered names.
proof fn lemma_with_name_at(names: Seq<Seq<char>>, name: Seq<char>, at: int)
    requires
        ordered(names),
        0 <= at <= names.len(),
        forall|k: int| 0 <= k < at ==> precedes(#[trigger] names[k], name),
        at < names.len() ==> names[at] == name || precedes(name, names[at]),
    ensures
        with_name(names, name) == (if at < names.len() && names[at] == name {
            names
        } else {
            names.insert(at, name)
        }),
    decreases names.len(),
{
    if names.len() == 0 {
        assert(names.insert(at, name) =~= seq![name]);
    } else if at == 0 {
        if names[0] != name {
            assert(names.insert(0, name) =~= seq![name] + names);
        }
    } else {
        let rest = names.skip(1);
        assert(precedes(names[0], name));
        if names[0] == name {
            precedes_irreflexive(name);
        }
        if precedes(name, names[0]) {
            precedes_transitive(name, names[0], name);
            precedes_irreflexive(name);
        }
        assert forall|i: int, j: int| 0 <= i < j < rest.len() implies precedes(
            #[trigger] rest[i],
            #[trigger] rest[j],
        ) by {
            assert(rest[i] == names[i + 1] && rest[j] == names[j + 1]);
        }
        assert forall|k: int| 0 <= k < at - 1 implies precedes(#[trigger] rest[k], name) by {
            assert(rest[k] == names[k + 1]);
        }
        lemma_with_name_at(rest, name, at - 1);
        if at < names.len() && names[at] == name {
            assert(seq![names[0]] + rest =~= names);
        } else {
            assert(seq![names[0]] + rest.insert(at - 1, name) =~= names.insert(at, name));
        }
    }
}

/// A schema without listed columns has no tables.
proof fn lemma_no_tables(entries: Seq<ColumnEntry>, schema: Seq<char>)
    requires
        !schemas_of(entries).contains(schema),
    ensures
        tables_of(entries, schema).len() == 0,
    decreases entries.len(),
{
    if entries.len() > 0 {
        let earlier = entries.drop_last();
        assert(schemas_of(entries)[entries.len() - 1] == entries.last().schema);
        if schemas_of(earlier).contains(schema) {
            let i = choose|i: int|
                0 <= i < schemas_of(earlier).len() && schemas_of(earlier)[i] == schema;
            assert(schemas_of(entries)[i] == schema);
        }
        lemma_no_tables(earlier, schema);
    }
}

/// A table without listed columns has none.
proof fn lemma_no_columns(entries: Seq<ColumnEntry>, schema: Seq<char>, table: Seq<char>)
    requires
        !tables_of(entries, schema).contains(table),
    ensures
        columns_of(entries, schema, table).len() == 0,
    decreases entries.len(),
{
    if entries.len() > 0 {
        let earlier = entries.drop_last();
        let all = tables_of(entries, schema);
        let had = tables_of(earlier, schema);
        if had.contains(table) {
            let i = choose|i: int| 0 <= i < had.len() && had[i] == table;
            assert(all[i] == table);
        }
        if entries.last().schema == schema {
            assert(all[had.len() as int] == entries.last().table);
        }
        lemma_no_columns(earlier, schema, table);
    }
}

/// One more listed column changes no other schema.
proof fn lemma_other_schema(entries: Seq<ColumnEntry>, entry: ColumnEntry, schema: Seq<char>)
    requires
        schema != entry.schema,
    ensures
        tables_in(entries.push(entry), schema) == tables_in(entries, schema),
{
    let next = entries.push(entry);
    assert(next.drop_last() =~= entries);
    assert(tables_of(next, schema) == tables_of(entries, schema));
    assert(tables_in(next, schema) =~= tables_in(entries, schema)) by {
        assert forall|i: int| 0 <= i < tables_in(entries, schema).len() implies tables_in(
            next,
            schema,
        )[i] == tables_in(entries, schema)[i] by {
            let table = sorted_names(tables_of(entries, schema))[i];
            assert(columns_of(next, schema, table) == columns_of(entries, schema, table));
        }
    }
}

/// One more listed column changes no other table.
proof fn lemma_other_table(entries: Seq<ColumnEntry>, entry: ColumnEntry, table: Seq<char>)
    ensures
        columns_of(entries.push(entry), entry.schema, table) == (if table == entry.table {
            columns_of(entries, entry.schema, table).push(entry.column)
        } else {
            columns_of(entries, entry.schema, table)
        }),
        tables_of(entries.push(entry), entry.schema) == tables_of(entries, entry.schema).push(
            entry.table,
        ),
{
    assert(entries.push(entry).drop_last() =~= entries);
}

/// Sorting one more name adds it to the sorted ones.
proof fn lemma_sorted_push(names: Seq<Seq<char>>, name: Seq<char>)
    ensures
        sorted_names(names.push(name)) == with_name(sorted_names(names), name),
{
    assert(names.push(name).drop_last() =~= names);
}

/// What goes under one name.
#[derive(Debug)]
pub struct Group<T> {
    pub name: String,
    pub items: Vec<T>,
}

/// The names of a list of groups.
pub open spec fn group_names<T>(groups: Seq<Group<T>>) -> Seq<Seq<char>> {
    groups.map_values(|g: Group<T>| g.name@)
}

/// A table and its columns.
pub open spec fn table_group(group: Group<Json>) -> (Seq<char>, Seq<JsonView>) {
    (group.name@, items_view(group.items@))
}

/// The tables of a list of groups.
pub open spec fn table_groups(groups: Seq<Group<Json>>) -> Seq<(Seq<char>, Seq<JsonView>)> {
    groups.map_values(|g: Group<Json>| table_group(g))
}

/// The schemas of a list of groups.
pub open spec fn schema_groups(groups: Seq<Group<Group<Json>>>) -> Seq<
    (Seq<char>, Seq<(Seq<char>, Seq<JsonView>)>),
> {
    groups.map_values(|g: Group<Group<Json>>| (g.name@, table_groups(g.items@)))
}

/// The place of the group under `name`, made where there is none.
fn group_for<T>(groups: &mut Vec<Group<T>>, name: &str) -> (at: usize)
    requires
        ordered(group_names(old(groups)@)),
    ensures
        at < final(groups)@.len(),
        final(groups)@[at as int].name@ == name@,
        group_names(final(groups)@) == with_name(group_names(old(groups)@), name@),
        group_names(old(groups)@).contains(name@) ==> final(groups)@ == old(groups)@,
        !group_names(old(groups)@).contains(name@) ==> {
            &&& at <= old(groups)@.len()
            &&& final(groups)@ == old(groups)@.insert(at as int, final(groups)@[at as int])
            &&& final(groups)@[at as int].items@.len() == 0
        },
{
    let ghost names = group_names(groups@);
    let ghost before = groups@;
    let mut at: usize = 0;
    while at < groups.len() && comes_before(groups[at].name.as_str(), name)
        invariant
            at <= groups@.len(),
            names == group_names(groups@),
            forall|k: int| 0 <= k < at ==> precedes(#[trigger] names[k], name@),
        decreases groups@.len() - at,
    {
        assert(names[at as int] == groups@[at as int].name@);
        at += 1;
    }
    proof {
        if at < names.len() {
            assert(names[at as int] == groups@[at as int].name@);
            precedes_total(names[at as int], name@);
        }
        lemma_with_name_at(names, name@, at as int);
    }
    if at < groups.len() && same(groups[at].name.as_str(), name) {
        assert(names.contains(name@));
        return at;
    }
    proof {
        if names.contains(name@) {
            let k = choose|k: int| 0 <= k < names.len() && names[k] == name@;
            precedes_irreflexive(name@);
            if k > at {
                assert(precedes(names[at as int], names[k]));
                precedes_transitive(name@, names[at as int], name@);
            }
        }
    }
    let group = Group { name: name.to_owned(), items: Vec::new() };
    groups.insert(at, group);
    assert(group_names(groups@) =~= names.insert(at as int, name@));
    at
}

/// Files a column under its table and schema.
fn add_column(
    schemas: &mut Vec<Group<Group<Json>>>,
    schema: &str,
    table: &str,
    column: Json,
    Ghost(entries): Ghost<Seq<ColumnEntry>>,
)
    requires
        schema_groups(old(schemas)@) == grouped(entries),
    ensures
        schema_groups(final(schemas)@) == grouped(
            entries.push(ColumnEntry { schema: schema@, table: table@, column: column@ }),
        ),
{
    broadcast use group_json_view;

    let ghost entry = ColumnEntry { schema: schema@, table: table@, column: column@ };
    let ghost next = entries.push(entry);
    let ghost names = sorted_names(schemas_of(entries));
    let ghost tables = sorted_names(tables_of(entries, schema@));
    let ghost before = schemas@;
    proof {
        assert(schema_groups(before).len() == grouped(entries).len());
        assert forall|i: int| 0 <= i < before.len() implies (#[trigger] before[i]).name@ == names[i]
            && table_groups(before[i].items@) == tables_in(entries, names[i]) by {
            assert(schema_groups(before)[i] == grouped(entries)[i]);
        }
        assert(group_names(before) =~= names);
        sorting_names(schemas_of(entries));
        sorting_names(tables_of(entries, schema@));
    }
    let at: usize = group_for(schemas, schema);
    let ghost middle = schemas@;
    proof {
        if !names.contains(schema@) {
            lemma_no_tables(entries, schema@);
            assert(tables_in(entries, schema@) =~= Seq::empty());
            assert(table_groups(middle[at as int].items@) =~= Seq::empty());
        }
        assert forall|i: int| 0 <= i < middle.len() implies table_groups(
            (#[trigger] middle[i]).items@,
        ) == tables_in(entries, middle[i].name@) by {
            if names.contains(schema@) {
                assert(middle[i] == before[i]);
            } else if i < at {
                assert(middle[i] == before[i]);
            } else if i > at {
                assert(middle[i] == before[i - 1]);
            }
        }
    }
    let ghost inner = middle[at as int].items@;
    proof {
        assert(table_groups(inner).len() == tables_in(entries, schema@).len());
        assert forall|j: int| 0 <= j < inner.len() implies (#[trigger] inner[j]).name@ == tables[j]
            && items_view(inner[j].items@) == columns_of(entries, schema@, tables[j]) by {
            assert(table_groups(inner)[j] == tables_in(entries, schema@)[j]);
        }
        assert(group_names(inner) =~= tables);
    }
    let group = &mut schemas[at];
    let place: usize = group_for(&mut group.items, table);
    let ghost placed = group.items@;
    group.items[place].items.push(column);
    let ghost done = group.items@;
    proof {
        if !tables.contains(table@) {
            lemma_no_columns(entries, schema@, table@);
            assert(items_view(placed[place as int].items@) =~= Seq::empty());
            assert(columns_of(entries, schema@, table@) =~= Seq::empty());
        }
        assert forall|j: int| 0 <= j < placed.len() implies items_view(
            (#[trigger] placed[j]).items@,
        ) == columns_of(entries, schema@, placed[j].name@) by {
            if tables.contains(table@) {
                assert(placed[j] == inner[j]);
            } else if j < place {
                assert(placed[j] == inner[j]);
            } else if j > place {
                assert(placed[j] == inner[j - 1]);
            }
        }
        let new_tables = sorted_names(tables_of(next, schema@));
        lemma_other_table(entries, entry, table@);
        lemma_sorted_push(tables_of(entries, schema@), table@);
        sorting_names(tables_of(next, schema@));
        assert(new_tables == group_names(placed));
        assert(table_groups(done) =~= tables_in(next, schema@)) by {
            assert forall|j: int| 0 <= j < done.len() implies table_groups(done)[j] == tables_in(
                next,
                schema@,
            )[j] by {
                assert(group_names(placed)[j] == placed[j].name@);
                assert(new_tables[j] == placed[j].name@);
                lemma_other_table(entries, entry, new_tables[j]);
                if j != place {
                    assert(done[j] == placed[j]);
                    assert(new_tables[place as int] == placed[place as int].name@);
                    if new_tables[j] == table@ {
                        precedes_irreflexive(table@);
                    }
                } else {
                    assert(items_view(done[j].items@) =~= items_view(placed[j].items@).push(
                        column@,
                    ));
                }
            }
        }
    }
    proof {
        let new_names = sorted_names(schemas_of(next));
        lemma_sorted_push(schemas_of(entries), schema@);
        assert(schemas_of(next) =~= schemas_of(entries).push(schema@));
        sorting_names(schemas_of(next));
        assert(new_names == group_names(middle));
        assert forall|i: int| 0 <= i < schemas@.len() implies schema_groups(schemas@)[i] == grouped(
            next,
        )[i] by {
            assert(group_names(middle)[i] == middle[i].name@);
            assert(group_names(middle)[at as int] == middle[at as int].name@);
            if i != at {
                assert(schemas@[i] == middle[i]);
                if new_names[i] == schema@ {
                    precedes_irreflexive(schema@);
                }
                lemma_other_schema(entries, entry, new_names[i]);
            }
        }
        assert(schema_groups(schemas@) =~= grouped(next));
    }
}

/// The place of the first `name`.
fn position(columns: &[String], name: &str) -> (r: Option<usize>)
    ensures
        match r {
            Some(at) => place_of(texts(columns@), name@) == Some(at as int),
            None => place_of(texts(columns@), name@) is None,
        },
{
    let ghost names = texts(columns@);
    let mut i: usize = 0;
    assert(names.skip(0) =~= names);
    while i < columns.len()
        invariant
            i <= columns@.len(),
            names == texts(columns@),
            place_of(names, name@) == (match place_of(names.skip(i as int), name@) {
                Some(at) => Some(at + i),
                None => None,
            }),
        decreases columns@.len() - i,
    {
        assert(names.skip(i as int)[0] == columns@[i as int]@);
        if same(columns[i].as_str(), name) {
            return Some(i);
        }
        assert(names.skip(i as int).skip(1) =~= names.skip(i + 1));
        i += 1;
    }
    None
}

/// The text in a cell, nothing where there is none.
pub fn string_cell(row: &Vec<Json>, index: usize) -> (text: String)
    ensures
        text@ == cell_text(items_view(row@), index as int),
{
    broadcast use group_json_view;

    if index < row.len() {
        match row[index].as_str() {
            Some(text) => text.to_owned(),
            None => String::new(),
        }
    } else {
        String::new()
    }
}

/// The integer in a cell, zero where there is none.
fn integer_cell(row: &Vec<Json>, index: Option<usize>) -> (n: i64)
    ensures
        n == cell_integer(
            items_view(row@),
            match index {
                Some(at) => Some(at as int),
                None => None,
            },
        ),
{
    broadcast use group_json_view;

    match index {
        Some(at) => if at < row.len() {
            match row[at].as_i64() {
                Some(n) => n,
                None => 0,
            }
        } else {
            0
        },
        None => 0,
    }
}

/// The description of a column.
fn column_json(name: String, data_type: String, ordinal: i64) -> (r: Json)
    ensures
        r@ == column_view(name@, data_type@, ordinal),
{
    broadcast use group_json_view;

    let mut fields = no_fields();
    put_field(&mut fields, "name", Json::String(name));
    put_field(&mut fields, "dataType", Json::String(data_type));
    put_field(&mut fields, "nullable", Json::Bool(true));
    put_field(&mut fields, "ordinal", Json::Number(JsonNumber::Signed(ordinal)));
    Json::Object(fields)
}

/// An array without items.
fn no_items() -> (r: Json)
    ensures
        r@ == JsonView::Array(Seq::empty()),
{
    broadcast use group_json_view;

    let items: Vec<Json> = Vec::new();
    assert(items_view(items@) =~= Seq::empty());
    Json::Array(items)
}

/// The description of a table.
fn table_json(schema: &str, table: Group<Json>) -> (r: Json)
    ensures
        r@ == table_view(schema@, table_group(table)),
{
    broadcast use group_json_view;

    let mut fields = no_fields();
    put_field(&mut fields, "schema", Json::String(schema.to_owned()));
    put_field(&mut fields, "name", Json::String(table.name));
    put_field(&mut fields, "kind", Json::String("table".to_owned()));
    put_field(&mut fields, "columns", Json::Array(table.items));
    put_field(&mut fields, "indexes", no_items());
    put_field(&mut fields, "primaryKey", no_items());
    put_field(&mut fields, "foreignKeys", no_items());
    Json::Object(fields)
}

/// The description of a schema.
fn schema_json(schema: Group<Group<Json>>) -> (r: Json)
    ensures
        r@ == schema_view((schema.name@, table_groups(schema.items@))),
{
    broadcast use group_json_view;

    let Group { name, items: tables } = schema;
    let mut objects: Vec<Json> = Vec::new();
    for table in it: tables
        invariant
            it.seq() == tables@,
            objects@.len() == it.index(),
            forall|j: int|
                0 <= j < objects@.len() ==> (#[trigger] objects@[j])@ == table_view(
                    name@,
                    table_group(tables@[j]),
                ),
    {
        objects.push(table_json(name.as_str(), table));
    }
    proof {
        let seen = (name@, table_groups(tables@));
        assert(items_view(objects@) =~= seen.1.map_values(
            |table: (Seq<char>, Seq<JsonView>)| table_view(seen.0, table),
        ));
    }
    let mut fields = no_fields();
    put_field(&mut fields, "name", Json::String(name));
    put_field(&mut fields, "objects", Json::Array(objects));
    Json::Object(fields)
}

/// The description of a catalog.
fn catalog_json(schemas: Vec<Group<Group<Json>>>) -> (r: Json)
    ensures
        r@ == catalog_view(schema_groups(schemas@)),
{
    broadcast use group_json_view;

    let mut list: Vec<Json> = Vec::new();
    for schema in it: schemas
        invariant
            it.seq() == schemas@,
            list@.len() == it.index(),
            forall|j: int|
                0 <= j < list@.len() ==> (#[trigger] list@[j])@ == schema_view(
                    schema_groups(schemas@)[j],
                ),
    {
        list.push(schema_json(schema));
    }
    assert(items_view(list@) =~= schema_groups(schemas@).map_values(
        |schema: (Seq<char>, Seq<(Seq<char>, Seq<JsonView>)>)| schema_view(schema),
    ));
    let mut fields = no_fields();
    put_field(&mut fields, "schemas", Json::Array(list));
    Json::Object(fields)
}

/// The catalog that a column listing gives. One that lacks a column it is read
/// by gives an empty catalog.
pub fn metadata_from_columns(columns: &[String], rows: Vec<Vec<Json>>) -> (r: Json)
    ensures
        r@ == metadata_view(texts(columns@), rows_view(rows@)),
{
    let schema_at = position(columns, "table_schema");
    let table_at = position(columns, "table_name");
    let column_at = position(columns, "column_name");
    let type_at = position(columns, "data_type");
    let ordinal_at = position(columns, "ordinal_position");
    let mut schemas: Vec<Group<Group<Json>>> = Vec::new();
    assert(schema_groups(schemas@) =~= Seq::empty());
    let (schema_at, table_at, column_at, type_at) = match (schema_at, table_at, column_at, type_at) {
        (Some(schema), Some(table), Some(column), Some(data_type)) => (
            schema,
            table,
            column,
            data_type,
        ),
        _ => {
            return catalog_json(schemas);
        },
    };
    let ghost places = places_of(texts(columns@))->0;
    let ghost all = rows_view(rows@);
    assert(all.take(0) =~= Seq::empty());
    assert(grouped(Seq::empty()) =~= Seq::empty());
    for row in it: rows
        invariant
            it.seq() == rows@,
            all == rows_view(rows@),
            places.schema == schema_at,
            places.table == table_at,
            places.column == column_at,
            places.data_type == type_at,
            places.ordinal == (match ordinal_at {
                Some(at) => Some(at as int),
                None => None,
            }),
            schema_groups(schemas@) == grouped(listed(places, all.take(it.index()))),
    {
        let ghost i = it.index();
        proof {
            assert(all[i] == items_view(row@));
            assert(all.take(i + 1).drop_last() =~= all.take(i));
            assert(all.take(i + 1).last() == items_view(row@));
        }
        let schema = string_cell(&row, schema_at);
        let table = string_cell(&row, table_at);
        let column = string_cell(&row, column_at);
        if !(schema.as_str().is_empty() || table.as_str().is_empty() || column.as_str().is_empty()) {
            let ordinal: i64 = integer_cell(&row, ordinal_at);
            let described = column_json(column, string_cell(&row, type_at), ordinal);
            add_column(
                &mut schemas,
                schema.as_str(),
                table.as_str(),
                described,
                Ghost(listed(places, all.take(i))),
            );
        }
    }
    assert(all.take(all.len() as int) =~= all);
    catalog_json(schemas)
}

/// Every row that names schema, table and column is in the catalog: its schema
/// among the schemas, its table among those of the schema, its column among
/// those of the table.
pub proof fn catalog_lists_every_column(places: Places, rows: Seq<Seq<JsonView>>, i: int)
    requires
        0 <= i < rows.len(),
        is_listed(places, rows[i]),
    ensures
        ({
            let entries = listed(places, rows);
            let entry = listed_column(places, rows[i]);
            &&& sorted_names(schemas_of(entries)).contains(entry.schema)
            &&& sorted_names(tables_of(entries, entry.schema)).contains(entry.table)
            &&& columns_of(entries, entry.schema, entry.table).contains(entry.column)
        }),
{
    let entries = listed(places, rows);
    let entry = listed_column(places, rows[i]);
    lemma_listed(places, rows, i);
    let k = choose|k: int| 0 <= k < entries.len() && entries[k] == entry;
    assert(schemas_of(entries)[k] == entry.schema);
    sorting_names(schemas_of(entries));
    lemma_entry_grouped(entries, k);
    sorting_names(tables_of(entries, entry.schema));
}

/// A row that names schema, table and column is listed.
proof fn lemma_listed(places: Places, rows: Seq<Seq<JsonView>>, i: int)
    requires
        0 <= i < rows.len(),
        is_listed(places, rows[i]),
    ensures
        listed(places, rows).contains(listed_column(places, rows[i])),
    decreases rows.len(),
{
    let earlier = listed(places, rows.drop_last());
    let all = listed(places, rows);
    if i == rows.len() - 1 {
        assert(all[earlier.len() as int] == listed_column(places, rows[i]));
    } else {
        assert(rows.drop_last()[i] == rows[i]);
        lemma_listed(places, rows.drop_last(), i);
        let k = choose|k: int|
            0 <= k < earlier.len() && earlier[k] == listed_column(places, rows[i]);
        assert(all[k] == earlier[k]);
    }
}

/// A listed column is among those of its table, and that among those of its schema.
proof fn lemma_entry_grouped(entries: Seq<ColumnEntry>, k: int)
    requires
        0 <= k < entries.len(),
    ensures
        tables_of(entries, entries[k].schema).contains(entries[k].table),
        columns_of(entries, entries[k].schema, entries[k].table).contains(entries[k].column),
    decreases entries.len(),
{
    let earlier = entries.drop_last();
    let schema = entries[k].schema;
    let table = entries[k].table;
    let tables = tables_of(entries, schema);
    let columns = columns_of(entries, schema, table);
    if k == entries.len() - 1 {
        assert(tables[tables.len() - 1] == table);
        assert(columns[columns.len() - 1] == entries[k].column);
    } else {
        assert(earlier[k] == entries[k]);
        lemma_entry_grouped(earlier, k);
        let i = choose|i: int|
            0 <= i < tables_of(earlier, schema).len() && tables_of(earlier, schema)[i] == table;
        assert(tables[i] == table);
        let j = choose|j: int|
            0 <= j < columns_of(earlier, schema, table).len() && columns_of(
                earlier,
                schema,
                table,
            )[j] == entries[k].column;
        assert(columns[j] == entries[k].column);
    }
}

/// Every column of a table comes from an entry for that table.
proof fn lemma_column_listed(
    entries: Seq<ColumnEntry>,
    schema: Seq<char>,
    table: Seq<char>,
    column: JsonView,
)
    requires
        columns_of(entries, schema, table).contains(column),
    ensures
        entries.contains(ColumnEntry { schema, table, column }),
    decreases entries.len(),
{
    let earlier = entries.drop_last();
    let entry = ColumnEntry { schema, table, column };
    let all = columns_of(entries, schema, table);
    let had = columns_of(earlier, schema, table);
    let i = choose|i: int| 0 <= i < all.len() && all[i] == column;
    if entries.len() > 0 {
        if i < had.len() {
            assert(had[i] == column);
            lemma_column_listed(earlier, schema, table, column);
            let k = choose|k: int| 0 <= k < earlier.len() && earlier[k] == entry;
            assert(entries[k] == entry);
        } else {
            assert(entries.last() == entry);
            assert(entries[entries.len() - 1] == entry);
        }
    }
}

/// Every entry comes from a row.
proof fn lemma_row_listed(places: Places, rows: Seq<Seq<JsonView>>, entry: ColumnEntry)
    requires
        listed(places, rows).contains(entry),
    ensures
        exists|i: int|
            0 <= i < rows.len() && is_listed(places, #[trigger] rows[i]) && listed_column(
                places,
                rows[i],
            ) == entry,
    decreases rows.len(),
{
    let all = listed(places, rows);
    let k = choose|k: int| 0 <= k < all.len() && all[k] == entry;
    if rows.len() > 0 {
        let earlier = listed(places, rows.drop_last());
        if k < earlier.len() {
            assert(earlier[k] == entry);
            lemma_row_listed(places, rows.drop_last(), entry);
            let i = choose|i: int|
                0 <= i < rows.drop_last().len() && is_listed(
                    places,
                    #[trigger] rows.drop_last()[i],
                ) && listed_column(places, rows.drop_last()[i]) == entry;
            assert(rows[i] == rows.drop_last()[i]);
        } else {
            assert(rows[rows.len() - 1] == rows.last());
        }
    }
}

/// Nothing is in the catalog that no row listed: every column of a table comes
/// from a row that names it, its table and its schema.
pub proof fn catalog_lists_nothing_else(
    places: Places,
    rows: Seq<Seq<JsonView>>,
    schema: Seq<char>,
    table: Seq<char>,
    column: JsonView,
)
    requires
        columns_of(listed(places, rows), schema, table).contains(column),
    ensures
        exists|i: int|
            0 <= i < rows.len() && is_listed(places, #[trigger] rows[i]) && listed_column(
                places,
                rows[i],
            ) == (ColumnEntry { schema, table, column }),
{
    lemma_column_listed(listed(places, rows), schema, table, column);
    lemma_row_listed(places, rows, ColumnEntry { schema, table, column });
}

/// A table that columns are listed for has columns.
proof fn lemma_has_columns(entries: Seq<ColumnEntry>, schema: Seq<char>, table: Seq<char>)
    requires
        tables_of(entries, schema).contains(table),
    ensures
        columns_of(entries, schema, table).len() > 0,
    decreases entries.len(),
{
    let all = tables_of(entries, schema);
    let i = choose|i: int| 0 <= i < all.len() && all[i] == table;
    if entries.len() > 0 {
        let had = tables_of(entries.drop_last(), schema);
        if i < had.len() {
            assert(had[i] == table);
            lemma_has_columns(entries.drop_last(), schema, table);
        }
    }
}

/// No schema in the catalog is without tables, and no table without columns.
pub proof fn catalog_has_nothing_empty(entries: Seq<ColumnEntry>, i: int)
    requires
        0 <= i < grouped(entries).len(),
    ensures
        grouped(entries)[i].1.len() > 0,
        forall|j: int|
            0 <= j < grouped(entries)[i].1.len() ==> (#[trigger] grouped(entries)[i].1[j]).1.len()
                > 0,
{
    let names = sorted_names(schemas_of(entries));
    let schema = names[i];
    let tables = sorted_names(tables_of(entries, schema));
    sorting_names(schemas_of(entries));
    sorting_names(tables_of(entries, schema));
    assert(names.contains(schema));
    let k = choose|k: int| 0 <= k < entries.len() && schemas_of(entries)[k] == schema;
    lemma_entry_grouped(entries, k);
    assert(tables.contains(entries[k].table));
    assert forall|j: int| 0 <= j < grouped(entries)[i].1.len() implies (#[trigger] grouped(
        entries,
    )[i].1[j]).1.len() > 0 by {
        assert(tables.contains(tables[j]));
        lemma_has_columns(entries, schema, tables[j]);
    }
}

/// Schemas stand in the catalog in the order of their names, each once, and so
/// do the tables of each.
pub proof fn catalog_in_order(entries: Seq<ColumnEntry>, i: int)
    ensures
        ordered(grouped(entries).map_values(|s: (Seq<char>, Seq<(Seq<char>, Seq<JsonView>)>)| s.0)),
        0 <= i < grouped(entries).len() ==> ordered(
            grouped(entries)[i].1.map_values(|t: (Seq<char>, Seq<JsonView>)| t.0),
        ),
{
    let names = sorted_names(schemas_of(entries));
    sorting_names(schemas_of(entries));
    assert(grouped(entries).map_values(|s: (Seq<char>, Seq<(Seq<char>, Seq<JsonView>)>)| s.0)
        =~= names);
    if 0 <= i < grouped(entries).len() {
        sorting_names(tables_of(entries, names[i]));
        assert(grouped(entries)[i].1.map_values(|t: (Seq<char>, Seq<JsonView>)| t.0)
            =~= sorted_names(tables_of(entries, names[i])));
    }
}

/// Whether `at` is the first place of `name`.
pub open spec fn stands_first(names: Seq<Seq<char>>, name: Seq<char>, at: int) -> bool {
    &&& 0 <= at < names.len()
    &&& names[at] == name
    &&& forall|j: int| 0 <= j < at ==> names[j] != name
}

/// The text in a row at a place, the empty one where there is no text.
pub open spec fn text_in(row: Seq<JsonView>, at: int) -> Seq<char> {
    if 0 <= at < row.len() && row[at] is String {
        row[at]->String_0
    } else {
        Seq::empty()
    }
}

/// The integer in a row at a place, zero where there is none.
pub open spec fn integer_in(row: Seq<JsonView>, at: Option<int>) -> i64 {
    if at is Some && 0 <= at->0 < row.len() && row[at->0].as_i64() is Some {
        row[at->0].as_i64()->0
    } else {
        0
    }
}

/// Whether `at` says where a listing with these columns has what, the ordinal
/// being the one column that may be missing.
pub open spec fn is_read_at(columns: Seq<Seq<char>>, at: Places) -> bool {
    &&& stands_first(columns, "table_schema"@, at.schema)
    &&& stands_first(columns, "table_name"@, at.table)
    &&& stands_first(columns, "column_name"@, at.column)
    &&& stands_first(columns, "data_type"@, at.data_type)
    &&& match at.ordinal {
        Some(place) => stands_first(columns, "ordinal_position"@, place),
        None => !columns.contains("ordinal_position"@),
    }
}

/// Whether a row of a listing is about a column of that table: it names schema and
/// table, and a column.
pub open spec fn is_about(
    row: Seq<JsonView>,
    at: Places,
    schema: Seq<char>,
    table: Seq<char>,
) -> bool {
    &&& schema.len() > 0
    &&& table.len() > 0
    &&& text_in(row, at.schema) == schema
    &&& text_in(row, at.table) == table
    &&& text_in(row, at.column).len() > 0
}

/// How many of the first `n` rows are about that table.
pub open spec fn rows_about(
    rows: Seq<Seq<JsonView>>,
    at: Places,
    schema: Seq<char>,
    table: Seq<char>,
    n: int,
) -> int
    decreases n,
{
    if n <= 0 {
        0
    } else {
        rows_about(rows, at, schema, table, n - 1) + (if is_about(rows[n - 1], at, schema, table) {
            1int
        } else {
            0int
        })
    }
}

/// Whether a value describes the column of a row: its name and data type as they
/// stand there, to the last character, its ordinal, and that it may be null.
pub open spec fn describes_column(value: JsonView, row: Seq<JsonView>, at: Places) -> bool {
    &&& value.get("name"@) == Some(JsonView::String(text_in(row, at.column)))
    &&& value.get("dataType"@) == Some(JsonView::String(text_in(row, at.data_type)))
    &&& value.get("nullable"@) == Some(JsonView::Bool(true))
    &&& value.get("ordinal"@) == Some(
        JsonView::Number(NumberView::integer(integer_in(row, at.ordinal))),
    )
    &&& forall|field: Seq<char>|
        (#[trigger] value.get(field)) is Some ==> field == "name"@ || field == "dataType"@ || field
            == "nullable"@ || field == "ordinal"@
}

/// Whether a value describes a table of a schema, with these columns and without
/// indexes and keys.
pub open spec fn describes_table(
    value: JsonView,
    schema: Seq<char>,
    table: Seq<char>,
    columns: Seq<JsonView>,
) -> bool {
    &&& value.get("schema"@) == Some(JsonView::String(schema))
    &&& value.get("name"@) == Some(JsonView::String(table))
    &&& value.get("kind"@) == Some(JsonView::String("table"@))
    &&& value.get("columns"@) == Some(JsonView::Array(columns))
    &&& value.get("indexes"@) == Some(JsonView::Array(Seq::empty()))
    &&& value.get("primaryKey"@) == Some(JsonView::Array(Seq::empty()))
    &&& value.get("foreignKeys"@) == Some(JsonView::Array(Seq::empty()))
    &&& forall|field: Seq<char>|
        (#[trigger] value.get(field)) is Some ==> field == "schema"@ || field == "name"@ || field
            == "kind"@ || field == "columns"@ || field == "indexes"@ || field == "primaryKey"@
            || field == "foreignKeys"@
}

/// Whether a value describes a schema with these tables.
pub open spec fn describes_schema(
    value: JsonView,
    schema: Seq<char>,
    tables: Seq<JsonView>,
) -> bool {
    &&& value.get("name"@) == Some(JsonView::String(schema))
    &&& value.get("objects"@) == Some(JsonView::Array(tables))
    &&& forall|field: Seq<char>|
        (#[trigger] value.get(field)) is Some ==> field == "name"@ || field == "objects"@
}

/// Whether a value describes a catalog of these schemas.
pub open spec fn describes_catalog(value: JsonView, schemas: Seq<JsonView>) -> bool {
    &&& value.get("schemas"@) == Some(JsonView::Array(schemas))
    &&& forall|field: Seq<char>| (#[trigger] value.get(field)) is Some ==> field == "schemas"@
}

/// No two fields of a description have one name.
proof fn lemma_description_fields_differ()
    ensures
        "name"@.len() == 4 && "kind"@.len() == 4,
        "name"@[0] == 'n' && "kind"@[0] == 'k',
        "schema"@.len() == 6,
        "columns"@.len() == 7 && "indexes"@.len() == 7 && "ordinal"@.len() == 7 && "objects"@.len()
            == 7,
        "columns"@[0] == 'c' && "indexes"@[0] == 'i',
        "dataType"@.len() == 8 && "nullable"@.len() == 8,
        "dataType"@[0] == 'd' && "nullable"@[0] == 'n',
        "primaryKey"@.len() == 10,
        "foreignKeys"@.len() == 11,
{
    reveal_strlit("name");
    reveal_strlit("kind");
    reveal_strlit("schema");
    reveal_strlit("columns");
    reveal_strlit("indexes");
    reveal_strlit("ordinal");
    reveal_strlit("objects");
    reveal_strlit("dataType");
    reveal_strlit("nullable");
    reveal_strlit("primaryKey");
    reveal_strlit("foreignKeys");
}

/// The first place of a name is found.
proof fn lemma_place_of(names: Seq<Seq<char>>, name: Seq<char>, at: int)
    requires
        stands_first(names, name, at),
    ensures
        place_of(names, name) == Some(at),
    decreases names.len(),
{
    if at > 0 {
        let rest = names.skip(1);
        assert(names[0] != name);
        assert(rest[at - 1] == names[at]);
        assert forall|j: int| 0 <= j < at - 1 implies rest[j] != name by {
            assert(rest[j] == names[j + 1]);
        }
        lemma_place_of(rest, name, at - 1);
    }
}

/// A name that is not there has no place.
proof fn lemma_no_place(names: Seq<Seq<char>>, name: Seq<char>)
    requires
        !names.contains(name),
    ensures
        place_of(names, name) is None,
    decreases names.len(),
{
    if names.len() > 0 {
        let rest = names.skip(1);
        assert(names[0] != name) by {
            assert(names.contains(names[0]));
        }
        if rest.contains(name) {
            let i = choose|i: int| 0 <= i < rest.len() && rest[i] == name;
            assert(names[i + 1] == name);
        }
        lemma_no_place(rest, name);
    }
}

/// Where a listing with these columns has what.
proof fn lemma_places(columns: Seq<Seq<char>>, at: Places)
    requires
        is_read_at(columns, at),
    ensures
        places_of(columns) == Some(at),
{
    lemma_place_of(columns, "table_schema"@, at.schema);
    lemma_place_of(columns, "table_name"@, at.table);
    lemma_place_of(columns, "column_name"@, at.column);
    lemma_place_of(columns, "data_type"@, at.data_type);
    if let Some(place) = at.ordinal {
        lemma_place_of(columns, "ordinal_position"@, place);
    } else {
        lemma_no_place(columns, "ordinal_position"@);
    }
}

/// What one more row adds to the columns of a table.
proof fn lemma_one_more_row(
    at: Places,
    rows: Seq<Seq<JsonView>>,
    schema: Seq<char>,
    table: Seq<char>,
    n: int,
)
    requires
        0 < n <= rows.len(),
        schema.len() > 0,
        table.len() > 0,
    ensures
        columns_of(listed(at, rows.take(n)), schema, table) == (if is_about(
            rows[n - 1],
            at,
            schema,
            table,
        ) {
            columns_of(listed(at, rows.take(n - 1)), schema, table).push(
                listed_column(at, rows[n - 1]).column,
            )
        } else {
            columns_of(listed(at, rows.take(n - 1)), schema, table)
        }),
{
    let row = rows[n - 1];
    let before = listed(at, rows.take(n - 1));
    assert(rows.take(n).drop_last() =~= rows.take(n - 1));
    assert(rows.take(n).last() == row);
    assert(text_in(row, at.schema) == cell_text(row, at.schema));
    assert(text_in(row, at.table) == cell_text(row, at.table));
    assert(text_in(row, at.column) == cell_text(row, at.column));
    if is_listed(at, row) {
        assert(before.push(listed_column(at, row)).drop_last() =~= before);
    }
}

/// A table has as many columns as there are rows about it.
proof fn lemma_columns_counted(
    at: Places,
    rows: Seq<Seq<JsonView>>,
    schema: Seq<char>,
    table: Seq<char>,
    n: int,
)
    requires
        0 <= n <= rows.len(),
        schema.len() > 0,
        table.len() > 0,
    ensures
        columns_of(listed(at, rows.take(n)), schema, table).len() == rows_about(
            rows,
            at,
            schema,
            table,
            n,
        ),
    decreases n,
{
    if n > 0 {
        lemma_columns_counted(at, rows, schema, table, n - 1);
        lemma_one_more_row(at, rows, schema, table, n);
    } else {
        assert(rows.take(0) =~= Seq::empty());
    }
}

/// The column of a row about a table stands behind those of the rows before it.
proof fn lemma_column_placed(
    at: Places,
    rows: Seq<Seq<JsonView>>,
    schema: Seq<char>,
    table: Seq<char>,
    n: int,
    i: int,
)
    requires
        0 <= i < n <= rows.len(),
        is_about(rows[i], at, schema, table),
    ensures
        0 <= rows_about(rows, at, schema, table, i) < columns_of(
            listed(at, rows.take(n)),
            schema,
            table,
        ).len(),
        columns_of(listed(at, rows.take(n)), schema, table)[rows_about(rows, at, schema, table, i)]
            == listed_column(at, rows[i]).column,
    decreases n,
{
    lemma_columns_counted(at, rows, schema, table, i);
    lemma_one_more_row(at, rows, schema, table, n);
    if i < n - 1 {
        lemma_column_placed(at, rows, schema, table, n - 1, i);
    }
}

/// Every column of a table is that of a row about it.
proof fn lemma_row_of_column(
    at: Places,
    rows: Seq<Seq<JsonView>>,
    schema: Seq<char>,
    table: Seq<char>,
    n: int,
    c: int,
) -> (i: int)
    requires
        0 <= n <= rows.len(),
        schema.len() > 0,
        table.len() > 0,
        0 <= c < rows_about(rows, at, schema, table, n),
    ensures
        0 <= i < n,
        is_about(rows[i], at, schema, table),
        rows_about(rows, at, schema, table, i) == c,
    decreases n,
{
    if c < rows_about(rows, at, schema, table, n - 1) {
        lemma_row_of_column(at, rows, schema, table, n - 1, c)
    } else {
        n - 1
    }
}

/// The description of a table that columns are listed for stands in the catalog.
proof fn lemma_tree(entries: Seq<ColumnEntry>, s: int, t: int)
    ensures
        ({
            let value = catalog_view(grouped(entries));
            let names = sorted_names(schemas_of(entries));
            let schemas = value.get("schemas"@)->0->Array_0;
            &&& describes_catalog(value, schemas)
            &&& schemas.len() == names.len()
            &&& 0 <= s < names.len() ==> {
                let tables = sorted_names(tables_of(entries, names[s]));
                let objects = schemas[s].get("objects"@)->0->Array_0;
                &&& describes_schema(schemas[s], names[s], objects)
                &&& objects.len() == tables.len()
                &&& 0 <= t < tables.len() ==> describes_table(
                    objects[t],
                    names[s],
                    tables[t],
                    columns_of(entries, names[s], tables[t]),
                )
            }
        }),
{
    lemma_description_fields_differ();
}

/// Whether a value describes the column of the row about that table that has `c`
/// others about it before it.
pub open spec fn is_column_of_row(
    value: JsonView,
    rows: Seq<Seq<JsonView>>,
    at: Places,
    schema: Seq<char>,
    table: Seq<char>,
    c: int,
) -> bool {
    exists|i: int|
        {
            &&& 0 <= i < rows.len()
            &&& is_about(#[trigger] rows[i], at, schema, table)
            &&& rows_about(rows, at, schema, table, i) == c
            &&& describes_column(value, rows[i], at)
        }
}

/// Whether a value describes a table by the rows about it, and by these alone.
pub open spec fn tells_table(
    value: JsonView,
    rows: Seq<Seq<JsonView>>,
    at: Places,
    schema: Seq<char>,
    table: Seq<char>,
) -> bool {
    exists|described: Seq<JsonView>|
        {
            &&& #[trigger] describes_table(value, schema, table, described)
            &&& described.len() > 0
            &&& described.len() == rows_about(rows, at, schema, table, rows.len() as int)
            &&& forall|c: int|
                0 <= c < described.len() ==> is_column_of_row(
                    #[trigger] described[c],
                    rows,
                    at,
                    schema,
                    table,
                    c,
                )
        }
}

/// Whether every name comes before those behind it.
pub open spec fn stand_in_order(names: Seq<Seq<char>>) -> bool {
    forall|i: int, j: int|
        0 <= i < j < names.len() ==> precedes(#[trigger] names[i], #[trigger] names[j])
}

/// Whether a value describes a schema by tables in the order of their names, each
/// told by the rows about it.
pub open spec fn tells_schema(
    value: JsonView,
    rows: Seq<Seq<JsonView>>,
    at: Places,
    schema: Seq<char>,
) -> bool {
    exists|objects: Seq<JsonView>, tables: Seq<Seq<char>>|
        {
            &&& #[trigger] describes_schema(value, schema, objects)
            &&& #[trigger] stand_in_order(tables)
            &&& tables.len() == objects.len()
            &&& objects.len() > 0
            &&& forall|t: int|
                0 <= t < objects.len() ==> tells_table(
                    #[trigger] objects[t],
                    rows,
                    at,
                    schema,
                    tables[t],
                )
        }
}

/// The columns of a table are told by the rows about it.
proof fn lemma_tells_table(at: Places, rows: Seq<Seq<JsonView>>, s: int, t: int)
    requires
        0 <= s < sorted_names(schemas_of(listed(at, rows))).len(),
        0 <= t < sorted_names(
            tables_of(listed(at, rows), sorted_names(schemas_of(listed(at, rows)))[s]),
        ).len(),
    ensures
        ({
            let entries = listed(at, rows);
            let schema = sorted_names(schemas_of(entries))[s];
            let table = sorted_names(tables_of(entries, schema))[t];
            let schemas = catalog_view(grouped(entries)).get("schemas"@)->0->Array_0;
            let objects = schemas[s].get("objects"@)->0->Array_0;
            tells_table(objects[t], rows, at, schema, table)
        }),
{
    let entries = listed(at, rows);
    let schema = sorted_names(schemas_of(entries))[s];
    let tables = sorted_names(tables_of(entries, schema));
    let table = tables[t];
    let schemas = catalog_view(grouped(entries)).get("schemas"@)->0->Array_0;
    let objects = schemas[s].get("objects"@)->0->Array_0;
    let described = columns_of(entries, schema, table);
    let n = rows.len() as int;
    lemma_tree(entries, s, t);
    sorting_names(tables_of(entries, schema));
    assert(tables.contains(table));
    lemma_has_columns(entries, schema, table);
    assert(described.contains(described[0]));
    lemma_column_listed(entries, schema, table, described[0]);
    lemma_row_listed(at, rows, ColumnEntry { schema, table, column: described[0] });
    assert(schema.len() > 0 && table.len() > 0);
    assert(rows.take(n) =~= rows);
    lemma_columns_counted(at, rows, schema, table, n);
    assert forall|c: int| 0 <= c < described.len() implies is_column_of_row(
        #[trigger] described[c],
        rows,
        at,
        schema,
        table,
        c,
    ) by {
        let i = lemma_row_of_column(at, rows, schema, table, n, c);
        lemma_column_placed(at, rows, schema, table, n, i);
        lemma_column_described(at, rows[i]);
        assert(is_about(rows[i], at, schema, table));
    }
    assert(describes_table(objects[t], schema, table, described));
}

/// The column that a row lists describes it.
proof fn lemma_column_described(at: Places, row: Seq<JsonView>)
    ensures
        describes_column(listed_column(at, row).column, row, at),
{
    lemma_description_fields_differ();
}

/// Every row that names schema, table and column is described in the catalog: there
/// is a schema of that name, in it a table of that name, and in that, behind those
/// of the rows about the table that go before it, a column with the name, the data
/// type and the ordinal that stand in the row.
pub proof fn catalog_describes_every_row(
    columns: Seq<Seq<char>>,
    rows: Seq<Seq<JsonView>>,
    at: Places,
    i: int,
)
    requires
        is_read_at(columns, at),
        0 <= i < rows.len(),
        text_in(rows[i], at.schema).len() > 0,
        text_in(rows[i], at.table).len() > 0,
        text_in(rows[i], at.column).len() > 0,
    ensures
        ({
            let schema = text_in(rows[i], at.schema);
            let table = text_in(rows[i], at.table);
            let place = rows_about(rows, at, schema, table, i);
            exists|
                schemas: Seq<JsonView>,
                s: int,
                objects: Seq<JsonView>,
                t: int,
                described: Seq<JsonView>,
            |
                {
                    &&& #[trigger] describes_catalog(metadata_view(columns, rows), schemas)
                    &&& 0 <= s < schemas.len()
                    &&& #[trigger] describes_schema(schemas[s], schema, objects)
                    &&& 0 <= t < objects.len()
                    &&& #[trigger] describes_table(objects[t], schema, table, described)
                    &&& 0 <= place < described.len()
                    &&& describes_column(described[place], rows[i], at)
                }
        }),
{
    let value = metadata_view(columns, rows);
    let schema = text_in(rows[i], at.schema);
    let table = text_in(rows[i], at.table);
    lemma_places(columns, at);
    let entries = listed(at, rows);
    assert(value == catalog_view(grouped(entries)));
    assert(is_listed(at, rows[i]));
    catalog_lists_every_column(at, rows, i);
    let names = sorted_names(schemas_of(entries));
    let s = choose|s: int| 0 <= s < names.len() && names[s] == schema;
    let tables = sorted_names(tables_of(entries, schema));
    let t = choose|t: int| 0 <= t < tables.len() && tables[t] == table;
    lemma_tree(entries, s, t);
    assert(rows.take(rows.len() as int) =~= rows);
    lemma_column_placed(at, rows, schema, table, rows.len() as int, i);
    lemma_column_described(at, rows[i]);
    let schemas = value.get("schemas"@)->0->Array_0;
    let objects = schemas[s].get("objects"@)->0->Array_0;
    assert(describes_catalog(value, schemas));
    assert(describes_schema(schemas[s], schema, objects));
    assert(describes_table(objects[t], schema, table, columns_of(entries, schema, table)));
}

/// Everything in the catalog comes from a row: schemas stand in the order of their
/// names, each once, and so do the tables of each; every table has columns, as many
/// as there are rows about it, and every column is that of one of these rows.
pub proof fn catalog_describes_rows_alone(
    columns: Seq<Seq<char>>,
    rows: Seq<Seq<JsonView>>,
    at: Places,
)
    requires
        is_read_at(columns, at),
    ensures
        exists|schemas: Seq<JsonView>, names: Seq<Seq<char>>|
            {
                &&& #[trigger] describes_catalog(metadata_view(columns, rows), schemas)
                &&& #[trigger] stand_in_order(names)
                &&& names.len() == schemas.len()
                &&& forall|s: int|
                    0 <= s < schemas.len() ==> tells_schema(
                        #[trigger] schemas[s],
                        rows,
                        at,
                        names[s],
                    )
            },
{
    lemma_places(columns, at);
    let entries = listed(at, rows);
    let value = metadata_view(columns, rows);
    let names = sorted_names(schemas_of(entries));
    let schemas = value.get("schemas"@)->0->Array_0;
    assert(value == catalog_view(grouped(entries)));
    lemma_tree(entries, 0, 0);
    sorting_names(schemas_of(entries));
    assert forall|s: int| 0 <= s < schemas.len() implies tells_schema(
        #[trigger] schemas[s],
        rows,
        at,
        names[s],
    ) by {
        let schema = names[s];
        let tables = sorted_names(tables_of(entries, schema));
        let objects = schemas[s].get("objects"@)->0->Array_0;
        lemma_tree(entries, s, 0);
        sorting_names(tables_of(entries, schema));
        catalog_has_nothing_empty(entries, s);
        assert(grouped(entries)[s].1.len() == tables.len());
        assert forall|t: int| 0 <= t < objects.len() implies tells_table(
            #[trigger] objects[t],
            rows,
            at,
            schema,
            tables[t],
        ) by {
            lemma_tells_table(at, rows, s, t);
        }
        assert(describes_schema(schemas[s], schema, objects));
        assert(stand_in_order(tables));
    }
    assert(describes_catalog(value, schemas));
    assert(stand_in_order(names));
}

/// A listing without one of the columns that it is read by gives a catalog without
/// schemas.
pub proof fn incomplete_listings_give_nothing(columns: Seq<Seq<char>>, rows: Seq<Seq<JsonView>>)
    requires
        !columns.contains("table_schema"@) || !columns.contains("table_name"@) || !columns.contains(
            "column_name"@,
        ) || !columns.contains("data_type"@),
    ensures
        describes_catalog(metadata_view(columns, rows), Seq::empty()),
{
    if !columns.contains("table_schema"@) {
        lemma_no_place(columns, "table_schema"@);
    }
    if !columns.contains("table_name"@) {
        lemma_no_place(columns, "table_name"@);
    }
    if !columns.contains("column_name"@) {
        lemma_no_place(columns, "column_name"@);
    }
    if !columns.contains("data_type"@) {
        lemma_no_place(columns, "data_type"@);
    }
    assert(Seq::<(Seq<char>, Seq<(Seq<char>, Seq<JsonView>)>)>::empty().map_values(
        |schema: (Seq<char>, Seq<(Seq<char>, Seq<JsonView>)>)| schema_view(schema),
    ) =~= Seq::<JsonView>::empty());
}

/// A cell reads as the text or the integer in it, and as nothing of the kind where
/// it holds none or there is no cell.
pub proof fn cells_read_as_they_are(row: Seq<JsonView>, at: int, text: Seq<char>, n: i64)
    ensures
        0 <= at < row.len() && row[at] == JsonView::String(text) ==> cell_text(row, at) == text,
        0 <= at < row.len() && !(row[at] is String) ==> cell_text(row, at).len() == 0,
        !(0 <= at < row.len()) ==> cell_text(row, at).len() == 0,
        0 <= at < row.len() && row[at] == JsonView::Number(NumberView::integer(n)) ==> cell_integer(
            row,
            Some(at),
        ) == n,
{
}

} // verus!
