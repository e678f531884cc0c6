//! Auto-generate insert mutations and translate them into sql ast.

use crate::json;
use crate::metadata::{
    ColumnInfo, HasDefault, IsGenerated, IsIdentity, Nullable, TableInfo,
};
use crate::sql;
use crate::sql::ast::{
    ColumnAlias, ColumnName, Expression, Insert, InsertExpression, Returning, SchemaName,
    SelectList, TableName, TableReference,
};
use crate::string_map::{
    ascending, has_key, lemma_before_irreflexive, lemma_map_of_entry, lemma_same_keys, map_of,
    string_before, StringMap,
};
use crate::translation::error::{Error, ErrorView};
use crate::translation::helpers::{Env, RootAndCurrentTables, State, TableNameAndReference};
use crate::translation::mutation::outcomes::{
    is_acceptable, is_first_complaint, lemma_rows_are_checked_by_their_columns,
};
use crate::translation::query::root::both_tables;
use crate::translation::translators::{constrains, reads_expression, writes_value, Translators};
use vstd::prelude::*;
use vstd::string::StringExecFns;

verus! {

/// A representation of an auto-generated insert mutation.
///
/// This can get us `INSERT INTO <table>(<columns>) VALUES (<values>)`.
#[derive(Debug)]
pub struct InsertMutation {
    pub collection_name: String,
    pub description: String,
    pub schema_name: SchemaName,
    pub table_name: TableName,
    pub columns: StringMap<ColumnInfo>,
    pub constraint: Constraint,
}

/// The name and description of the constraint input argument.
#[derive(Debug)]
pub struct Constraint {
    pub argument_name: String,
    pub description: String,
}

impl Clone for Constraint {
    fn clone(&self) -> (r: Self)
        ensures
            r == *self,
    {
        Constraint {
            argument_name: self.argument_name.clone(),
            description: self.description.clone(),
        }
    }
}

impl Clone for InsertMutation {
    fn clone(&self) -> (r: Self)
        ensures
            r.columns.entries() == self.columns.entries(),
            r == (InsertMutation { columns: r.columns, ..*self }),
    {
        let columns = self.columns.clone();
        assert(columns.entries() =~= self.columns.entries());
        InsertMutation {
            collection_name: self.collection_name.clone(),
            description: self.description.clone(),
            schema_name: self.schema_name.clone(),
            table_name: self.table_name.clone(),
            columns,
            constraint: self.constraint.clone(),
        }
    }
}

/// The name of the mutation that inserts into a collection.
pub open spec fn mutation_name(collection_name: Seq<char>) -> Seq<char> {
    "experimental_insert_"@ + collection_name
}

/// The mutations of different collections have different names.
pub proof fn lemma_mutation_names_are_distinct(first: Seq<char>, second: Seq<char>)
    requires
        mutation_name(first) == mutation_name(second),
    ensures
        first == second,
{
    let start = "experimental_insert_"@.len() as int;
    assert(mutation_name(first).skip(start) =~= first);
    assert(mutation_name(second).skip(start) =~= second);
}

/// generate an insert mutation.
pub fn generate(collection_name: &str, table_info: &TableInfo) -> (r: (String, InsertMutation))
    ensures
        r.0@ == mutation_name(collection_name@),
        r.0@ == "experimental_insert_"@ + collection_name@,
        r.1.collection_name@ == collection_name@,
        r.1.description@ == "Insert into the "@ + collection_name@ + " table"@,
        r.1.schema_name == SchemaName(table_info.schema_name),
        r.1.table_name == TableName(table_info.table_name),
        r.1.columns.entries() == table_info.columns.entries(),
        r.1.constraint.argument_name@ == "constraint"@,
        r.1.constraint.description@ == "Insert permission predicate over the '"@ + collection_name@
            + "' collection"@,
{
    let name = "experimental_insert_".to_string().concat(collection_name);

    let description = "Insert into the ".to_string().concat(collection_name).concat(" table");

    let columns = table_info.columns.clone();
    assert(columns.entries() =~= table_info.columns.entries());

    let insert_mutation = InsertMutation {
        collection_name: collection_name.to_string(),
        description,
        schema_name: SchemaName(table_info.schema_name.clone()),
        table_name: TableName(table_info.table_name.clone()),
        columns,
        constraint: Constraint {
            argument_name: "constraint".to_string(),
            description: "Insert permission predicate over the '".to_string().concat(
                collection_name,
            ).concat("' collection"),
        },
    };

    (name, insert_mutation)
}

////// Checks of a row

/// A value other than the default is inserted into a column.
pub open spec fn is_given(
    inserted_columns: Map<Seq<char>, InsertExpression>,
    column: ColumnInfo,
) -> bool {
    inserted_columns.contains_key(column.name@) && inserted_columns[column.name@] is Expression
}

/// What is wrong with what is inserted into a column, where anything is. Generated columns and
/// identity always columns must not be inserted into. Of the others, nullable, default, and identity
/// by default columns can be inserted into or omitted, and the rest must be inserted into.
pub open spec fn column_problem(
    name: Seq<char>,
    column: ColumnInfo,
    inserted_columns: Map<Seq<char>, InsertExpression>,
    insert_name: Seq<char>,
) -> Option<ErrorView> {
    if column.is_generated is Stored {
        if is_given(inserted_columns, column) {
            Some(ErrorView::ColumnIsGenerated(name))
        } else {
            None
        }
    } else if column.is_identity is IdentityAlways {
        if is_given(inserted_columns, column) {
            Some(ErrorView::ColumnIsIdentityAlways(name))
        } else {
            None
        }
    } else if is_optional(column) || is_given(inserted_columns, column) {
        None
    } else {
        Some(ErrorView::MissingColumnInInsert(name, insert_name))
    }
}

/// Where a column can be inserted into, it can be omitted too.
pub open spec fn is_optional(column: ColumnInfo) -> bool {
    column.nullable is Nullable || column.has_default is HasDefault
        || column.is_identity is IdentityByDefault
}

/// Only the database fills a column in.
pub open spec fn is_filled_in(column: ColumnInfo) -> bool {
    column.is_generated is Stored || column.is_identity is IdentityAlways
}

/// A column must be inserted into.
pub open spec fn is_required(column: ColumnInfo) -> bool {
    !is_optional(column) && !is_filled_in(column)
}

/// A row is fine for the table.
pub open spec fn row_is_fine(
    columns: Seq<(String, ColumnInfo)>,
    inserted_columns: Map<Seq<char>, InsertExpression>,
    insert_name: Seq<char>,
) -> bool {
    forall|i: int|
        0 <= i < columns.len() ==> column_problem(
            (#[trigger] columns[i]).0@,
            columns[i].1,
            inserted_columns,
            insert_name,
        ) is None
}

/// `error` is the problem of the first column, in the order of their names, that has one.
pub open spec fn is_first_problem(
    columns: Seq<(String, ColumnInfo)>,
    inserted_columns: Map<Seq<char>, InsertExpression>,
    insert_name: Seq<char>,
    error: ErrorView,
) -> bool {
    exists|i: int|
        {
            &&& 0 <= i < columns.len()
            &&& column_problem(
                (#[trigger] columns[i]).0@,
                columns[i].1,
                inserted_columns,
                insert_name,
            ) == Some(error)
            &&& row_is_fine(columns.take(i), inserted_columns, insert_name)
        }
}

/// Check that no columns are missing, and that columns cannot be inserted to
/// are not inserted.
pub fn check_columns(
    columns: &StringMap<ColumnInfo>,
    inserted_columns: &StringMap<InsertExpression>,
    insert_name: &str,
) -> (r: Result<(), Error>)
    ensures
        match r {
            Ok(_) => row_is_fine(columns.entries(), inserted_columns@, insert_name@),
            Err(error) => is_first_problem(
                columns.entries(),
                inserted_columns@,
                insert_name@,
                error@,
            ),
        },
        r is Ok <==> is_acceptable(columns.entries(), inserted_columns@),
        r matches Err(error) ==> is_first_complaint(
            columns.entries(),
            inserted_columns@,
            insert_name@,
            error@,
        ),
{
    let entries = columns.as_entries();
    let mut i: usize = 0;
    while i < entries.len()
        invariant
            i <= entries@.len(),
            entries@ == columns.entries(),
            row_is_fine(entries@.take(i as int), inserted_columns@, insert_name@),
        decreases entries@.len() - i,
    {
        let name: &String = &entries[i].0;
        let column: &ColumnInfo = &entries[i].1;
        let given: bool = match inserted_columns.get(column.name.as_str()) {
            Some(InsertExpression::Expression(_)) => true,
            Some(InsertExpression::Default) | None => false,
        };
        assert(given == is_given(inserted_columns@, *column));
        let checked: Result<(), Error> = match column {
            // generated columns must not be inserted into.
            ColumnInfo { is_generated: IsGenerated::Stored, .. } => {
                if given {
                    Err(Error::ColumnIsGenerated(name.clone()))
                } else {
                    Ok(())
                }
            },
            // identity always columns must not be inserted into.
            ColumnInfo { is_identity: IsIdentity::IdentityAlways, .. } => {
                if given {
                    Err(Error::ColumnIsIdentityAlways(name.clone()))
                } else {
                    Ok(())
                }
            },
            // other nullable, default, and identity by default columns can be inserted into or omitted.
            ColumnInfo { nullable: Nullable::Nullable, .. }
            | ColumnInfo { has_default: HasDefault::HasDefault, .. }
            | ColumnInfo { is_identity: IsIdentity::IdentityByDefault, .. } => Ok(()),
            // regular columns must be inserted into.
            _ => {
                if given {
                    Ok(())
                } else {
                    Err(Error::MissingColumnInInsert(name.clone(), insert_name.to_string()))
                }
            },
        };
        if let Err(error) = checked {
            assert(column_problem(
                entries@[i as int].0@,
                entries@[i as int].1,
                inserted_columns@,
                insert_name@,
            ) == Some(error@));
            proof {
                assert(is_first_problem(entries@, inserted_columns@, insert_name@, error@));
                lemma_rows_are_checked_by_their_columns(
                    entries@,
                    inserted_columns@,
                    insert_name@,
                    error@,
                );
            }
            return Err(error);
        }
        proof {
            assert forall|j: int| 0 <= j < i + 1 implies column_problem(
                (#[trigger] entries@.take(i + 1)[j]).0@,
                entries@.take(i + 1)[j].1,
                inserted_columns@,
                insert_name@,
            ) is None by {
                if j < i {
                    assert(entries@.take(i as int)[j] == entries@[j]);
                }
            }
        }
        i = i + 1;
    }
    proof {
        assert(entries@.take(i as int) =~= entries@);
        lemma_rows_are_checked_by_their_columns(
            entries@,
            inserted_columns@,
            insert_name@,
            ErrorView::UnexpectedVariable,
        );
    }
    Ok(())
}

////// Rows

/// One member of an object, read as a column and its value, can lead from the columns `so_far` to
/// `r`, which takes the state from `before` to `after`.
pub open spec fn writes_member<T: Translators>(
    translators: T,
    env: Env<'_>,
    mutation: InsertMutation,
    name: Seq<char>,
    value: json::Value,
    so_far: Map<Seq<char>, InsertExpression>,
    before: State,
    after: State,
    r: Result<Map<Seq<char>, InsertExpression>, Error>,
) -> bool {
    if !mutation.columns@.contains_key(name) {
        &&& after == before
        &&& r matches Err(error) && error@ == ErrorView::ColumnNotFoundInCollection(
            name,
            mutation.collection_name@,
        )
    } else {
        let column = mutation.columns@[name];
        exists|written: Result<Expression, Error>| #[trigger]
            writes_value(translators, env, before, value, column.data_type, after, written)
                && match written {
                Err(error) => r == Err::<Map<Seq<char>, InsertExpression>, Error>(error),
                Ok(expression) => r == Ok::<Map<Seq<char>, InsertExpression>, Error>(
                    so_far.insert(column.name@, InsertExpression::Expression(expression)),
                ),
            }
    }
}

/// From place `i` on, the columns and the state go one member further.
pub open spec fn member_is_written<T: Translators>(
    translators: T,
    env: Env<'_>,
    mutation: InsertMutation,
    members: Seq<(String, json::Value)>,
    states: Seq<State>,
    rows: Seq<Map<Seq<char>, InsertExpression>>,
    i: int,
) -> bool {
    writes_member(
        translators,
        env,
        mutation,
        members[i].0@,
        members[i].1,
        rows[i],
        states[i],
        states[i + 1],
        Ok(rows[i + 1]),
    )
}

/// The first members of an object, one less than there are `states`, lead from no columns through
/// `rows`, and from `before` through `states`.
pub open spec fn members_are_written<T: Translators>(
    translators: T,
    env: Env<'_>,
    mutation: InsertMutation,
    members: Seq<(String, json::Value)>,
    before: State,
    states: Seq<State>,
    rows: Seq<Map<Seq<char>, InsertExpression>>,
) -> bool {
    &&& 1 <= states.len() <= members.len() + 1
    &&& rows.len() == states.len()
    &&& states[0] == before
    &&& rows[0] == Map::<Seq<char>, InsertExpression>::empty()
    &&& forall|i: int|
        0 <= i < states.len() - 1 ==> #[trigger] member_is_written(
            translators,
            env,
            mutation,
            members,
            states,
            rows,
            i,
        )
}

/// The members of an object can be translated to `r`, a map from the names of columns in the
/// database to values, which takes the state from `before` to `after`. The members are translated
/// in their order, and the first error ends the translation.
pub open spec fn writes_members<T: Translators>(
    translators: T,
    env: Env<'_>,
    mutation: InsertMutation,
    members: Seq<(String, json::Value)>,
    before: State,
    after: State,
    r: Result<Map<Seq<char>, InsertExpression>, Error>,
) -> bool {
    exists|states: Seq<State>, rows: Seq<Map<Seq<char>, InsertExpression>>| #[trigger]
        members_are_written(translators, env, mutation, members, before, states, rows) && match r {
            Ok(row) => {
                &&& states.len() == members.len() + 1
                &&& after == states.last()
                &&& row == rows.last()
            },
            Err(_) => {
                &&& states.len() <= members.len()
                &&& writes_member(
                    translators,
                    env,
                    mutation,
                    members[states.len() - 1].0@,
                    members[states.len() - 1].1,
                    rows.last(),
                    states.last(),
                    after,
                    r,
                )
            },
        }
}

/// An object can be translated to `r`, a map from the names of columns in the database to values,
/// which takes the state from `before` to `after`.
pub open spec fn writes_object<T: Translators>(
    translators: T,
    env: Env<'_>,
    mutation: InsertMutation,
    object: json::Value,
    before: State,
    after: State,
    r: Result<Map<Seq<char>, InsertExpression>, Error>,
) -> bool {
    match object {
        json::Value::Object(members) => writes_members(
            translators,
            env,
            mutation,
            members@,
            before,
            after,
            r,
        ),
        json::Value::Array(_) => {
            &&& after == before
            &&& r matches Err(error) && error@ == ErrorView::UnexpectedStructure(
                "array of arrays structure in insert _objects argument. Expecting an array of objects."@,
            )
        },
        _ => {
            &&& after == before
            &&& r matches Err(error) && error@ == ErrorView::UnexpectedStructure(
                "array of values structure in insert _objects argument. Expecting an array of objects."@,
            )
        },
    }
}

/// What the translation of an object returned.
pub open spec fn row_result(r: Result<StringMap<InsertExpression>, Error>) -> Result<
    Map<Seq<char>, InsertExpression>,
    Error,
> {
    match r {
        Ok(row) => Ok(row@),
        Err(error) => Err(error),
    }
}

/// Translate a single insert object into a mapping from column names to values.
pub fn translate_object_into_columns_and_values<T: Translators>(
    translators: &T,
    env: &Env<'_>,
    state: &mut State,
    mutation: &InsertMutation,
    object: &json::Value,
) -> (r: Result<StringMap<InsertExpression>, Error>)
    ensures
        writes_object(
            *translators,
            *env,
            *mutation,
            *object,
            *old(state),
            *final(state),
            row_result(r),
        ),
{
    match object {
        json::Value::Object(members) => {
            let mut columns_to_values: StringMap<InsertExpression> = StringMap::new();
            let ghost mut states: Seq<State> = seq![*state];
            let ghost mut rows: Seq<Map<Seq<char>, InsertExpression>> = seq![columns_to_values@];
            // For each field, look up the column name in the table and insert it and the value
            // into the map.
            let mut i: usize = 0;
            while i < members.len()
                invariant
                    i <= members@.len(),
                    *object == json::Value::Object(*members),
                    members_are_written(
                        *translators,
                        *env,
                        *mutation,
                        members@,
                        *old(state),
                        states,
                        rows,
                    ),
                    states.len() == i + 1,
                    states.last() == *state,
                    rows.last() == columns_to_values@,
                decreases members@.len() - i,
            {
                let ghost between = *state;
                let name: &String = &members[i].0;
                let value: &json::Value = &members[i].1;
                let column_info: &ColumnInfo = match mutation.columns.get(name.as_str()) {
                    Some(column_info) => column_info,
                    None => {
                        return Err(
                            Error::ColumnNotFoundInCollection(
                                name.clone(),
                                mutation.collection_name.clone(),
                            ),
                        );
                    },
                };
                let mut taken = State::new();
                core::mem::swap(&mut taken, state);
                let (after, written) = translators.translate_json_value(
                    env,
                    taken,
                    value,
                    &column_info.data_type,
                );
                *state = after;
                assert(writes_value(
                    *translators,
                    *env,
                    between,
                    members@[i as int].1,
                    column_info.data_type,
                    after,
                    written,
                ));
                match written {
                    Err(error) => {
                        return Err(error);
                    },
                    Ok(expression) => {
                        columns_to_values.insert(
                            column_info.name.clone(),
                            InsertExpression::Expression(expression),
                        );
                    },
                }
                proof {
                    let (states_before, rows_before) = (states, rows);
                    states = states.push(*state);
                    rows = rows.push(columns_to_values@);
                    assert forall|j: int| 0 <= j < states.len() - 1 implies #[trigger]
                        member_is_written(
                        *translators,
                        *env,
                        *mutation,
                        members@,
                        states,
                        rows,
                        j,
                    ) by {
                        if j < i {
                            assert(member_is_written(
                                *translators,
                                *env,
                                *mutation,
                                members@,
                                states_before,
                                rows_before,
                                j,
                            ));
                        }
                    }
                }
                i = i + 1;
            }
            Ok(columns_to_values)
        },
        json::Value::Array(_) => Err(
            Error::UnexpectedStructure(
                "array of arrays structure in insert _objects argument. Expecting an array of objects.".to_string(),
            ),
        ),
        _ => Err(
            Error::UnexpectedStructure(
                "array of values structure in insert _objects argument. Expecting an array of objects.".to_string(),
            ),
        ),
    }
}

////// Tables of rows

/// The columns that any of the rows has.
pub open spec fn all_columns(rows: Seq<Map<Seq<char>, InsertExpression>>) -> Set<Seq<char>> {
    Set::new(
        |column: Seq<char>|
            exists|i: int| 0 <= i < rows.len() && (#[trigger] rows[i]).contains_key(column),
    )
}

/// A row with the default in each column that it lacks.
pub open spec fn completed(
    row: Map<Seq<char>, InsertExpression>,
    columns: Set<Seq<char>>,
) -> Map<Seq<char>, InsertExpression> {
    Map::new(
        |column: Seq<char>| columns.contains(column),
        |column: Seq<char>|
            if row.contains_key(column) {
                row[column]
            } else {
                InsertExpression::Default
            },
    )
}

/// The columns stand in ascending order, and are those of the set.
pub open spec fn lists_columns(columns: Seq<ColumnName>, set: Set<Seq<char>>) -> bool {
    &&& forall|i: int, j: int|
        0 <= i < j < columns.len() ==> string_before(
            (#[trigger] columns[i]).0@,
            (#[trigger] columns[j]).0@,
        )
    &&& forall|i: int| 0 <= i < columns.len() ==> set.contains((#[trigger] columns[i]).0@)
    &&& forall|name: Seq<char>| #[trigger]
        set.contains(name) ==> exists|i: int|
            0 <= i < columns.len() && (#[trigger] columns[i]).0@ == name
}

/// The values are those of the row, one for each column, in the order of the columns.
pub open spec fn lists_values(
    values: Seq<InsertExpression>,
    columns: Seq<ColumnName>,
    row: Map<Seq<char>, InsertExpression>,
) -> bool {
    &&& values.len() == columns.len()
    &&& forall|j: int| 0 <= j < values.len() ==> (#[trigger] values[j]) == row[columns[j].0@]
}

/// The rows come to `r`: all columns of any row in ascending order, and for each row its values in
/// those columns, with the default where it has none. Where a completed row is not fine for the
/// table, they come to the problem of the first such row.
pub open spec fn tabulates(
    mutation: InsertMutation,
    rows: Seq<Map<Seq<char>, InsertExpression>>,
    r: Result<(Vec<ColumnName>, Vec<Vec<InsertExpression>>), Error>,
) -> bool {
    match r {
        Ok((columns, values)) => {
            &&& lists_columns(columns@, all_columns(rows))
            &&& values@.len() == rows.len()
            &&& forall|i: int|
                0 <= i < rows.len() ==> lists_values(
                    (#[trigger] values@[i])@,
                    columns@,
                    completed(rows[i], all_columns(rows)),
                )
            &&& rows_are_fine(mutation, rows, rows.len())
        },
        Err(error) => exists|i: int|
            {
                &&& 0 <= i < rows.len()
                &&& is_first_problem(
                    mutation.columns.entries(),
                    completed(#[trigger] rows[i], all_columns(rows)),
                    mutation.collection_name@,
                    error@,
                )
                &&& rows_are_fine(mutation, rows, i as nat)
            },
    }
}

/// The first `n` rows, completed, are fine for the table.
pub open spec fn rows_are_fine(
    mutation: InsertMutation,
    rows: Seq<Map<Seq<char>, InsertExpression>>,
    n: nat,
) -> bool {
    forall|i: int|
        0 <= i < n ==> row_is_fine(
            mutation.columns.entries(),
            completed(#[trigger] rows[i], all_columns(rows)),
            mutation.collection_name@,
        )
}

/// What a list of rows holds.
pub open spec fn rows_view(rows: Seq<StringMap<InsertExpression>>) -> Seq<
    Map<Seq<char>, InsertExpression>,
> {
    Seq::new(rows.len(), |i: int| rows[i]@)
}

/// The keys of one entry more are those and the key of that entry.
proof fn lemma_one_more_key<V>(entries: Seq<(String, V)>, i: int)
    requires
        0 <= i < entries.len(),
    ensures
        forall|key: Seq<char>| #[trigger]
            has_key(entries.take(i + 1), key) == (has_key(entries.take(i), key) || entries[i].0@
                == key),
{
    assert forall|key: Seq<char>| #[trigger]
        has_key(entries.take(i + 1), key) == (has_key(entries.take(i), key) || entries[i].0@
            == key) by {
        let (more, fewer) = (entries.take(i + 1), entries.take(i));
        assert(more[i] == entries[i]);
        if has_key(more, key) {
            let j = choose|j: int| 0 <= j < more.len() && (#[trigger] more[j]).0@ == key;
            if j < i {
                assert(fewer[j].0@ == key);
            }
        }
        if has_key(fewer, key) {
            let j = choose|j: int| 0 <= j < fewer.len() && (#[trigger] fewer[j]).0@ == key;
            assert(more[j].0@ == key);
        }
    }
}

/// Adds the columns of a row to a set of columns.
fn add_columns(columns: &mut StringMap<()>, row: &StringMap<InsertExpression>)
    ensures
        forall|column: Seq<char>| #[trigger]
            final(columns)@.contains_key(column) == (old(columns)@.contains_key(column)
                || row@.contains_key(column)),
{
    let entries = row.as_entries();
    let mut i: usize = 0;
    while i < entries.len()
        invariant
            i <= entries@.len(),
            entries@ == row.entries(),
            forall|column: Seq<char>| #[trigger]
                columns@.contains_key(column) == (old(columns)@.contains_key(column) || has_key(
                    entries@.take(i as int),
                    column,
                )),
        decreases entries@.len() - i,
    {
        let ghost so_far = columns@;
        columns.insert(entries[i].0.clone(), ());
        proof {
            lemma_one_more_key(entries@, i as int);
            assert forall|column: Seq<char>| #[trigger]
                columns@.contains_key(column) == (old(columns)@.contains_key(column) || has_key(
                    entries@.take(i + 1),
                    column,
                )) by {
                assert(columns@.contains_key(column) == (so_far.contains_key(column)
                    || entries@[i as int].0@ == column));
            }
        }
        i = i + 1;
    }
    assert(entries@.take(i as int) =~= entries@);
}

/// Adds to a row the default in each column that it lacks.
fn complete_row(row: &mut StringMap<InsertExpression>, columns: &StringMap<()>)
    requires
        forall|column: Seq<char>| #[trigger]
            old(row)@.contains_key(column) ==> columns@.contains_key(column),
    ensures
        final(row)@ == completed(old(row)@, columns@.dom()),
{
    let entries = columns.as_entries();
    let ghost before = row@;
    let mut i: usize = 0;
    while i < entries.len()
        invariant
            i <= entries@.len(),
            entries@ == columns.entries(),
            forall|column: Seq<char>| #[trigger]
                row@.contains_key(column) == (before.contains_key(column) || has_key(
                    entries@.take(i as int),
                    column,
                )),
            forall|column: Seq<char>| #[trigger]
                row@.contains_key(column) ==> row@[column] == (if before.contains_key(column) {
                    before[column]
                } else {
                    InsertExpression::Default
                }),
        decreases entries@.len() - i,
    {
        if !row.contains_key(entries[i].0.as_str()) {
            row.insert(entries[i].0.clone(), InsertExpression::Default);
        }
        proof {
            lemma_one_more_key(entries@, i as int);
        }
        i = i + 1;
    }
    assert(entries@.take(i as int) =~= entries@);
    assert(row@ =~= completed(before, columns@.dom()));
}

/// The values of a row that has exactly the given columns, in the order of the columns.
fn row_values(row: StringMap<InsertExpression>, columns: &StringMap<()>) -> (r: Vec<
    InsertExpression,
>)
    requires
        row@.dom() == columns@.dom(),
    ensures
        r@.len() == columns.entries().len(),
        forall|j: int|
            0 <= j < r@.len() ==> (#[trigger] r@[j]) == row@[columns.entries()[j].0@],
{
    let column_entries = columns.as_entries();
    let ghost names = column_entries@;
    let ghost row_view = row@;
    let entries = row.into_entries();
    let ghost given = entries@;
    proof {
        assert forall|key: Seq<char>| #[trigger] has_key(given, key) == has_key(names, key) by {
            assert(row_view.dom().contains(key) == columns@.dom().contains(key));
        }
        lemma_same_keys(given, names);
    }
    let mut values: Vec<InsertExpression> = Vec::new();
    for entry in iter: entries
        invariant
            iter.seq() == given,
            ascending(given),
            row_view == map_of(given),
            names == columns.entries(),
            given.len() == names.len(),
            forall|i: int| 0 <= i < given.len() ==> (#[trigger] given[i]).0@ == names[i].0@,
            values@.len() == iter.index(),
            forall|j: int|
                0 <= j < values@.len() ==> (#[trigger] values@[j]) == row_view[names[j].0@],
    {
        proof {
            lemma_map_of_entry(given, iter.index() as int);
            assert(given[iter.index() as int].0@ == names[iter.index() as int].0@);
        }
        let (_, value) = entry;
        values.push(value);
    }
    values
}

/// Brings rows into the form of a table: every row has the same columns, in the same order.
///
/// Some objects might have missing columns, which indicate that they want the default value to be
/// inserted. To handle this, we take the union of column names in all objects, and then traverse
/// each object to check if it is missing a column. If it does, we add the column to its mapping
/// with a DEFAULT expression.
pub fn tabulate_rows(mutation: &InsertMutation, rows: Vec<StringMap<InsertExpression>>) -> (r:
    Result<(Vec<ColumnName>, Vec<Vec<InsertExpression>>), Error>)
    ensures
        tabulates(*mutation, rows_view(rows@), r),
{
    let ghost given = rows@;
    let ghost views = rows_view(given);
    // Here we get the union of the column names.
    let mut union_of_columns: StringMap<()> = StringMap::new();
    let mut i: usize = 0;
    while i < rows.len()
        invariant
            i <= rows@.len(),
            rows@ == given,
            views == rows_view(given),
            forall|column: Seq<char>| #[trigger]
                union_of_columns@.contains_key(column) == all_columns(
                    views.take(i as int),
                ).contains(column),
        decreases rows@.len() - i,
    {
        let ghost so_far = union_of_columns@;
        add_columns(&mut union_of_columns, &rows[i]);
        proof {
            assert forall|column: Seq<char>| #[trigger]
                union_of_columns@.contains_key(column) == all_columns(views.take(i + 1)).contains(
                    column,
                ) by {
                let (more, fewer) = (views.take(i + 1), views.take(i as int));
                assert(so_far.contains_key(column) == all_columns(fewer).contains(column));
                assert(more[i as int] == views[i as int]);
                if all_columns(more).contains(column) {
                    let j = choose|j: int|
                        0 <= j < more.len() && (#[trigger] more[j]).contains_key(column);
                    if j < i {
                        assert(fewer[j].contains_key(column));
                    }
                }
                if all_columns(fewer).contains(column) {
                    let j = choose|j: int|
                        0 <= j < fewer.len() && (#[trigger] fewer[j]).contains_key(column);
                    assert(more[j].contains_key(column));
                }
            }
        }
        i = i + 1;
    }
    assert(views.take(i as int) =~= views);
    assert(union_of_columns@.dom() =~= all_columns(views));

    let mut values: Vec<Vec<InsertExpression>> = Vec::new();
    for row in iter: rows
        invariant
            iter.seq() == given,
            views == rows_view(given),
            union_of_columns@.dom() == all_columns(views),
            values@.len() == iter.index(),
            forall|i: int|
                0 <= i < values@.len() ==> {
                    &&& (#[trigger] values@[i])@.len() == union_of_columns.entries().len()
                    &&& forall|j: int|
                        0 <= j < values@[i]@.len() ==> (#[trigger] values@[i]@[j]) == completed(
                            views[i],
                            all_columns(views),
                        )[union_of_columns.entries()[j].0@]
                },
            rows_are_fine(*mutation, views, iter.index() as nat),
    {
        let ghost n = iter.index() as int;
        // Here we add missing column names with DEFAULT.
        let mut columns_and_values = row;
        proof {
            assert(views[n] == columns_and_values@);
            assert forall|column: Seq<char>| #[trigger]
                columns_and_values@.contains_key(
                    column,
                ) implies union_of_columns@.contains_key(column) by {
                assert(views[n].contains_key(column));
                assert(all_columns(views).contains(column));
                assert(union_of_columns@.dom().contains(column));
            }
        }
        complete_row(&mut columns_and_values, &union_of_columns);

        // Finally, check that the final form of the object is fine according to the schema.
        if let Err(error) = check_columns(
            &mutation.columns,
            &columns_and_values,
            mutation.collection_name.as_str(),
        ) {
            assert(is_first_problem(
                mutation.columns.entries(),
                completed(views[n], all_columns(views)),
                mutation.collection_name@,
                error@,
            ));
            return Err(error);
        }
        assert(columns_and_values@.dom() =~= union_of_columns@.dom());
        values.push(row_values(columns_and_values, &union_of_columns));
    }

    // We return an ordered vector of column names
    let ghost names = union_of_columns.entries();
    let union_entries = union_of_columns.into_entries();
    let mut columns: Vec<ColumnName> = Vec::new();
    for entry in iter: union_entries
        invariant
            iter.seq() == names,
            columns@.len() == iter.index(),
            forall|j: int| 0 <= j < columns@.len() ==> (#[trigger] columns@[j]).0 == names[j].0,
    {
        let (name, _) = entry;
        columns.push(ColumnName(name));
    }
    proof {
        let set = all_columns(views);
        assert forall|i: int, j: int| 0 <= i < j < columns@.len() implies string_before(
            (#[trigger] columns@[i]).0@,
            (#[trigger] columns@[j]).0@,
        ) by {
            assert(string_before(names[i].0@, names[j].0@));
        }
        assert forall|i: int| 0 <= i < columns@.len() implies set.contains(
            (#[trigger] columns@[i]).0@,
        ) by {
            lemma_map_of_entry(names, i);
            assert(map_of(names).dom().contains(names[i].0@));
        }
        assert forall|name: Seq<char>| #[trigger] set.contains(name) implies exists|i: int|
            0 <= i < columns@.len() && (#[trigger] columns@[i]).0@ == name by {
            assert(map_of(names).dom().contains(name));
            let i = choose|i: int| 0 <= i < names.len() && (#[trigger] names[i]).0@ == name;
            assert(columns@[i].0@ == name);
        }
        assert forall|i: int| 0 <= i < views.len() implies lists_values(
            (#[trigger] values@[i])@,
            columns@,
            completed(views[i], set),
        ) by {
            assert forall|j: int| 0 <= j < values@[i]@.len() implies (#[trigger] values@[i]@[j])
                == completed(views[i], set)[columns@[j].0@] by {
                assert(columns@[j].0 == names[j].0);
            }
        }
    }
    // and a vector of rows
    Ok((columns, values))
}

/// The object at place `i` is translated to the row at place `i`, which takes the state one place
/// further.
pub open spec fn object_is_written<T: Translators>(
    translators: T,
    env: Env<'_>,
    mutation: InsertMutation,
    objects: Seq<json::Value>,
    states: Seq<State>,
    rows: Seq<Map<Seq<char>, InsertExpression>>,
    i: int,
) -> bool {
    writes_object(translators, env, mutation, objects[i], states[i], states[i + 1], Ok(rows[i]))
}

/// The first objects are translated to `rows`, which takes the state from `before` through
/// `states`.
pub open spec fn objects_are_written<T: Translators>(
    translators: T,
    env: Env<'_>,
    mutation: InsertMutation,
    objects: Seq<json::Value>,
    before: State,
    states: Seq<State>,
    rows: Seq<Map<Seq<char>, InsertExpression>>,
) -> bool {
    &&& rows.len() <= objects.len()
    &&& states.len() == rows.len() + 1
    &&& states[0] == before
    &&& forall|i: int|
        0 <= i < rows.len() ==> #[trigger] object_is_written(
            translators,
            env,
            mutation,
            objects,
            states,
            rows,
            i,
        )
}

/// The objects can be translated to `r`, a row for each, which takes the state from `before` to
/// `after`. The objects are translated in their order, and the first error ends the translation.
pub open spec fn writes_objects<T: Translators>(
    translators: T,
    env: Env<'_>,
    mutation: InsertMutation,
    objects: Seq<json::Value>,
    before: State,
    after: State,
    r: Result<Seq<Map<Seq<char>, InsertExpression>>, Error>,
) -> bool {
    exists|states: Seq<State>, rows: Seq<Map<Seq<char>, InsertExpression>>| #[trigger]
        objects_are_written(translators, env, mutation, objects, before, states, rows) && match r {
            Ok(all_rows) => {
                &&& rows.len() == objects.len()
                &&& all_rows == rows
                &&& after == states.last()
            },
            Err(error) => {
                &&& rows.len() < objects.len()
                &&& writes_object(
                    translators,
                    env,
                    mutation,
                    objects[rows.len() as int],
                    states.last(),
                    after,
                    Err(error),
                )
            },
        }
}

/// A document can be translated to `r`, columns and rows of values, which takes the state from
/// `before` to `after`.
pub open spec fn writes_table<T: Translators>(
    translators: T,
    env: Env<'_>,
    mutation: InsertMutation,
    value: json::Value,
    before: State,
    after: State,
    r: Result<(Vec<ColumnName>, Vec<Vec<InsertExpression>>), Error>,
) -> bool {
    match value {
        json::Value::Array(objects) => exists|
            rows: Result<Seq<Map<Seq<char>, InsertExpression>>, Error>,
        | #[trigger]
            writes_objects(translators, env, mutation, objects@, before, after, rows)
                && match rows {
                Err(error) => r == Err::<(Vec<ColumnName>, Vec<Vec<InsertExpression>>), Error>(
                    error,
                ),
                Ok(rows) => tabulates(mutation, rows, r),
            },
        json::Value::Object(_) => {
            &&& after == before
            &&& r matches Err(error) && error@ == ErrorView::UnexpectedStructure(
                "object structure in insert _objects argument. Expecting an array of objects."@,
            )
        },
        _ => {
            &&& after == before
            &&& r matches Err(error) && error@ == ErrorView::UnexpectedStructure(
                "value structure in insert _objects argument. Expecting an array of objects."@,
            )
        },
    }
}

/// We parse the objects that the user sent to us and we translate them to a list of columns
/// to insert and a vector of vector of values, each vector of values represents an object/row.
pub fn translate_objects_to_columns_and_values<T: Translators>(
    translators: &T,
    env: &Env<'_>,
    state: &mut State,
    mutation: &InsertMutation,
    value: &json::Value,
) -> (r: Result<(Vec<ColumnName>, Vec<Vec<InsertExpression>>), Error>)
    ensures
        writes_table(
            *translators,
            *env,
            *mutation,
            *value,
            *old(state),
            *final(state),
            r,
        ),
{
    match value {
        json::Value::Array(array) => {
            let mut all_columns_and_values: Vec<StringMap<InsertExpression>> = Vec::new();
            let ghost mut states: Seq<State> = seq![*state];
            assert(rows_view(all_columns_and_values@) =~= Seq::empty());
            // We fetch the column names and values for each user specified object in the _objects
            // array.
            let mut i: usize = 0;
            while i < array.len()
                invariant
                    i <= array@.len(),
                    *value == json::Value::Array(*array),
                    objects_are_written(
                        *translators,
                        *env,
                        *mutation,
                        array@,
                        *old(state),
                        states,
                        rows_view(all_columns_and_values@),
                    ),
                    all_columns_and_values@.len() == i,
                    states.last() == *state,
                decreases array@.len() - i,
            {
                let ghost rows_before = rows_view(all_columns_and_values@);
                let ghost states_before = states;
                match translate_object_into_columns_and_values(
                    translators,
                    env,
                    state,
                    mutation,
                    &array[i],
                ) {
                    Err(error) => {
                        assert(writes_objects(
                            *translators,
                            *env,
                            *mutation,
                            array@,
                            *old(state),
                            *state,
                            Err(error),
                        ));
                        assert(value->Array_0 == *array);
                        return Err(error);
                    },
                    Ok(row) => {
                        let ghost row_view = row@;
                        all_columns_and_values.push(row);
                        proof {
                            states = states.push(*state);
                            let rows = rows_view(all_columns_and_values@);
                            assert(rows =~= rows_before.push(row_view));
                            assert forall|j: int| 0 <= j < rows.len() implies #[trigger]
                                object_is_written(
                                *translators,
                                *env,
                                *mutation,
                                array@,
                                states,
                                rows,
                                j,
                            ) by {
                                if j < i {
                                    assert(object_is_written(
                                        *translators,
                                        *env,
                                        *mutation,
                                        array@,
                                        states_before,
                                        rows_before,
                                        j,
                                    ));
                                }
                            }
                        }
                    },
                }
                i = i + 1;
            }
            assert(writes_objects(
                *translators,
                *env,
                *mutation,
                array@,
                *old(state),
                *state,
                Ok(rows_view(all_columns_and_values@)),
            ));
            tabulate_rows(mutation, all_columns_and_values)
        },
        json::Value::Object(_) => Err(
            Error::UnexpectedStructure(
                "object structure in insert _objects argument. Expecting an array of objects.".to_string(),
            ),
        ),
        _ => Err(
            Error::UnexpectedStructure(
                "value structure in insert _objects argument. Expecting an array of objects.".to_string(),
            ),
        ),
    }
}

////// What holds of every table of rows

/// The columns of an insert are different columns.
pub proof fn lemma_inserted_columns_are_distinct(
    mutation: InsertMutation,
    rows: Seq<Map<Seq<char>, InsertExpression>>,
    columns: Vec<ColumnName>,
    values: Vec<Vec<InsertExpression>>,
    i: int,
    j: int,
)
    requires
        tabulates(mutation, rows, Ok((columns, values))),
        0 <= i < j < columns@.len(),
    ensures
        columns@[i].0@ != columns@[j].0@,
{
    lemma_before_irreflexive(columns@[i].0@);
}

/// Each row of an insert has one value for each column: the one that its object has, or else the
/// default.
pub proof fn lemma_rows_fit_the_columns(
    mutation: InsertMutation,
    rows: Seq<Map<Seq<char>, InsertExpression>>,
    columns: Vec<ColumnName>,
    values: Vec<Vec<InsertExpression>>,
    i: int,
)
    requires
        tabulates(mutation, rows, Ok((columns, values))),
        0 <= i < rows.len(),
    ensures
        values@.len() == rows.len(),
        values@[i]@.len() == columns@.len(),
        forall|j: int|
            0 <= j < columns@.len() ==> (#[trigger] values@[i]@[j]) == if rows[i].contains_key(
                columns@[j].0@,
            ) {
                rows[i][columns@[j].0@]
            } else {
                InsertExpression::Default
            },
{
    let all = all_columns(rows);
    assert(lists_values(values@[i]@, columns@, completed(rows[i], all)));
    assert forall|j: int| 0 <= j < columns@.len() implies (#[trigger] values@[i]@[j])
        == if rows[i].contains_key(columns@[j].0@) {
        rows[i][columns@[j].0@]
    } else {
        InsertExpression::Default
    } by {
        assert(all.contains(columns@[j].0@));
    }
}

/// A column that can neither be omitted nor be filled in by the database has a value in each row of
/// an insert.
pub proof fn lemma_required_columns_have_values(
    mutation: InsertMutation,
    rows: Seq<Map<Seq<char>, InsertExpression>>,
    columns: Vec<ColumnName>,
    values: Vec<Vec<InsertExpression>>,
    i: int,
    k: int,
)
    requires
        tabulates(mutation, rows, Ok((columns, values))),
        0 <= i < rows.len(),
        0 <= k < mutation.columns.entries().len(),
        is_required(mutation.columns.entries()[k].1),
    ensures
        exists|j: int|
            0 <= j < columns@.len() && columns@[j].0@ == mutation.columns.entries()[k].1.name@ && (
            #[trigger] values@[i]@[j]) is Expression,
{
    let column = mutation.columns.entries()[k].1;
    let all = all_columns(rows);
    let row = completed(rows[i], all);
    assert(row_is_fine(mutation.columns.entries(), row, mutation.collection_name@));
    assert(is_given(row, column));
    assert(all.contains(column.name@));
    let j = choose|j: int| 0 <= j < columns@.len() && (#[trigger] columns@[j]).0@ == column.name@;
    assert(lists_values(values@[i]@, columns@, row));
    assert(values@[i]@[j] == row[column.name@]);
}

/// A column that only the database fills in has the default in each row of an insert that has the
/// column at all.
pub proof fn lemma_filled_in_columns_have_the_default(
    mutation: InsertMutation,
    rows: Seq<Map<Seq<char>, InsertExpression>>,
    columns: Vec<ColumnName>,
    values: Vec<Vec<InsertExpression>>,
    i: int,
    j: int,
    k: int,
)
    requires
        tabulates(mutation, rows, Ok((columns, values))),
        0 <= i < rows.len(),
        0 <= j < columns@.len(),
        0 <= k < mutation.columns.entries().len(),
        is_filled_in(mutation.columns.entries()[k].1),
        columns@[j].0@ == mutation.columns.entries()[k].1.name@,
    ensures
        values@[i]@[j] == InsertExpression::Default,
{
    let column = mutation.columns.entries()[k].1;
    let all = all_columns(rows);
    let row = completed(rows[i], all);
    assert(row_is_fine(mutation.columns.entries(), row, mutation.collection_name@));
    assert(column_problem(
        mutation.columns.entries()[k].0@,
        column,
        row,
        mutation.collection_name@,
    ) is None);
    assert(lists_values(values@[i]@, columns@, row));
    assert(values@[i]@[j] == row[column.name@]);
    assert(all.contains(column.name@));
}

////// The insert statement

/// The table that rows are inserted into.
pub open spec fn inserted_table(mutation: InsertMutation) -> TableNameAndReference {
    TableNameAndReference {
        name: mutation.collection_name,
        reference: TableReference::DBTable {
            schema: mutation.schema_name,
            table: mutation.table_name,
        },
    }
}

/// `insert` inserts the values into the columns of the table, and returns each inserted row and,
/// under `alias`, whether the row satisfies the predicate.
pub open spec fn inserts(
    mutation: InsertMutation,
    columns: Vec<ColumnName>,
    values: Vec<Vec<InsertExpression>>,
    predicate: Expression,
    insert: Insert,
    alias: ColumnAlias,
) -> bool {
    &&& alias.name@ == sql::helpers::CHECK_CONSTRAINT_FIELD@
    &&& insert.schema == mutation.schema_name
    &&& insert.table == mutation.table_name
    &&& insert.columns == columns
    &&& insert.values == values
    &&& insert.returning matches Returning::Returning(
        SelectList::SelectListComposite(inserted, checked),
    ) && *inserted == SelectList::SelectStar && (*checked matches SelectList::SelectList(list)
        && list@ == seq![(alias, predicate)])
}

/// Builds an insert statement that holds the inserted rows to a predicate.
pub fn make_insert(
    mutation: &InsertMutation,
    columns: Vec<ColumnName>,
    values: Vec<Vec<InsertExpression>>,
    predicate_expression: Expression,
) -> (r: (Insert, ColumnAlias))
    ensures
        inserts(*mutation, columns, values, predicate_expression, r.0, r.1),
{
    let check_constraint_alias = sql::helpers::make_column_alias(
        sql::helpers::CHECK_CONSTRAINT_FIELD.to_string(),
    );

    let mut checked: Vec<(ColumnAlias, Expression)> = Vec::new();
    checked.push((check_constraint_alias.clone(), predicate_expression));

    let insert = Insert {
        schema: mutation.schema_name.clone(),
        table: mutation.table_name.clone(),
        columns,
        values,
        returning: Returning::Returning(
            SelectList::SelectListComposite(
                Box::new(SelectList::SelectStar),
                Box::new(SelectList::SelectList(checked)),
            ),
        ),
    };

    (insert, check_constraint_alias)
}

/// `r` says that an argument is missing.
pub open spec fn lacks_argument(r: Result<(Insert, ColumnAlias), Error>, name: Seq<char>) -> bool {
    r matches Err(error) && error@ == ErrorView::ArgumentNotFound(name)
}

/// An insert mutation with these arguments can be translated to `r`, which takes the state from
/// `before` to `after`. The rows are translated first, and then the constraint.
pub open spec fn translates_insert<T: Translators>(
    translators: T,
    env: Env<'_>,
    before: State,
    mutation: InsertMutation,
    arguments: Map<Seq<char>, json::Value>,
    after: State,
    r: Result<(Insert, ColumnAlias), Error>,
) -> bool {
    if !arguments.contains_key("_objects"@) {
        after == before && lacks_argument(r, "_objects"@)
    } else {
        exists|between: State, table: Result<(Vec<ColumnName>, Vec<Vec<InsertExpression>>), Error>|
         #[trigger]
            writes_table(
                translators,
                env,
                mutation,
                arguments["_objects"@],
                before,
                between,
                table,
            ) && match table {
                Err(error) => after == between && r == Err::<(Insert, ColumnAlias), Error>(error),
                Ok((columns, values)) => translates_constraint(
                    translators,
                    env,
                    between,
                    mutation,
                    arguments,
                    columns,
                    values,
                    after,
                    r,
                ),
            }
    }
}

/// An insert mutation whose rows are translated to columns and values can be translated to `r`,
/// which takes the state from `before` to `after`.
pub open spec fn translates_constraint<T: Translators>(
    translators: T,
    env: Env<'_>,
    before: State,
    mutation: InsertMutation,
    arguments: Map<Seq<char>, json::Value>,
    columns: Vec<ColumnName>,
    values: Vec<Vec<InsertExpression>>,
    after: State,
    r: Result<(Insert, ColumnAlias), Error>,
) -> bool {
    let name = mutation.constraint.argument_name@;
    if !arguments.contains_key(name) {
        after == before && lacks_argument(r, name)
    } else {
        exists|read: Option<crate::models::Expression>| #[trigger]
            reads_expression(translators, arguments[name], read) && match read {
                None => after == before && lacks_argument(r, name),
                Some(predicate) => exists|checked: Result<Expression, Error>| #[trigger]
                    constrains(
                        translators,
                        env,
                        before,
                        both_tables(inserted_table(mutation)),
                        predicate,
                        after,
                        checked,
                    ) && match checked {
                        Err(error) => r == Err::<(Insert, ColumnAlias), Error>(error),
                        Ok(expression) => r matches Ok((insert, alias)) && inserts(
                            mutation,
                            columns,
                            values,
                            expression,
                            insert,
                            alias,
                        ),
                    },
            }
    }
}

/// A translated insert mutation inserts into its table, has one value for each column in each row,
/// has each column once, and returns whether each row satisfies the constraint under the returned
/// alias.
pub proof fn lemma_insert_is_well_formed<T: Translators>(
    translators: T,
    env: Env<'_>,
    before: State,
    mutation: InsertMutation,
    arguments: Map<Seq<char>, json::Value>,
    after: State,
    insert: Insert,
    alias: ColumnAlias,
)
    requires
        translates_insert(
            translators,
            env,
            before,
            mutation,
            arguments,
            after,
            Ok((insert, alias)),
        ),
    ensures
        insert.schema == mutation.schema_name,
        insert.table == mutation.table_name,
        forall|i: int|
            0 <= i < insert.values@.len() ==> (#[trigger] insert.values@[i])@.len()
                == insert.columns@.len(),
        forall|i: int, j: int|
            0 <= i < j < insert.columns@.len() ==> (#[trigger] insert.columns@[i]).0@ != (
            #[trigger] insert.columns@[j]).0@,
        exists|predicate: Expression| #[trigger]
            inserts(mutation, insert.columns, insert.values, predicate, insert, alias),
{
    let (between, table) = choose|
        between: State,
        table: Result<(Vec<ColumnName>, Vec<Vec<InsertExpression>>), Error>,
    | #[trigger]
        writes_table(
            translators,
            env,
            mutation,
            arguments["_objects"@],
            before,
            between,
            table,
        ) && match table {
            Err(error) => after == between && Ok::<(Insert, ColumnAlias), Error>((insert, alias))
                == Err::<(Insert, ColumnAlias), Error>(error),
            Ok((columns, values)) => translates_constraint(
                translators,
                env,
                between,
                mutation,
                arguments,
                columns,
                values,
                after,
                Ok((insert, alias)),
            ),
        };
    let (columns, values) = table->Ok_0;
    let rows = choose|rows: Seq<Map<Seq<char>, InsertExpression>>| #[trigger]
        tabulates(mutation, rows, Ok((columns, values)));
    assert(insert.columns == columns && insert.values == values);
    assert forall|i: int| 0 <= i < insert.values@.len() implies (#[trigger] insert.values@[i])@.len()
        == insert.columns@.len() by {
        lemma_rows_fit_the_columns(mutation, rows, columns, values, i);
    }
    assert forall|i: int, j: int| 0 <= i < j < insert.columns@.len() implies (
    #[trigger] insert.columns@[i]).0@ != (#[trigger] insert.columns@[j]).0@ by {
        lemma_inserted_columns_are_distinct(mutation, rows, columns, values, i, j);
    }
}

/// Arguments other than the objects and the constraint are ignored: where two maps of arguments
/// agree on those two, every outcome of the translation with one map is an outcome with the other.
pub proof fn lemma_other_arguments_are_ignored<T: Translators>(
    translators: T,
    env: Env<'_>,
    before: State,
    mutation: InsertMutation,
    first: Map<Seq<char>, json::Value>,
    second: Map<Seq<char>, json::Value>,
    after: State,
    r: Result<(Insert, ColumnAlias), Error>,
)
    requires
        agree_on(first, second, "_objects"@),
        agree_on(first, second, mutation.constraint.argument_name@),
    ensures
        translates_insert(translators, env, before, mutation, first, after, r)
            <==> translates_insert(translators, env, before, mutation, second, after, r),
{
}

/// Two maps hold the same value under a key, or neither holds one.
pub open spec fn agree_on<V>(
    first: Map<Seq<char>, V>,
    second: Map<Seq<char>, V>,
    key: Seq<char>,
) -> bool {
    &&& first.contains_key(key) == second.contains_key(key)
    &&& first.contains_key(key) ==> first[key] == second[key]
}

/// Given the description of an insert mutation (ie, `InsertMutation`),
/// and the arguments, output the SQL AST.
pub fn translate<T: Translators>(
    translators: &T,
    env: &Env<'_>,
    state: &mut State,
    mutation: &InsertMutation,
    arguments: &StringMap<json::Value>,
) -> (r: Result<(Insert, ColumnAlias), Error>)
    ensures
        translates_insert(
            *translators,
            *env,
            *old(state),
            *mutation,
            arguments@,
            *final(state),
            r,
        ),
{
    let object = match arguments.get("_objects") {
        Some(object) => object,
        None => {
            return Err(Error::ArgumentNotFound("_objects".to_string()));
        },
    };

    let (columns, values) = match translate_objects_to_columns_and_values(
        translators,
        env,
        state,
        mutation,
        object,
    ) {
        Ok(columns_and_values) => columns_and_values,
        Err(error) => {
            return Err(error);
        },
    };
    let ghost between = *state;

    let table_name_and_reference = TableNameAndReference {
        name: mutation.collection_name.clone(),
        reference: TableReference::DBTable {
            schema: mutation.schema_name.clone(),
            table: mutation.table_name.clone(),
        },
    };

    // Build the `constraint` argument boolean expression.
    let predicate_json = match arguments.get(mutation.constraint.argument_name.as_str()) {
        Some(predicate_json) => predicate_json,
        None => {
            return Err(Error::ArgumentNotFound(mutation.constraint.argument_name.clone()));
        },
    };

    let read = translators.read_expression(predicate_json);
    assert(reads_expression(*translators, *predicate_json, read));
    let predicate = match read {
        Some(predicate) => predicate,
        None => {
            return Err(Error::ArgumentNotFound(mutation.constraint.argument_name.clone()));
        },
    };

    let mut taken = State::new();
    core::mem::swap(&mut taken, state);
    let (after, checked) = translators.translate_constraint(
        env,
        taken,
        &RootAndCurrentTables {
            root_table: table_name_and_reference.clone(),
            current_table: table_name_and_reference.clone(),
        },
        &predicate,
    );
    *state = after;
    assert(constrains(
        *translators,
        *env,
        between,
        both_tables(inserted_table(*mutation)),
        predicate,
        after,
        checked,
    ));
    match checked {
        Err(error) => Err(error),
        Ok(predicate_expression) => Ok(
            make_insert(mutation, columns, values, predicate_expression),
        ),
    }
}

} // verus!
