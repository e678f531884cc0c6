//! What insert mutations come to, said of the mutation, the arguments, what the translators
//! returned, and the statement alone.

use crate::json;
use crate::metadata::{ColumnInfo, Type};
use crate::models;
use crate::sql;
use crate::sql::ast::{
    ColumnAlias, ColumnName, Expression, Insert, InsertExpression, Returning, SelectList,
    TableReference,
};
use crate::string_map::string_before;
use crate::translation::error::{Error, ErrorView};
use crate::translation::helpers::{Env, RootAndCurrentTables, State, TableNameAndReference};
use crate::translation::mutation::insert::{
    all_columns, column_problem, completed, inserts, is_first_problem, is_given, lists_columns,
    lists_values, member_is_written, members_are_written, object_is_written, objects_are_written,
    row_is_fine, row_result, rows_are_fine, rows_view, tabulates, translates_constraint,
    translates_insert, writes_member, writes_object, writes_objects, writes_table, InsertMutation,
};
use crate::translation::translators::{constrains, reads_expression, writes_value, Translators};
use vstd::prelude::*;

verus! {

////// Checks of a row

/// A row gives a value to a column of the database.
pub open spec fn gives_value(
    inserted_columns: Map<Seq<char>, InsertExpression>,
    column: Seq<char>,
) -> bool {
    inserted_columns.contains_key(column) && inserted_columns[column] is Expression
}

/// A column may have or lack a value. Columns that are generated or always identities must not have
/// one. Columns that are neither nullable, nor have a default, nor are identities, nor are generated
/// must have one. All others may have one or not.
pub open spec fn may_stand(column: ColumnInfo, has_value: bool) -> bool {
    &&& (column.is_generated is Stored || column.is_identity is IdentityAlways) ==> !has_value
    &&& (column.nullable is NonNullable && column.has_default is NoDefault
        && column.is_identity is NotIdentity && column.is_generated is NotGenerated) ==> has_value
}

/// The error for a column that may not have, or may not lack, a value.
pub open spec fn complaint(
    name: Seq<char>,
    column: ColumnInfo,
    has_value: bool,
    insert_name: Seq<char>,
) -> ErrorView {
    if !has_value {
        ErrorView::MissingColumnInInsert(name, insert_name)
    } else if column.is_generated is Stored {
        ErrorView::ColumnIsGenerated(name)
    } else {
        ErrorView::ColumnIsIdentityAlways(name)
    }
}

/// All columns of a table may stand as they do in a row.
pub open spec fn is_acceptable(
    columns: Seq<(String, ColumnInfo)>,
    inserted_columns: Map<Seq<char>, InsertExpression>,
) -> bool {
    forall|i: int|
        0 <= i < columns.len() ==> may_stand(
            (#[trigger] columns[i]).1,
            gives_value(inserted_columns, columns[i].1.name@),
        )
}

/// An error is the complaint about the first column that may not stand as it does in a row.
pub open spec fn is_first_complaint(
    columns: Seq<(String, ColumnInfo)>,
    inserted_columns: Map<Seq<char>, InsertExpression>,
    insert_name: Seq<char>,
    error: ErrorView,
) -> bool {
    exists|i: int|
        {
            &&& 0 <= i < columns.len()
            &&& !may_stand(
                (#[trigger] columns[i]).1,
                gives_value(inserted_columns, columns[i].1.name@),
            )
            &&& error == complaint(
                columns[i].0@,
                columns[i].1,
                gives_value(inserted_columns, columns[i].1.name@),
                insert_name,
            )
            &&& is_acceptable(columns.take(i), inserted_columns)
        }
}

/// A row is accepted if and only if no column that only the database fills in has a value, and each
/// column that has to be given has one. Otherwise the error is about the first column at fault.
pub proof fn lemma_rows_are_checked_by_their_columns(
    columns: Seq<(String, ColumnInfo)>,
    inserted_columns: Map<Seq<char>, InsertExpression>,
    insert_name: Seq<char>,
    error: ErrorView,
)
    ensures
        row_is_fine(columns, inserted_columns, insert_name) <==> is_acceptable(
            columns,
            inserted_columns,
        ),
        is_first_problem(columns, inserted_columns, insert_name, error) <==> is_first_complaint(
            columns,
            inserted_columns,
            insert_name,
            error,
        ),
        is_first_problem(columns, inserted_columns, insert_name, error) ==> !is_acceptable(
            columns,
            inserted_columns,
        ),
{
    lemma_column_is_checked(columns, inserted_columns, insert_name);
    assert forall|i: int| 0 <= i <= columns.len() implies #[trigger] row_is_fine(
        columns.take(i),
        inserted_columns,
        insert_name,
    ) == is_acceptable(columns.take(i), inserted_columns) by {
        lemma_column_is_checked(columns.take(i), inserted_columns, insert_name);
    }
    if is_first_problem(columns, inserted_columns, insert_name, error) {
        let i = choose|i: int|
            {
                &&& 0 <= i < columns.len()
                &&& column_problem(
                    (#[trigger] columns[i]).0@,
                    columns[i].1,
                    inserted_columns,
                    insert_name,
                ) == Some(error)
                &&& row_is_fine(columns.take(i), inserted_columns, insert_name)
            };
        assert(!may_stand(columns[i].1, gives_value(inserted_columns, columns[i].1.name@)));
    }
    if is_first_complaint(columns, inserted_columns, insert_name, error) {
        let i = choose|i: int|
            {
                &&& 0 <= i < columns.len()
                &&& !may_stand(
                    (#[trigger] columns[i]).1,
                    gives_value(inserted_columns, columns[i].1.name@),
                )
                &&& error == complaint(
                    columns[i].0@,
                    columns[i].1,
                    gives_value(inserted_columns, columns[i].1.name@),
                    insert_name,
                )
                &&& is_acceptable(columns.take(i), inserted_columns)
            };
        assert(row_is_fine(columns.take(i), inserted_columns, insert_name));
        assert(column_problem(columns[i].0@, columns[i].1, inserted_columns, insert_name) == Some(
            error,
        ));
    }
}

proof fn lemma_column_is_checked(
    columns: Seq<(String, ColumnInfo)>,
    inserted_columns: Map<Seq<char>, InsertExpression>,
    insert_name: Seq<char>,
)
    ensures
        row_is_fine(columns, inserted_columns, insert_name) == is_acceptable(
            columns,
            inserted_columns,
        ),
        forall|i: int|
            0 <= i < columns.len() ==> column_problem(
                (#[trigger] columns[i]).0@,
                columns[i].1,
                inserted_columns,
                insert_name,
            ) == (if may_stand(
                columns[i].1,
                gives_value(inserted_columns, columns[i].1.name@),
            ) {
                None
            } else {
                Some(
                    complaint(
                        columns[i].0@,
                        columns[i].1,
                        gives_value(inserted_columns, columns[i].1.name@),
                        insert_name,
                    ),
                )
            }),
{
    assert forall|i: int| 0 <= i < columns.len() implies column_problem(
        (#[trigger] columns[i]).0@,
        columns[i].1,
        inserted_columns,
        insert_name,
    ) == (if may_stand(columns[i].1, gives_value(inserted_columns, columns[i].1.name@)) {
        None
    } else {
        Some(
            complaint(
                columns[i].0@,
                columns[i].1,
                gives_value(inserted_columns, columns[i].1.name@),
                insert_name,
            ),
        )
    }) by {
        assert(is_given(inserted_columns, columns[i].1) == gives_value(
            inserted_columns,
            columns[i].1.name@,
        ));
    }
    if row_is_fine(columns, inserted_columns, insert_name) {
        assert(is_acceptable(columns, inserted_columns));
    }
    if is_acceptable(columns, inserted_columns) {
        assert(row_is_fine(columns, inserted_columns, insert_name));
    }
}

////// Tables of rows

/// A row has a column.
pub open spec fn some_row_has(
    rows: Seq<Map<Seq<char>, InsertExpression>>,
    column: Seq<char>,
) -> bool {
    exists|i: int| 0 <= i < rows.len() && (#[trigger] rows[i]).contains_key(column)
}

/// Columns and values are the table of rows: the columns are those that any row has, each once and
/// in ascending order. There is a list of values for each row, which has a value for each column:
/// that of the row, or else the default.
pub open spec fn is_table_of(
    rows: Seq<Map<Seq<char>, InsertExpression>>,
    columns: Seq<ColumnName>,
    values: Seq<Vec<InsertExpression>>,
) -> bool {
    &&& forall|i: int, j: int|
        0 <= i < j < columns.len() ==> string_before(
            (#[trigger] columns[i]).0@,
            (#[trigger] columns[j]).0@,
        )
    &&& forall|j: int|
        0 <= j < columns.len() ==> some_row_has(rows, (#[trigger] columns[j]).0@)
    &&& forall|i: int, name: Seq<char>|
        0 <= i < rows.len() && #[trigger] rows[i].contains_key(name) ==> exists|j: int|
            0 <= j < columns.len() && (#[trigger] columns[j]).0@ == name
    &&& values.len() == rows.len()
    &&& forall|i: int|
        0 <= i < rows.len() ==> (#[trigger] values[i])@.len() == columns.len()
    &&& forall|i: int, j: int|
        0 <= i < rows.len() && 0 <= j < columns.len() ==> (#[trigger] values[i]@[j])
            == if rows[i].contains_key(columns[j].0@) {
            rows[i][columns[j].0@]
        } else {
            InsertExpression::Default
        }
}

/// Rows come to their table if and only if every one is accepted. Otherwise they come to the
/// complaint about the first that is not.
pub proof fn lemma_rows_come_to_their_table(
    mutation: InsertMutation,
    rows: Seq<Map<Seq<char>, InsertExpression>>,
    r: Result<(Vec<ColumnName>, Vec<Vec<InsertExpression>>), Error>,
)
    requires
        tabulates(mutation, rows, r),
    ensures
        match r {
            Ok((columns, values)) => {
                &&& is_table_of(rows, columns@, values@)
                &&& forall|i: int|
                    0 <= i < rows.len() ==> is_acceptable(
                        mutation.columns.entries(),
                        #[trigger] rows[i],
                    )
            },
            Err(error) => exists|i: int|
                {
                    &&& 0 <= i < rows.len()
                    &&& is_first_complaint(
                        mutation.columns.entries(),
                        #[trigger] rows[i],
                        mutation.collection_name@,
                        error@,
                    )
                    &&& forall|k: int|
                        0 <= k < i ==> is_acceptable(
                            mutation.columns.entries(),
                            #[trigger] rows[k],
                        )
                },
        },
{
    let all = all_columns(rows);
    let entries = mutation.columns.entries();
    let name = mutation.collection_name@;
    assert forall|i: int, error: ErrorView| 0 <= i < rows.len() implies (
    #[trigger] is_first_complaint(entries, rows[i], name, error) == is_first_problem(
        entries,
        completed(rows[i], all),
        name,
        error,
    )) && is_acceptable(entries, rows[i]) == row_is_fine(entries, completed(rows[i], all), name) by {
        lemma_completed_row_is_checked_alike(rows, i, entries, name, error);
    }
    assert forall|i: int| 0 <= i < rows.len() implies is_acceptable(entries, #[trigger] rows[i])
        == row_is_fine(entries, completed(rows[i], all), name) by {
        lemma_completed_row_is_checked_alike(
            rows,
            i,
            entries,
            name,
            ErrorView::UnexpectedVariable,
        );
    }
    match r {
        Ok((columns, values)) => {
            assert forall|j: int| 0 <= j < columns@.len() implies some_row_has(
                rows,
                (#[trigger] columns@[j]).0@,
            ) by {
                assert(all.contains(columns@[j].0@));
            }
            assert forall|i: int, column: Seq<char>|
                0 <= i < rows.len() && #[trigger] rows[i].contains_key(column) implies exists|j: int|
                0 <= j < columns@.len() && (#[trigger] columns@[j]).0@ == column by {
                assert(all.contains(column));
            }
            assert forall|i: int| 0 <= i < rows.len() implies (#[trigger] values@[i])@.len()
                == columns@.len() by {
                assert(lists_values(values@[i]@, columns@, completed(rows[i], all)));
            }
            assert forall|i: int, j: int| 0 <= i < rows.len() && 0 <= j < columns@.len() implies (
            #[trigger] values@[i]@[j]) == if rows[i].contains_key(columns@[j].0@) {
                rows[i][columns@[j].0@]
            } else {
                InsertExpression::Default
            } by {
                assert(lists_values(values@[i]@, columns@, completed(rows[i], all)));
                assert(all.contains(columns@[j].0@));
            }
            assert forall|i: int| 0 <= i < rows.len() implies is_acceptable(
                entries,
                #[trigger] rows[i],
            ) by {
                assert(row_is_fine(entries, completed(rows[i], all), name));
            }
            assert(lists_columns(columns@, all));
            assert(is_table_of(rows, columns@, values@));
        },
        Err(error) => {
            let i = choose|i: int|
                {
                    &&& 0 <= i < rows.len()
                    &&& is_first_problem(
                        entries,
                        completed(#[trigger] rows[i], all),
                        name,
                        error@,
                    )
                    &&& rows_are_fine(mutation, rows, i as nat)
                };
            assert(is_first_complaint(entries, rows[i], name, error@));
        },
    }
}

proof fn lemma_completed_row_is_checked_alike(
    rows: Seq<Map<Seq<char>, InsertExpression>>,
    i: int,
    columns: Seq<(String, ColumnInfo)>,
    insert_name: Seq<char>,
    error: ErrorView,
)
    requires
        0 <= i < rows.len(),
    ensures
        is_first_complaint(columns, rows[i], insert_name, error) == is_first_problem(
            columns,
            completed(rows[i], all_columns(rows)),
            insert_name,
            error,
        ),
        is_acceptable(columns, rows[i]) == row_is_fine(
            columns,
            completed(rows[i], all_columns(rows)),
            insert_name,
        ),
{
    let row = completed(rows[i], all_columns(rows));
    assert forall|column: Seq<char>| #[trigger]
        gives_value(rows[i], column) == gives_value(row, column) by {
        if rows[i].contains_key(column) {
            assert(all_columns(rows).contains(column));
        }
    }
    lemma_rows_are_checked_by_their_columns(columns, row, insert_name, error);
    assert forall|k: int| 0 <= k <= columns.len() implies #[trigger] is_acceptable(
        columns.take(k),
        rows[i],
    ) == is_acceptable(columns.take(k), row) by {}
    assert(is_acceptable(columns, rows[i]) == is_acceptable(columns, row));
    assert(is_first_complaint(columns, rows[i], insert_name, error) == is_first_complaint(
        columns,
        row,
        insert_name,
        error,
    ));
}

////// Rows of objects

/// A value can come to `r`, asked of a type.
pub open spec fn value_comes_to<T: Translators>(
    translators: T,
    env: Env<'_>,
    before: State,
    value: json::Value,
    data_type: Type,
    after: State,
    r: Result<Expression, Error>,
) -> bool {
    call_ensures(
        T::translate_json_value,
        (&translators, &env, before, &value, &data_type),
        (after, r),
    )
}

/// The name in the database of the column that a member of an object is inserted into.
pub open spec fn target(mutation: InsertMutation, member: (String, json::Value)) -> Seq<char> {
    mutation.columns@[member.0@].name@
}

/// The values of the members of an object come to expressions, each as a value of the type of the
/// column that the member names, and each translated after the other.
pub open spec fn values_come_to<T: Translators>(
    translators: T,
    env: Env<'_>,
    mutation: InsertMutation,
    members: Seq<(String, json::Value)>,
    states: Seq<State>,
    expressions: Seq<Expression>,
) -> bool {
    &&& states.len() == members.len() + 1
    &&& expressions.len() == members.len()
    &&& forall|k: int|
        0 <= k < members.len() ==> mutation.columns@.contains_key((#[trigger] members[k]).0@)
            && value_comes_to(
            translators,
            env,
            states[k],
            members[k].1,
            mutation.columns@[members[k].0@].data_type,
            states[k + 1],
            Ok(expressions[k]),
        )
}

/// Some member of an object is inserted into a column.
pub open spec fn some_member_targets(
    mutation: InsertMutation,
    members: Seq<(String, json::Value)>,
    column: Seq<char>,
) -> bool {
    exists|k: int| 0 <= k < members.len() && target(mutation, #[trigger] members[k]) == column
}

/// No later member of an object is inserted into the same column.
pub open spec fn is_last_for_its_column(
    mutation: InsertMutation,
    members: Seq<(String, json::Value)>,
    k: int,
) -> bool {
    forall|later: int|
        k < later < members.len() ==> target(mutation, #[trigger] members[later]) != target(
            mutation,
            members[k],
        )
}

/// A row has the columns that the members of an object name and no others, and in each the
/// expression of the last member that names it.
pub open spec fn holds_values(
    mutation: InsertMutation,
    members: Seq<(String, json::Value)>,
    expressions: Seq<Expression>,
    row: Map<Seq<char>, InsertExpression>,
) -> bool {
    &&& forall|column: Seq<char>| #[trigger]
        row.contains_key(column) <==> some_member_targets(mutation, members, column)
    &&& forall|k: int|
        0 <= k < members.len() && is_last_for_its_column(mutation, members, k) ==> row[target(
            mutation,
            #[trigger] members[k],
        )] == InsertExpression::Expression(expressions[k])
}

/// A row is that of an object: its members all name columns of the collection, and the row holds
/// what their values came to. Translating them took the state from `before` to `after`.
pub open spec fn is_row_of<T: Translators>(
    translators: T,
    env: Env<'_>,
    mutation: InsertMutation,
    members: Seq<(String, json::Value)>,
    before: State,
    after: State,
    row: Map<Seq<char>, InsertExpression>,
) -> bool {
    exists|states: Seq<State>, expressions: Seq<Expression>| #[trigger]
        values_come_to(translators, env, mutation, members, states, expressions) && states[0]
            == before && states.last() == after && holds_values(
            mutation,
            members,
            expressions,
            row,
        )
}

/// A value is refused as an object because of an error: it is no object, or a member of it is
/// refused.
pub open spec fn object_fails<T: Translators>(
    translators: T,
    env: Env<'_>,
    mutation: InsertMutation,
    object: json::Value,
    before: State,
    after: State,
    error: Error,
) -> bool {
    match object {
        json::Value::Object(members) => exists|
            k: int,
            states: Seq<State>,
            expressions: Seq<Expression>,
        |
            0 <= k < members@.len() && #[trigger] values_come_to(
                translators,
                env,
                mutation,
                members@.take(k),
                states,
                expressions,
            ) && states[0] == before && member_fails(
                translators,
                env,
                mutation,
                members@[k],
                states.last(),
                after,
                error,
            ),
        json::Value::Array(_) => {
            &&& after == before
            &&& error@ == ErrorView::UnexpectedStructure(
                "array of arrays structure in insert _objects argument. Expecting an array of objects."@,
            )
        },
        _ => {
            &&& after == before
            &&& error@ == ErrorView::UnexpectedStructure(
                "array of values structure in insert _objects argument. Expecting an array of objects."@,
            )
        },
    }
}

/// A member of an object is refused because of an error: it names no column of the collection, or a
/// translator refused its value.
pub open spec fn member_fails<T: Translators>(
    translators: T,
    env: Env<'_>,
    mutation: InsertMutation,
    member: (String, json::Value),
    before: State,
    after: State,
    error: Error,
) -> bool {
    if !mutation.columns@.contains_key(member.0@) {
        &&& after == before
        &&& error@ == ErrorView::ColumnNotFoundInCollection(member.0@, mutation.collection_name@)
    } else {
        value_comes_to(
            translators,
            env,
            before,
            member.1,
            mutation.columns@[member.0@].data_type,
            after,
            Err(error),
        )
    }
}

/// What a member that was written came to.
proof fn expression_of_member<T: Translators>(
    translators: T,
    env: Env<'_>,
    mutation: InsertMutation,
    member: (String, json::Value),
    so_far: Map<Seq<char>, InsertExpression>,
    before: State,
    after: State,
    row: Map<Seq<char>, InsertExpression>,
) -> (expression: Expression)
    requires
        writes_member(
            translators,
            env,
            mutation,
            member.0@,
            member.1,
            so_far,
            before,
            after,
            Ok(row),
        ),
    ensures
        mutation.columns@.contains_key(member.0@),
        value_comes_to(
            translators,
            env,
            before,
            member.1,
            mutation.columns@[member.0@].data_type,
            after,
            Ok(expression),
        ),
        row == so_far.insert(target(mutation, member), InsertExpression::Expression(expression)),
{
    let column = mutation.columns@[member.0@];
    let written = choose|written: Result<Expression, Error>| #[trigger]
        writes_value(translators, env, before, member.1, column.data_type, after, written)
            && match written {
            Err(error) => Ok::<Map<Seq<char>, InsertExpression>, Error>(row) == Err::<
                Map<Seq<char>, InsertExpression>,
                Error,
            >(error),
            Ok(expression) => row == so_far.insert(
                column.name@,
                InsertExpression::Expression(expression),
            ),
        };
    assert(value_comes_to(
        translators,
        env,
        before,
        member.1,
        column.data_type,
        after,
        written,
    ));
    written->Ok_0
}

/// What the first members of an object came to.
proof fn expressions_of_members<T: Translators>(
    translators: T,
    env: Env<'_>,
    mutation: InsertMutation,
    members: Seq<(String, json::Value)>,
    before: State,
    states: Seq<State>,
    rows: Seq<Map<Seq<char>, InsertExpression>>,
    n: nat,
) -> (expressions: Seq<Expression>)
    requires
        members_are_written(translators, env, mutation, members, before, states, rows),
        n < states.len(),
    ensures
        values_come_to(
            translators,
            env,
            mutation,
            members.take(n as int),
            states.take((n + 1) as int),
            expressions,
        ),
        holds_values(mutation, members.take(n as int), expressions, rows[n as int]),
    decreases n,
{
    let now = members.take(n as int);
    let row = rows[n as int];
    if n == 0 {
        let none = Seq::<Expression>::empty();
        assert forall|column: Seq<char>| #[trigger]
            row.contains_key(column) <==> some_member_targets(mutation, now, column) by {}
        assert(holds_values(mutation, now, none, row));
        none
    } else {
        let m = n - 1;
        let earlier = members.take(m as int);
        let so_far = rows[m as int];
        let member = members[m as int];
        let before_it = expressions_of_members(
            translators,
            env,
            mutation,
            members,
            before,
            states,
            rows,
            m as nat,
        );
        assert(member_is_written(translators, env, mutation, members, states, rows, m as int));
        let expression = expression_of_member(
            translators,
            env,
            mutation,
            member,
            so_far,
            states[m as int],
            states[m + 1],
            row,
        );
        let expressions = before_it.push(expression);
        let now_states = states.take((n + 1) as int);
        assert forall|k: int| 0 <= k < now.len() implies mutation.columns@.contains_key(
            (#[trigger] now[k]).0@,
        ) && value_comes_to(
            translators,
            env,
            now_states[k],
            now[k].1,
            mutation.columns@[now[k].0@].data_type,
            now_states[k + 1],
            Ok(expressions[k]),
        ) by {
            if k < m {
                assert(earlier[k] == now[k]);
                assert(states.take(m + 1)[k] == now_states[k]);
                assert(states.take(m + 1)[k + 1] == now_states[k + 1]);
            }
        }
        assert(values_come_to(translators, env, mutation, now, now_states, expressions));
        lemma_one_more_member(mutation, earlier, before_it, so_far, member, expression);
        assert(now =~= earlier.push(member));
        expressions
    }
}

proof fn lemma_one_more_member(
    mutation: InsertMutation,
    members: Seq<(String, json::Value)>,
    expressions: Seq<Expression>,
    row: Map<Seq<char>, InsertExpression>,
    member: (String, json::Value),
    expression: Expression,
)
    requires
        expressions.len() == members.len(),
        holds_values(mutation, members, expressions, row),
    ensures
        holds_values(
            mutation,
            members.push(member),
            expressions.push(expression),
            row.insert(target(mutation, member), InsertExpression::Expression(expression)),
        ),
{
    let now = members.push(member);
    let m = members.len() as int;
    let all = expressions.push(expression);
    let longer = row.insert(target(mutation, member), InsertExpression::Expression(expression));
    assert(now[m] == member);
    assert forall|name: Seq<char>| #[trigger]
        longer.contains_key(name) <==> some_member_targets(mutation, now, name) by {
        if name == target(mutation, member) {
            assert(target(mutation, now[m]) == name);
        }
        if row.contains_key(name) {
            let k = choose|k: int|
                0 <= k < members.len() && target(mutation, #[trigger] members[k]) == name;
            assert(target(mutation, now[k]) == name);
        }
        if some_member_targets(mutation, now, name) && name != target(mutation, member) {
            let k = choose|k: int|
                0 <= k < now.len() && target(mutation, #[trigger] now[k]) == name;
            assert(members[k] == now[k]);
            assert(some_member_targets(mutation, members, name));
        }
    }
    assert forall|k: int|
        0 <= k < now.len() && is_last_for_its_column(mutation, now, k) implies longer[target(
        mutation,
        #[trigger] now[k],
    )] == InsertExpression::Expression(all[k]) by {
        if k < m {
            assert(members[k] == now[k]);
            assert(target(mutation, now[m]) != target(mutation, now[k]));
            assert forall|later: int| k < later < members.len() implies target(
                mutation,
                #[trigger] members[later],
            ) != target(mutation, members[k]) by {
                assert(now[later] == members[later]);
            }
            assert(is_last_for_its_column(mutation, members, k));
        }
    }
}

/// An object comes to its row, or is refused for a reason.
pub proof fn lemma_object_comes_to_its_row<T: Translators>(
    translators: T,
    env: Env<'_>,
    mutation: InsertMutation,
    object: json::Value,
    before: State,
    after: State,
    r: Result<Map<Seq<char>, InsertExpression>, Error>,
)
    requires
        writes_object(translators, env, mutation, object, before, after, r),
    ensures
        match r {
            Ok(row) => object matches json::Value::Object(members) && is_row_of(
                translators,
                env,
                mutation,
                members@,
                before,
                after,
                row,
            ),
            Err(error) => object_fails(
                translators,
                env,
                mutation,
                object,
                before,
                after,
                error,
            ),
        },
{
    if let json::Value::Object(members) = object {
        let (states, rows) = choose|
            states: Seq<State>,
            rows: Seq<Map<Seq<char>, InsertExpression>>,
        | #[trigger]
            members_are_written(translators, env, mutation, members@, before, states, rows)
                && match r {
                Ok(row) => {
                    &&& states.len() == members@.len() + 1
                    &&& after == states.last()
                    &&& row == rows.last()
                },
                Err(_) => {
                    &&& states.len() <= members@.len()
                    &&& writes_member(
                        translators,
                        env,
                        mutation,
                        members@[states.len() - 1].0@,
                        members@[states.len() - 1].1,
                        rows.last(),
                        states.last(),
                        after,
                        r,
                    )
                },
            };
        let k = states.len() - 1;
        let expressions = expressions_of_members(
            translators,
            env,
            mutation,
            members@,
            before,
            states,
            rows,
            k as nat,
        );
        assert(states.take(k + 1) =~= states);
        match r {
            Ok(row) => {
                assert(members@.take(k) =~= members@);
            },
            Err(error) => {
                let member = members@[k];
                if mutation.columns@.contains_key(member.0@) {
                    let column = mutation.columns@[member.0@];
                    let written = choose|written: Result<Expression, Error>| #[trigger]
                        writes_value(
                            translators,
                            env,
                            states.last(),
                            member.1,
                            column.data_type,
                            after,
                            written,
                        ) && match written {
                            Err(inner) => r == Err::<Map<Seq<char>, InsertExpression>, Error>(
                                inner,
                            ),
                            Ok(expression) => r == Ok::<Map<Seq<char>, InsertExpression>, Error>(
                                rows.last().insert(
                                    column.name@,
                                    InsertExpression::Expression(expression),
                                ),
                            ),
                        };
                    assert(value_comes_to(
                        translators,
                        env,
                        states.last(),
                        member.1,
                        column.data_type,
                        after,
                        written,
                    ));
                }
                assert(member_fails(
                    translators,
                    env,
                    mutation,
                    members@[k],
                    states.last(),
                    after,
                    error,
                ));
                assert(values_come_to(
                    translators,
                    env,
                    mutation,
                    members@.take(k),
                    states,
                    expressions,
                ));
            },
        }
    }
}

/// Rows are those of objects, one for each, and each translated after the other.
pub open spec fn are_rows_of<T: Translators>(
    translators: T,
    env: Env<'_>,
    mutation: InsertMutation,
    objects: Seq<json::Value>,
    states: Seq<State>,
    rows: Seq<Map<Seq<char>, InsertExpression>>,
) -> bool {
    &&& rows.len() == objects.len()
    &&& states.len() == objects.len() + 1
    &&& forall|i: int|
        0 <= i < objects.len() ==> (#[trigger] objects[i] matches json::Value::Object(members)
            && is_row_of(
            translators,
            env,
            mutation,
            members@,
            states[i],
            states[i + 1],
            rows[i],
        ))
}

/// A document comes to columns and values: it is an array of objects, and the columns and values are
/// the table of their rows, which are all accepted.
pub open spec fn is_table_of_document<T: Translators>(
    translators: T,
    env: Env<'_>,
    mutation: InsertMutation,
    value: json::Value,
    states: Seq<State>,
    rows: Seq<Map<Seq<char>, InsertExpression>>,
    columns: Seq<ColumnName>,
    values: Seq<Vec<InsertExpression>>,
) -> bool {
    &&& value matches json::Value::Array(objects) && are_rows_of(
        translators,
        env,
        mutation,
        objects@,
        states,
        rows,
    )
    &&& is_table_of(rows, columns, values)
    &&& forall|i: int|
        0 <= i < rows.len() ==> is_acceptable(mutation.columns.entries(), #[trigger] rows[i])
}

/// A document is refused because of an error: it is no array, or its first element that is refused
/// is refused for it, or its first row that is not accepted is complained about with it.
pub open spec fn document_fails<T: Translators>(
    translators: T,
    env: Env<'_>,
    mutation: InsertMutation,
    value: json::Value,
    before: State,
    after: State,
    error: Error,
) -> bool {
    match value {
        json::Value::Array(objects) => {
            ||| exists|
                i: int,
                states: Seq<State>,
                rows: Seq<Map<Seq<char>, InsertExpression>>,
            |
                0 <= i < objects@.len() && #[trigger] are_rows_of(
                    translators,
                    env,
                    mutation,
                    objects@.take(i),
                    states,
                    rows,
                ) && states[0] == before && object_fails(
                    translators,
                    env,
                    mutation,
                    objects@[i],
                    states.last(),
                    after,
                    error,
                )
            ||| exists|states: Seq<State>, rows: Seq<Map<Seq<char>, InsertExpression>>| #[trigger]
                are_rows_of(translators, env, mutation, objects@, states, rows) && states[0]
                    == before && states.last() == after && first_row_fails(mutation, rows, error)
        },
        json::Value::Object(_) => {
            &&& after == before
            &&& error@ == ErrorView::UnexpectedStructure(
                "object structure in insert _objects argument. Expecting an array of objects."@,
            )
        },
        _ => {
            &&& after == before
            &&& error@ == ErrorView::UnexpectedStructure(
                "value structure in insert _objects argument. Expecting an array of objects."@,
            )
        },
    }
}

/// The first row that is not accepted is complained about.
pub open spec fn first_row_fails(
    mutation: InsertMutation,
    rows: Seq<Map<Seq<char>, InsertExpression>>,
    error: Error,
) -> bool {
    exists|i: int|
        {
            &&& 0 <= i < rows.len()
            &&& is_first_complaint(
                mutation.columns.entries(),
                #[trigger] rows[i],
                mutation.collection_name@,
                error@,
            )
            &&& forall|k: int|
                0 <= k < i ==> is_acceptable(mutation.columns.entries(), #[trigger] rows[k])
        }
}

/// A document of objects comes to the table of their rows, or is refused for a reason.
pub proof fn lemma_document_comes_to_its_table<T: Translators>(
    translators: T,
    env: Env<'_>,
    mutation: InsertMutation,
    value: json::Value,
    before: State,
    after: State,
    r: Result<(Vec<ColumnName>, Vec<Vec<InsertExpression>>), Error>,
)
    requires
        writes_table(translators, env, mutation, value, before, after, r),
    ensures
        match r {
            Ok((columns, values)) => exists|
                states: Seq<State>,
                rows: Seq<Map<Seq<char>, InsertExpression>>,
            | #[trigger]
                is_table_of_document(
                    translators,
                    env,
                    mutation,
                    value,
                    states,
                    rows,
                    columns@,
                    values@,
                ) && states[0] == before && states.last() == after,
            Err(error) => document_fails(
                translators,
                env,
                mutation,
                value,
                before,
                after,
                error,
            ),
        },
{
    if let json::Value::Array(objects) = value {
        let outcome = choose|outcome: Result<Seq<Map<Seq<char>, InsertExpression>>, Error>|
         #[trigger]
            writes_objects(translators, env, mutation, objects@, before, after, outcome)
                && match outcome {
                Err(error) => r == Err::<(Vec<ColumnName>, Vec<Vec<InsertExpression>>), Error>(
                    error,
                ),
                Ok(rows) => tabulates(mutation, rows, r),
            };
        let (states, rows) = choose|
            states: Seq<State>,
            rows: Seq<Map<Seq<char>, InsertExpression>>,
        | #[trigger]
            objects_are_written(translators, env, mutation, objects@, before, states, rows)
                && match outcome {
                Ok(all_rows) => {
                    &&& rows.len() == objects@.len()
                    &&& all_rows == rows
                    &&& after == states.last()
                },
                Err(error) => {
                    &&& rows.len() < objects@.len()
                    &&& writes_object(
                        translators,
                        env,
                        mutation,
                        objects@[rows.len() as int],
                        states.last(),
                        after,
                        Err(error),
                    )
                },
            };
        let n = rows.len() as int;
        lemma_written_objects_are_rows(
            translators,
            env,
            mutation,
            objects@,
            before,
            states,
            rows,
        );
        match outcome {
            Ok(_) => {
                assert(objects@.take(n) =~= objects@);
                lemma_rows_come_to_their_table(mutation, rows, r);
                match r {
                    Ok((columns, values)) => {
                        assert(is_table_of_document(
                            translators,
                            env,
                            mutation,
                            value,
                            states,
                            rows,
                            columns@,
                            values@,
                        ));
                    },
                    Err(error) => {
                        assert(first_row_fails(mutation, rows, error));
                        assert(are_rows_of(translators, env, mutation, objects@, states, rows));
                    },
                }
            },
            Err(error) => {
                lemma_object_comes_to_its_row(
                    translators,
                    env,
                    mutation,
                    objects@[n],
                    states.last(),
                    after,
                    Err(error),
                );
            },
        }
    }
}

proof fn lemma_written_objects_are_rows<T: Translators>(
    translators: T,
    env: Env<'_>,
    mutation: InsertMutation,
    objects: Seq<json::Value>,
    before: State,
    states: Seq<State>,
    rows: Seq<Map<Seq<char>, InsertExpression>>,
)
    requires
        objects_are_written(translators, env, mutation, objects, before, states, rows),
    ensures
        are_rows_of(
            translators,
            env,
            mutation,
            objects.take(rows.len() as int),
            states,
            rows,
        ),
{
    let first = objects.take(rows.len() as int);
    assert forall|i: int| 0 <= i < first.len() implies (
    #[trigger] first[i] matches json::Value::Object(members) && is_row_of(
        translators,
        env,
        mutation,
        members@,
        states[i],
        states[i + 1],
        rows[i],
    )) by {
        assert(object_is_written(translators, env, mutation, objects, states, rows, i));
        lemma_object_comes_to_its_row(
            translators,
            env,
            mutation,
            objects[i],
            states[i],
            states[i + 1],
            Ok(rows[i]),
        );
    }
}

////// Insert statements

/// A document can be read as `r`.
pub open spec fn reads_as<T: Translators>(
    translators: T,
    document: json::Value,
    r: Option<models::Expression>,
) -> bool {
    call_ensures(T::read_expression, (&translators, &document), r)
}

/// A predicate on the inserted rows can come to `r`, asked of the table that they are inserted into
/// as the root and the current one.
pub open spec fn constraint_comes_to<T: Translators>(
    translators: T,
    env: Env<'_>,
    before: State,
    mutation: InsertMutation,
    predicate: models::Expression,
    after: State,
    r: Result<Expression, Error>,
) -> bool {
    let table = TableNameAndReference {
        name: mutation.collection_name,
        reference: TableReference::DBTable {
            schema: mutation.schema_name,
            table: mutation.table_name,
        },
    };
    call_ensures(
        T::translate_constraint,
        (
            &translators,
            &env,
            before,
            &RootAndCurrentTables { root_table: table, current_table: table },
            &predicate,
        ),
        (after, r),
    )
}

/// An insert statement returns the rows, and under an alias what the constraint came to.
pub open spec fn returns_constraint<T: Translators>(
    translators: T,
    env: Env<'_>,
    before: State,
    mutation: InsertMutation,
    document: json::Value,
    predicate: models::Expression,
    after: State,
    expression: Expression,
    insert: Insert,
    alias: ColumnAlias,
) -> bool {
    &&& reads_as(translators, document, Some(predicate))
    &&& constraint_comes_to(
        translators,
        env,
        before,
        mutation,
        predicate,
        after,
        Ok(expression),
    )
    &&& alias.name@ == "%check__constraint"@
    &&& insert.returning matches Returning::Returning(
        SelectList::SelectListComposite(rows, checks),
    ) && *rows is SelectStar && (*checks matches SelectList::SelectList(list) && list@.len() == 1
        && list@[0].0 == alias && list@[0].1 == expression)
}

/// A constraint is refused because of an error: it cannot be read, or a translator refused it.
pub open spec fn constraint_fails<T: Translators>(
    translators: T,
    env: Env<'_>,
    mutation: InsertMutation,
    document: json::Value,
    before: State,
    after: State,
    error: Error,
) -> bool {
    ||| reads_as(translators, document, None) && after == before && error@
        == ErrorView::ArgumentNotFound(mutation.constraint.argument_name@)
    ||| exists|predicate: models::Expression|
        reads_as(translators, document, Some(predicate)) && #[trigger] constraint_comes_to(
            translators,
            env,
            before,
            mutation,
            predicate,
            after,
            Err(error),
        )
}

/// A translated insert mutation inserts into its table the rows of the objects that were sent, each
/// of which is accepted, and returns what the constraint that was sent came to.
pub proof fn lemma_insert_is_what_was_sent<T: Translators>(
    translators: T,
    env: Env<'_>,
    before: State,
    mutation: InsertMutation,
    arguments: Map<Seq<char>, json::Value>,
    after: State,
    insert: Insert,
    alias: ColumnAlias,
)
    requires
        translates_insert(
            translators,
            env,
            before,
            mutation,
            arguments,
            after,
            Ok((insert, alias)),
        ),
    ensures
        insert.schema == mutation.schema_name,
        insert.table == mutation.table_name,
        arguments.contains_key("_objects"@),
        arguments.contains_key(mutation.constraint.argument_name@),
        exists|
            states: Seq<State>,
            rows: Seq<Map<Seq<char>, InsertExpression>>,
            predicate: models::Expression,
            expression: Expression,
        |
            #[trigger] is_table_of_document(
                translators,
                env,
                mutation,
                arguments["_objects"@],
                states,
                rows,
                insert.columns@,
                insert.values@,
            ) && states[0] == before && #[trigger] returns_constraint(
                translators,
                env,
                states.last(),
                mutation,
                arguments[mutation.constraint.argument_name@],
                predicate,
                after,
                expression,
                insert,
                alias,
            ),
{
    let name = mutation.constraint.argument_name@;
    let (between, columns, values) = choose|
        between: State,
        columns: Vec<ColumnName>,
        values: Vec<Vec<InsertExpression>>,
    |
        #[trigger] writes_table(
            translators,
            env,
            mutation,
            arguments["_objects"@],
            before,
            between,
            Ok((columns, values)),
        ) && translates_constraint(
            translators,
            env,
            between,
            mutation,
            arguments,
            columns,
            values,
            after,
            Ok((insert, alias)),
        );
    lemma_document_comes_to_its_table(
        translators,
        env,
        mutation,
        arguments["_objects"@],
        before,
        between,
        Ok((columns, values)),
    );
    let (predicate, expression) = choose|predicate: models::Expression, expression: Expression|
        #[trigger] reads_expression(translators, arguments[name], Some(predicate))
            && #[trigger] constrains(
            translators,
            env,
            between,
            crate::translation::query::root::both_tables(
                crate::translation::mutation::insert::inserted_table(mutation),
            ),
            predicate,
            after,
            Ok(expression),
        ) && inserts(mutation, columns, values, expression, insert, alias);
    let (states, rows) = choose|
        states: Seq<State>,
        rows: Seq<Map<Seq<char>, InsertExpression>>,
    | #[trigger]
        is_table_of_document(
            translators,
            env,
            mutation,
            arguments["_objects"@],
            states,
            rows,
            columns@,
            values@,
        ) && states[0] == before && states.last() == between;
    assert(sql::helpers::CHECK_CONSTRAINT_FIELD@ == "%check__constraint"@);
    assert(returns_constraint(
        translators,
        env,
        states.last(),
        mutation,
        arguments[name],
        predicate,
        after,
        expression,
        insert,
        alias,
    ));
}

/// A document comes to columns and values, which takes the state from `before` to `after`.
pub open spec fn document_succeeds<T: Translators>(
    translators: T,
    env: Env<'_>,
    mutation: InsertMutation,
    value: json::Value,
    before: State,
    after: State,
) -> bool {
    exists|
        states: Seq<State>,
        rows: Seq<Map<Seq<char>, InsertExpression>>,
        columns: Seq<ColumnName>,
        values: Seq<Vec<InsertExpression>>,
    | #[trigger]
        is_table_of_document(
            translators,
            env,
            mutation,
            value,
            states,
            rows,
            columns,
            values,
        ) && states[0] == before && states.last() == after
}

/// An insert mutation is refused only for a reason: an argument is missing, the objects that were
/// sent are refused, or the constraint that was sent is refused.
pub proof fn lemma_insert_fails_for_a_reason<T: Translators>(
    translators: T,
    env: Env<'_>,
    before: State,
    mutation: InsertMutation,
    arguments: Map<Seq<char>, json::Value>,
    after: State,
    error: Error,
)
    requires
        translates_insert(translators, env, before, mutation, arguments, after, Err(error)),
    ensures
        ({
            let name = mutation.constraint.argument_name@;
            if !arguments.contains_key("_objects"@) {
                error@ == ErrorView::ArgumentNotFound("_objects"@) && after == before
            } else {
                ||| document_fails(
                    translators,
                    env,
                    mutation,
                    arguments["_objects"@],
                    before,
                    after,
                    error,
                )
                ||| exists|between: State| #[trigger]
                    document_succeeds(
                        translators,
                        env,
                        mutation,
                        arguments["_objects"@],
                        before,
                        between,
                    ) && if arguments.contains_key(name) {
                        constraint_fails(
                            translators,
                            env,
                            mutation,
                            arguments[name],
                            between,
                            after,
                            error,
                        )
                    } else {
                        after == between && error@ == ErrorView::ArgumentNotFound(name)
                    }
            }
        }),
{
    let name = mutation.constraint.argument_name@;
    if arguments.contains_key("_objects"@) {
        let (between, table) = choose|
            between: State,
            table: Result<(Vec<ColumnName>, Vec<Vec<InsertExpression>>), Error>,
        | #[trigger]
            writes_table(
                translators,
                env,
                mutation,
                arguments["_objects"@],
                before,
                between,
                table,
            ) && match table {
                Err(inner) => after == between && Err::<(Insert, ColumnAlias), Error>(error)
                    == Err::<(Insert, ColumnAlias), Error>(inner),
                Ok((columns, values)) => translates_constraint(
                    translators,
                    env,
                    between,
                    mutation,
                    arguments,
                    columns,
                    values,
                    after,
                    Err(error),
                ),
            };
        lemma_document_comes_to_its_table(
            translators,
            env,
            mutation,
            arguments["_objects"@],
            before,
            between,
            table,
        );
        if table is Ok {
            assert(document_succeeds(
                translators,
                env,
                mutation,
                arguments["_objects"@],
                before,
                between,
            ));
        }
        if table is Ok && arguments.contains_key(name) {
            let read = choose|read: Option<models::Expression>| #[trigger]
                reads_expression(translators, arguments[name], read) && match read {
                    None => after == between && error@ == ErrorView::ArgumentNotFound(name),
                    Some(predicate) => constrains(
                        translators,
                        env,
                        between,
                        crate::translation::query::root::both_tables(
                            crate::translation::mutation::insert::inserted_table(mutation),
                        ),
                        predicate,
                        after,
                        Err(error),
                    ),
                };
            assert(reads_as(translators, arguments[name], read));
            if let Some(predicate) = read {
                assert(constraint_comes_to(
                    translators,
                    env,
                    between,
                    mutation,
                    predicate,
                    after,
                    Err(error),
                ));
            }
        }
    }
}

////// Rows, as they are held

/// Rows that were made hold what their maps hold, and the outcome of an object is its row or its
/// error.
pub proof fn lemma_rows_hold_what_their_maps_hold(
    rows: Seq<crate::string_map::StringMap<InsertExpression>>,
    r: Result<crate::string_map::StringMap<InsertExpression>, Error>,
)
    ensures
        rows_view(rows).len() == rows.len(),
        forall|i: int| 0 <= i < rows.len() ==> (#[trigger] rows_view(rows)[i]) == rows[i]@,
        match r {
            Ok(row) => row_result(r) == Ok::<Map<Seq<char>, InsertExpression>, Error>(row@),
            Err(error) => row_result(r) == Err::<Map<Seq<char>, InsertExpression>, Error>(error),
        },
{
}

} // verus!
