//! What translated queries and from clauses are, said of the request, the metadata, what the
//! translators returned, and the statements alone.

use crate::models;
use crate::models::{arguments_view, fields_view, Aggregate, Argument, FieldView, Query};
use crate::sql::ast::{
    columns_view, joins_view, ColumnAlias, Expression, From, FromView, Join, OrderBy, Select,
    SelectList, TableAlias, TableAliasView, TableReference, TableReferenceView, Value, Where,
};
use crate::string_map::StringMap;
use crate::translation::error::{Error, ErrorView};
use crate::translation::helpers::{
    CollectionInfo, Env, RootAndCurrentTables, State, TableNameAndReference,
};
use crate::translation::query::answers::{
    collects, lemma_every_field_is_answered, lemma_requested_relationships_are_collected,
    requested_in_list,
};
use crate::translation::query::depth::fields_translation;
use crate::translation::query::relationships::{join_fields_view, JoinFieldInfo, JoinFieldView};
use crate::translation::query::root::{
    makes_from_clause, makes_from_clause_and_reference, requested_fields, start_of,
    translates_aggregates, translates_query_part, translates_rows, ReturnsFields,
};
use crate::translation::query::selection::Trace;
use crate::translation::translators::Translators;
use vstd::prelude::*;

verus! {

////// What the translators return

/// The order that a query asks for can come to `r`, asked of a table as the root and the current
/// one.
pub open spec fn order_comes_to<T: Translators>(
    translators: T,
    env: Env<'_>,
    before: State,
    table: TableNameAndReference,
    order_by: Option<models::OrderBy>,
    after: State,
    r: Result<(OrderBy, Vec<Join>), Error>,
) -> bool {
    call_ensures(
        T::translate_order_by,
        (
            &translators,
            &env,
            before,
            &RootAndCurrentTables { root_table: table, current_table: table },
            &order_by,
        ),
        (after, r),
    )
}

/// A predicate can come to `r`, asked of a table as the root and the current one.
pub open spec fn predicate_comes_to<T: Translators>(
    translators: T,
    env: Env<'_>,
    before: State,
    table: TableNameAndReference,
    predicate: models::Expression,
    after: State,
    r: Result<(Expression, Vec<Join>), Error>,
) -> bool {
    call_ensures(
        T::translate_expression,
        (
            &translators,
            &env,
            before,
            &RootAndCurrentTables { root_table: table, current_table: table },
            &predicate,
        ),
        (after, r),
    )
}

/// Relationship fields can come to `r`, asked of a table as the root and the current one.
pub open spec fn relationships_come_to<T: Translators>(
    translators: T,
    env: Env<'_>,
    before: State,
    table: TableNameAndReference,
    fields: Vec<JoinFieldInfo>,
    after: State,
    r: Result<Vec<Join>, Error>,
) -> bool {
    call_ensures(
        T::translate_joins,
        (
            &translators,
            &env,
            before,
            &RootAndCurrentTables { root_table: table, current_table: table },
            fields,
        ),
        (after, r),
    )
}

/// Aggregates of a table can come to `r`.
pub open spec fn aggregates_come_to<T: Translators>(
    translators: T,
    table: TableReference,
    aggregates: Vec<(String, Aggregate)>,
    r: Result<Vec<(ColumnAlias, Expression)>, Error>,
) -> bool {
    call_ensures(T::translate_aggregates, (&translators, &table, &aggregates), r)
}

////// The common part of queries

/// A statement has the filter of a query: what the predicate came to, or, where there is none, the
/// filter that keeps all rows and needs no joins.
pub open spec fn is_filtered<T: Translators>(
    translators: T,
    env: Env<'_>,
    before: State,
    table: TableNameAndReference,
    query: Query,
    after: State,
    where_: Where,
    joins: Vec<Join>,
) -> bool {
    match query.predicate {
        Some(predicate) => predicate_comes_to(
            translators,
            env,
            before,
            table,
            predicate,
            after,
            Ok((where_.0, joins)),
        ),
        None => {
            &&& after == before
            &&& where_ == Where(Expression::Value(Value::Bool(true)))
            &&& joins@.len() == 0
        },
    }
}

/// The parts of a query come to an order, a filter and joins: the order that was asked for, the
/// predicate that was asked for, and the given relationship fields, each translated after the other.
/// The joins are first those given, then those of the order, of the relationships, and of the filter.
pub open spec fn parts_come_to<T: Translators>(
    translators: T,
    env: Env<'_>,
    before: State,
    table: TableNameAndReference,
    query: Query,
    fields: Vec<JoinFieldInfo>,
    given: Seq<Join>,
    ordered: State,
    order_joins: Vec<Join>,
    filtered: State,
    filter_joins: Vec<Join>,
    after: State,
    relationship_joins: Vec<Join>,
    order_by: OrderBy,
    where_: Where,
    joins: Seq<Join>,
) -> bool {
    &&& order_comes_to(
        translators,
        env,
        before,
        table,
        query.order_by,
        ordered,
        Ok((order_by, order_joins)),
    )
    &&& is_filtered(translators, env, ordered, table, query, filtered, where_, filter_joins)
    &&& relationships_come_to(
        translators,
        env,
        filtered,
        table,
        fields,
        after,
        Ok(relationship_joins),
    )
    &&& joins == given + order_joins@ + relationship_joins@ + filter_joins@
}

/// The parts of a query come to an error, which a translator returned for a part of the request.
pub open spec fn parts_fail<T: Translators>(
    translators: T,
    env: Env<'_>,
    before: State,
    table: TableNameAndReference,
    query: Query,
    fields: Vec<JoinFieldInfo>,
    after: State,
    error: Error,
) -> bool {
    ||| order_comes_to(translators, env, before, table, query.order_by, after, Err(error))
    ||| query.predicate matches Some(predicate) && exists|
        ordered: State,
        order: (OrderBy, Vec<Join>),
    | #[trigger]
        order_comes_to(translators, env, before, table, query.order_by, ordered, Ok(order))
            && predicate_comes_to(
            translators,
            env,
            ordered,
            table,
            predicate,
            after,
            Err(error),
        )
    ||| exists|
        ordered: State,
        order: (OrderBy, Vec<Join>),
        filtered: State,
        where_: Where,
        filter_joins: Vec<Join>,
    | #[trigger]
        order_comes_to(translators, env, before, table, query.order_by, ordered, Ok(order))
            && #[trigger] is_filtered(
            translators,
            env,
            ordered,
            table,
            query,
            filtered,
            where_,
            filter_joins,
        ) && relationships_come_to(translators, env, filtered, table, fields, after, Err(error))
}

/// The common part of a query is what its parts come to: the select statement keeps its list, its
/// from clause and its limit, and gets the order, the filter and the joins. It is refused only for
/// an error that a translator returned for a part of the request.
pub proof fn lemma_query_part_is_what_its_parts_come_to<T: Translators>(
    translators: T,
    env: Env<'_>,
    before: State,
    table: TableNameAndReference,
    query: Query,
    select: Select,
    fields: Vec<JoinFieldInfo>,
    after: State,
    r: Result<Select, Error>,
)
    requires
        translates_query_part(translators, env, before, table, query, select, fields, after, r),
    ensures
        match r {
            Ok(out) => {
                &&& out.select_list == select.select_list
                &&& out.from == select.from
                &&& out.limit == select.limit
                &&& exists|
                    ordered: State,
                    order_joins: Vec<Join>,
                    filtered: State,
                    filter_joins: Vec<Join>,
                    relationship_joins: Vec<Join>,
                | #[trigger]
                    parts_come_to(
                        translators,
                        env,
                        before,
                        table,
                        query,
                        fields,
                        select.joins@,
                        ordered,
                        order_joins,
                        filtered,
                        filter_joins,
                        after,
                        relationship_joins,
                        out.order_by,
                        out.where_,
                        out.joins@,
                    )
            },
            Err(error) => parts_fail(
                translators,
                env,
                before,
                table,
                query,
                fields,
                after,
                error,
            ),
        },
{
    let tables = RootAndCurrentTables { root_table: table, current_table: table };
    let (ordered, order) = choose|ordered: State, order: Result<(OrderBy, Vec<Join>), Error>|
     #[trigger]
        crate::translation::translators::orders(
            translators,
            env,
            before,
            tables,
            query.order_by,
            ordered,
            order,
        ) && part_after_order(
            translators,
            env,
            table,
            query,
            select,
            fields,
            ordered,
            order,
            after,
            r,
        );
    assert(order_comes_to(translators, env, before, table, query.order_by, ordered, order));
    if let Ok((order_by, order_joins)) = order {
        let (filtered, filter) = choose|
            filtered: State,
            filter: Result<(Expression, Vec<Join>), Error>,
        | #[trigger]
            crate::translation::translators::filters(
                translators,
                env,
                ordered,
                tables,
                query.predicate,
                filtered,
                filter,
            ) && part_after_filter(
                translators,
                env,
                table,
                select,
                fields,
                (order_by, order_joins),
                filtered,
                filter,
                after,
                r,
            );
        if let Ok((filter, filter_joins)) = filter {
            let joins = choose|joins: Result<Vec<Join>, Error>| #[trigger]
                crate::translation::translators::follows(
                    translators,
                    env,
                    filtered,
                    tables,
                    fields,
                    after,
                    joins,
                ) && match joins {
                    Err(error) => r == Err::<Select, Error>(error),
                    Ok(relationship_joins) => r matches Ok(out)
                        && crate::translation::query::root::assembled(
                        select,
                        order_by,
                        order_joins@,
                        filter,
                        filter_joins@,
                        relationship_joins@,
                        out,
                    ),
                };
            assert(relationships_come_to(
                translators,
                env,
                filtered,
                table,
                fields,
                after,
                joins,
            ));
            assert(is_filtered(
                translators,
                env,
                ordered,
                table,
                query,
                filtered,
                Where(filter),
                filter_joins,
            ));
            if let Ok(relationship_joins) = joins {
                let out = r->Ok_0;
                assert(is_filtered(
                    translators,
                    env,
                    ordered,
                    table,
                    query,
                    filtered,
                    out.where_,
                    filter_joins,
                ));
                assert(parts_come_to(
                    translators,
                    env,
                    before,
                    table,
                    query,
                    fields,
                    select.joins@,
                    ordered,
                    order_joins,
                    filtered,
                    filter_joins,
                    after,
                    relationship_joins,
                    out.order_by,
                    out.where_,
                    out.joins@,
                ));
            }
        }
    }
}

/// What follows the order in the translation of the common part of a query.
spec fn part_after_order<T: Translators>(
    translators: T,
    env: Env<'_>,
    table: TableNameAndReference,
    query: Query,
    select: Select,
    fields: Vec<JoinFieldInfo>,
    ordered: State,
    order: Result<(OrderBy, Vec<Join>), Error>,
    after: State,
    r: Result<Select, Error>,
) -> bool {
    match order {
        Err(error) => after == ordered && r == Err::<Select, Error>(error),
        Ok(order) => exists|filtered: State, filter: Result<(Expression, Vec<Join>), Error>|
         #[trigger]
            crate::translation::translators::filters(
                translators,
                env,
                ordered,
                RootAndCurrentTables { root_table: table, current_table: table },
                query.predicate,
                filtered,
                filter,
            ) && part_after_filter(
                translators,
                env,
                table,
                select,
                fields,
                order,
                filtered,
                filter,
                after,
                r,
            ),
    }
}

/// What follows the filter in the translation of the common part of a query.
spec fn part_after_filter<T: Translators>(
    translators: T,
    env: Env<'_>,
    table: TableNameAndReference,
    select: Select,
    fields: Vec<JoinFieldInfo>,
    order: (OrderBy, Vec<Join>),
    filtered: State,
    filter: Result<(Expression, Vec<Join>), Error>,
    after: State,
    r: Result<Select, Error>,
) -> bool {
    match filter {
        Err(error) => after == filtered && r == Err::<Select, Error>(error),
        Ok((filter, filter_joins)) => exists|joins: Result<Vec<Join>, Error>| #[trigger]
            crate::translation::translators::follows(
                translators,
                env,
                filtered,
                RootAndCurrentTables { root_table: table, current_table: table },
                fields,
                after,
                joins,
            ) && match joins {
                Err(error) => r == Err::<Select, Error>(error),
                Ok(relationship_joins) => r matches Ok(out)
                    && crate::translation::query::root::assembled(
                    select,
                    order.0,
                    order.1@,
                    filter,
                    filter_joins@,
                    relationship_joins@,
                    out,
                ),
            },
    }
}

////// Rows

/// The fields that a query asks for: none where it has no list of fields.
pub open spec fn asked_fields(query: Query) -> Seq<(Seq<char>, FieldView)> {
    match query.fields {
        Some(fields) => fields_view(fields@),
        None => Seq::empty(),
    }
}

/// The translation of the fields that a query asks for, as the first ones of a select statement.
pub open spec fn asked_translation(
    env: Env<'_>,
    before: State,
    table: TableNameAndReference,
    query: Query,
) -> Option<(Trace, Result<crate::sql::ast::SelectView, ErrorView>)> {
    fields_translation(
        env.spec_metadata(),
        Trace { index: before.table_index(), relationships: Seq::<JoinFieldView>::empty() },
        asked_fields(query),
        table@,
    )
}

/// A rows query is what its parts come to. Its list is the translation of the fields that were asked
/// for. Its order and its filter are what the translators returned for the order and the predicate
/// that were asked for. It joins what its fields need, then the order, then the relationships that
/// were asked for, each with its whole query, and then the filter. It selects from the given tables,
/// with the limit and the offset that were asked for.
pub proof fn lemma_rows_are_what_their_parts_come_to<T: Translators>(
    translators: T,
    env: Env<'_>,
    before: State,
    table: TableNameAndReference,
    from_clause: From,
    query: Query,
    after: State,
    returned: ReturnsFields,
    select: Select,
)
    requires
        translates_rows(
            translators,
            env,
            before,
            table,
            from_clause,
            query,
            after,
            Ok((returned, select)),
        ),
    ensures
        asked_translation(env, before, table, query) matches Some((trace, Ok(fields))) && {
            &&& select.select_list@ == fields.select_list
            &&& exists|
                translated: State,
                collected: Vec<JoinFieldInfo>,
                given: Seq<Join>,
                ordered: State,
                order_joins: Vec<Join>,
                filtered: State,
                filter_joins: Vec<Join>,
                relationship_joins: Vec<Join>,
            | #[trigger]
                parts_come_to(
                    translators,
                    env,
                    translated,
                    table,
                    query,
                    collected,
                    given,
                    ordered,
                    order_joins,
                    filtered,
                    filter_joins,
                    after,
                    relationship_joins,
                    select.order_by,
                    select.where_,
                    select.joins@,
                ) && translated.table_index() == trace.index && translated.native_queries()
                    == before.native_queries() && joins_view(given) == fields.joins
                    && join_fields_view(collected@) == trace.relationships && collects(
                    Trace { index: before.table_index(), relationships: Seq::empty() },
                    requested_in_list(asked_fields(query), asked_fields(query).len()),
                    trace,
                )
        },
        select.select_list matches SelectList::SelectList(columns) && (match query.fields {
            Some(fields) => columns@.len() == fields@.len() && forall|i: int|
                0 <= i < fields@.len() ==> (#[trigger] columns@[i]).0.name@ == fields@[i].0@,
            None => columns@.len() == 0,
        }),
        select.from matches Some(from) && from@ == from_clause@,
        select.limit.limit == query.limit,
        select.limit.offset == query.offset,
        returned is FieldsWereRequested <==> (query.fields matches Some(fields) && fields@.len()
            > 0),
{
    let start = Trace {
        index: before.table_index(),
        relationships: Seq::<JoinFieldView>::empty(),
    };
    assert(asked_fields(query) =~= requested_fields(query));
    assert(start == start_of(before));
    let (trace, result) = asked_translation(env, before, table, query)->Some_0;
    let fields = result->Ok_0;
    let (translated, own, collected, part) = choose|
        translated: State,
        own: Select,
        collected: Vec<JoinFieldInfo>,
        part: Result<Select, Error>,
    |
        {
            &&& translated.table_index() == trace.index
            &&& translated.native_queries() == before.native_queries()
            &&& own@ == fields
            &&& join_fields_view(collected@) == trace.relationships
            &&& #[trigger] translates_query_part(
                translators,
                env,
                translated,
                table,
                query,
                own,
                collected,
                after,
                part,
            )
            &&& match part {
                Err(error) => Ok::<(ReturnsFields, Select), Error>((returned, select)) == Err::<
                    (ReturnsFields, Select),
                    Error,
                >(error),
                Ok(part) => returned == crate::translation::query::root::returns_fields(query)
                    && crate::translation::query::root::rows_select(
                    part,
                    from_clause,
                    query,
                    select,
                ),
            }
        };
    lemma_query_part_is_what_its_parts_come_to(
        translators,
        env,
        translated,
        table,
        query,
        own,
        collected,
        after,
        part,
    );
    lemma_requested_relationships_are_collected(
        env.spec_metadata(),
        start,
        asked_fields(query),
        table@,
    );
    let out = part->Ok_0;
    let (ordered, order_joins, filtered, filter_joins, relationship_joins) = choose|
        ordered: State,
        order_joins: Vec<Join>,
        filtered: State,
        filter_joins: Vec<Join>,
        relationship_joins: Vec<Join>,
    | #[trigger]
        parts_come_to(
            translators,
            env,
            translated,
            table,
            query,
            collected,
            own.joins@,
            ordered,
            order_joins,
            filtered,
            filter_joins,
            after,
            relationship_joins,
            out.order_by,
            out.where_,
            out.joins@,
        );
    assert(parts_come_to(
        translators,
        env,
        translated,
        table,
        query,
        collected,
        own.joins@,
        ordered,
        order_joins,
        filtered,
        filter_joins,
        after,
        relationship_joins,
        select.order_by,
        select.where_,
        select.joins@,
    ));
    assert(joins_view(own.joins@) == own@.joins);
    lemma_every_field_is_answered(env.spec_metadata(), start, asked_fields(query), table@);
    assert(select.select_list@ == fields.select_list);
    let columns = select.select_list->SelectList_0;
    let named = fields.select_list->SelectList_0;
    assert(columns_view(columns@) == named);
    assert forall|i: int| 0 <= i < columns@.len() implies (#[trigger] columns@[i]).0.name@
        == asked_fields(query)[i].0 by {
        assert(named[i].0 == asked_fields(query)[i].0);
    }
    if let Some(requested) = query.fields {
        assert forall|i: int| 0 <= i < requested@.len() implies (#[trigger] columns@[i]).0.name@
            == requested@[i].0@ by {
            assert(asked_fields(query)[i].0 == requested@[i].0@);
        }
    }
}

/// A rows query is refused only for a reason: the fields that were asked for cannot be translated,
/// or else a translator returned the error for another part of the request.
pub proof fn lemma_rows_fail_for_a_reason<T: Translators>(
    translators: T,
    env: Env<'_>,
    before: State,
    table: TableNameAndReference,
    from_clause: From,
    query: Query,
    after: State,
    error: Error,
)
    requires
        translates_rows(
            translators,
            env,
            before,
            table,
            from_clause,
            query,
            after,
            Err(error),
        ),
    ensures
        match asked_translation(env, before, table, query) {
            None => false,
            Some((trace, Err(fields_error))) => {
                &&& error@ == fields_error
                &&& after.table_index() == trace.index
                &&& after.native_queries() == before.native_queries()
            },
            Some((trace, Ok(_))) => exists|translated: State, collected: Vec<JoinFieldInfo>|
             #[trigger]
                parts_fail(
                    translators,
                    env,
                    translated,
                    table,
                    query,
                    collected,
                    after,
                    error,
                ) && translated.table_index() == trace.index && join_fields_view(collected@)
                    == trace.relationships,
        },
{
    assert(asked_fields(query) =~= requested_fields(query));
    assert(Trace {
        index: before.table_index(),
        relationships: Seq::<JoinFieldView>::empty(),
    } == start_of(before));
    if let Some((trace, Ok(fields))) = asked_translation(env, before, table, query) {
        let (translated, own, collected) = choose|
            translated: State,
            own: Select,
            collected: Vec<JoinFieldInfo>,
        |
            {
                &&& translated.table_index() == trace.index
                &&& join_fields_view(collected@) == trace.relationships
                &&& #[trigger] translates_query_part(
                    translators,
                    env,
                    translated,
                    table,
                    query,
                    own,
                    collected,
                    after,
                    Err(error),
                )
            };
        lemma_query_part_is_what_its_parts_come_to(
            translators,
            env,
            translated,
            table,
            query,
            own,
            collected,
            after,
            Err(error),
        );
    }
}

////// Aggregates

/// An aggregates query is what its parts come to, whether or not fields are asked for too. Its list
/// is what the translator returned for the aggregates that were asked for, and its filter what the
/// translator returned for the predicate that was asked for. Its joins are those of the order, of no
/// relationships, and of the filter. It selects from the given tables, and has neither an order, nor
/// a limit or an offset.
pub proof fn lemma_aggregates_are_what_their_parts_come_to<T: Translators>(
    translators: T,
    env: Env<'_>,
    before: State,
    table: TableNameAndReference,
    from_clause: From,
    query: Query,
    after: State,
    select: Select,
)
    requires
        translates_aggregates(
            translators,
            env,
            before,
            table,
            from_clause,
            query,
            after,
            Ok(Some(select)),
        ),
    ensures
        query.aggregates matches Some(aggregates) && (select.select_list matches SelectList::SelectList(
            columns,
        ) && aggregates_come_to(translators, table.reference, aggregates, Ok(columns))),
        exists|
            no_fields: Vec<JoinFieldInfo>,
            ordered: State,
            order_by: OrderBy,
            order_joins: Vec<Join>,
            filtered: State,
            filter_joins: Vec<Join>,
            relationship_joins: Vec<Join>,
        | #[trigger]
            parts_come_to(
                translators,
                env,
                before,
                table,
                query,
                no_fields,
                Seq::<Join>::empty(),
                ordered,
                order_joins,
                filtered,
                filter_joins,
                after,
                relationship_joins,
                order_by,
                select.where_,
                select.joins@,
            ) && no_fields@.len() == 0,
        select.from matches Some(from) && from@ == from_clause@,
        select.order_by@.len() == 0,
        select.limit.limit is None,
        select.limit.offset is None,
{
    let aggregates = query.aggregates->Some_0;
    let (columns, own, no_fields, part) = choose|
        columns: Vec<(ColumnAlias, Expression)>,
        own: Select,
        no_fields: Vec<JoinFieldInfo>,
        part: Select,
    |
        {
            &&& crate::translation::translators::aggregates(
                translators,
                table.reference,
                aggregates,
                Ok(columns),
            )
            &&& #[trigger] crate::translation::query::root::selects_only(columns, own)
            &&& no_fields@ == Seq::<JoinFieldInfo>::empty()
            &&& #[trigger] translates_query_part(
                translators,
                env,
                before,
                table,
                query,
                own,
                no_fields,
                after,
                Ok(part),
            )
            &&& crate::translation::query::root::aggregate_select(part, from_clause, select)
        };
    assert(aggregates_come_to(translators, table.reference, aggregates, Ok(columns)));
    lemma_query_part_is_what_its_parts_come_to(
        translators,
        env,
        before,
        table,
        query,
        own,
        no_fields,
        after,
        Ok(part),
    );
    let (ordered, order_joins, filtered, filter_joins, relationship_joins) = choose|
        ordered: State,
        order_joins: Vec<Join>,
        filtered: State,
        filter_joins: Vec<Join>,
        relationship_joins: Vec<Join>,
    | #[trigger]
        parts_come_to(
            translators,
            env,
            before,
            table,
            query,
            no_fields,
            own.joins@,
            ordered,
            order_joins,
            filtered,
            filter_joins,
            after,
            relationship_joins,
            part.order_by,
            part.where_,
            part.joins@,
        );
    assert(parts_come_to(
        translators,
        env,
        before,
        table,
        query,
        no_fields,
        Seq::<Join>::empty(),
        ordered,
        order_joins,
        filtered,
        filter_joins,
        after,
        relationship_joins,
        part.order_by,
        select.where_,
        select.joins@,
    ));
    assert(own@.limit == own.limit);
}

/// A query has an aggregates query if and only if it asks for aggregates. The aggregates query is
/// refused only for an error that a translator returned for a part of the request.
pub proof fn lemma_aggregates_fail_for_a_reason<T: Translators>(
    translators: T,
    env: Env<'_>,
    before: State,
    table: TableNameAndReference,
    from_clause: From,
    query: Query,
    after: State,
    r: Result<Option<Select>, Error>,
)
    requires
        translates_aggregates(translators, env, before, table, from_clause, query, after, r),
    ensures
        query.aggregates is None <==> r matches Ok(None),
        query.aggregates is None ==> after == before,
        r matches Err(error) ==> (query.aggregates matches Some(aggregates) && ({
            ||| aggregates_come_to(translators, table.reference, aggregates, Err(error))
            ||| exists|no_fields: Vec<JoinFieldInfo>| #[trigger]
                parts_fail(translators, env, before, table, query, no_fields, after, error)
                    && no_fields@.len() == 0
        })),
{
    if let Err(error) = r {
        let aggregates = query.aggregates->Some_0;
        if !aggregates_come_to(translators, table.reference, aggregates, Err(error)) {
            let (own, no_fields) = choose|own: Select, no_fields: Vec<JoinFieldInfo>|
                {
                    &&& no_fields@ == Seq::<JoinFieldInfo>::empty()
                    &&& #[trigger] translates_query_part(
                        translators,
                        env,
                        before,
                        table,
                        query,
                        own,
                        no_fields,
                        after,
                        Err(error),
                    )
                };
            lemma_query_part_is_what_its_parts_come_to(
                translators,
                env,
                before,
                table,
                query,
                own,
                no_fields,
                after,
                Err(error),
            );
        }
    }
}

////// From clauses

/// The from clause for a table is the table of the database by its schema and its name, and changes
/// nothing else. The from clause for a native query is a new call of it, with the given arguments
/// and under a new alias. Both stand under the given alias.
pub proof fn lemma_from_clause_is_a_table_or_a_call(
    before: State,
    alias: TableAlias,
    collection_info: CollectionInfo<'_>,
    arguments: StringMap<Argument>,
    after: State,
    from: From,
)
    requires
        makes_from_clause(before, alias, collection_info, arguments, after, from),
    ensures
        collection_info matches CollectionInfo::Table { name, info } ==> {
            &&& after == before
            &&& from@ == (FromView::Table {
                reference: TableReferenceView::DBTable {
                    schema: info.schema_name@,
                    table: info.table_name@,
                },
                alias: alias@,
            })
        },
        collection_info matches CollectionInfo::NativeQuery { name, info } ==> {
            let call_alias = TableAliasView {
                unique_index: before.table_index(),
                name: "NATIVE_QUERY_"@ + name@,
            };
            &&& after.table_index() == before.table_index() + 1
            &&& after.native_queries().len() == before.native_queries().len() + 1
            &&& after.native_queries().drop_last() == before.native_queries()
            &&& after.native_queries().last().info@ == info@
            &&& arguments_view(after.native_queries().last().arguments) == arguments_view(arguments)
            &&& after.native_queries().last().alias@ == call_alias
            &&& from@ == (FromView::Table {
                reference: TableReferenceView::AliasedTable(call_alias),
                alias: alias@,
            })
        },
{
}

/// The from clause for a collection is a table of the database under an alias, or a call of a native
/// query under an alias: the table that the metadata holds under the name, or else the native query
/// with the given arguments. The reference refers to that alias, which is the given one, or else a
/// new one for the name. Only names that are neither are refused.
pub proof fn lemma_from_clause_is_for_the_collection(
    env: Env<'_>,
    before: State,
    collection_name: Seq<char>,
    arguments: StringMap<Argument>,
    given: Option<TableAlias>,
    after: State,
    r: Result<(TableNameAndReference, From), Error>,
)
    requires
        makes_from_clause_and_reference(
            env,
            before,
            collection_name,
            arguments,
            given,
            after,
            r,
        ),
    ensures
        ({
            let metadata = env.spec_metadata();
            let own: nat = if given is None {
                1
            } else {
                0
            };
            match r {
                Err(error) => {
                    &&& !metadata.tables.0@.contains_key(collection_name)
                    &&& !metadata.native_queries.0@.contains_key(collection_name)
                    &&& error@ == ErrorView::CollectionNotFound(collection_name)
                    &&& after.table_index() == before.table_index() + own
                    &&& after.native_queries() == before.native_queries()
                },
                Ok((table, from)) => {
                    &&& table.name@ == collection_name
                    &&& table.reference@ matches TableReferenceView::AliasedTable(alias) && (
                    match given {
                        Some(given) => alias == given@,
                        None => alias == (TableAliasView {
                            unique_index: before.table_index(),
                            name: collection_name,
                        }),
                    }) && (if metadata.tables.0@.contains_key(collection_name) {
                        &&& after.table_index() == before.table_index() + own
                        &&& after.native_queries() == before.native_queries()
                        &&& from@ == (FromView::Table {
                            reference: TableReferenceView::DBTable {
                                schema: metadata.tables.0@[collection_name].schema_name@,
                                table: metadata.tables.0@[collection_name].table_name@,
                            },
                            alias,
                        })
                    } else {
                        let calls = after.native_queries();
                        let call_alias = TableAliasView {
                            unique_index: before.table_index() + own,
                            name: "NATIVE_QUERY_"@ + collection_name,
                        };
                        &&& metadata.native_queries.0@.contains_key(collection_name)
                        &&& after.table_index() == before.table_index() + own + 1
                        &&& calls.len() == before.native_queries().len() + 1
                        &&& calls.drop_last() == before.native_queries()
                        &&& calls.last().info@ == metadata.native_queries.0@[collection_name]@
                        &&& arguments_view(calls.last().arguments) == arguments_view(arguments)
                        &&& calls.last().alias@ == call_alias
                        &&& from@ == (FromView::Table {
                            reference: TableReferenceView::AliasedTable(call_alias),
                            alias,
                        })
                    })
                },
            }
        }),
{
}

} // verus!
