//! Handle 'rows' and 'aggregates' translation.

use crate::models::{arguments_view, clone_fields, fields_view, Argument, Field, FieldView, Query};
use crate::sql;
use crate::sql::ast::{
    ColumnAlias, Expression, From, FromView, Join, Limit, OrderBy, SchemaName, Select, SelectList,
    SelectListView, TableAlias, TableName, TableReference, TableReferenceView, Where,
};
use crate::string_map::StringMap;
use crate::translation::error::{Error, ErrorView};
use crate::translation::helpers::{
    makes_alias, CollectionInfo, Env, NativeQueryInfo, RootAndCurrentTables, State,
    TableNameAndReference,
};
use crate::translation::query::depth::fields_translation;
use crate::translation::query::fields::{ends_in_range, trace_of, translate_fields};
use crate::translation::query::laws::lemma_columns_follow_fields;
use crate::translation::query::relationships::{join_fields_view, JoinFieldInfo, JoinFieldView};
use crate::translation::query::scope::from_tables;
use crate::translation::query::selection::Trace;
use crate::translation::translators::{aggregates, filters, follows, orders, Translators};
use vstd::prelude::*;

verus! {

/// The root table and the current table, where they are the same.
pub open spec fn both_tables(table: TableNameAndReference) -> RootAndCurrentTables {
    RootAndCurrentTables { root_table: table, current_table: table }
}

/// `r` is `select` with an order and a filter, and with the joins that these and the relationships
/// need: those of the order first, then those of the relationships, and then those of the filter.
pub open spec fn assembled(
    select: Select,
    order_by: OrderBy,
    order_by_joins: Seq<Join>,
    filter: Expression,
    filter_joins: Seq<Join>,
    relationship_joins: Seq<Join>,
    r: Select,
) -> bool {
    &&& r.select_list == select.select_list
    &&& r.from == select.from
    &&& r.limit == select.limit
    &&& r.where_ == Where(filter)
    &&& r.order_by == order_by
    &&& r.joins@ == select.joins@ + order_by_joins + relationship_joins + filter_joins
}

/// The common part of a query can be translated to `r`, which takes the state from `before` to
/// `after`: the order is translated, then the filter, then the relationships, and the first error
/// ends the translation.
pub open spec fn translates_query_part<T: Translators>(
    translators: T,
    env: Env<'_>,
    before: State,
    current_table: TableNameAndReference,
    query: Query,
    select: Select,
    join_relationship_fields: Vec<JoinFieldInfo>,
    after: State,
    r: Result<Select, Error>,
) -> bool {
    exists|ordered: State, order: Result<(OrderBy, Vec<Join>), Error>| #[trigger]
        orders(
            translators,
            env,
            before,
            both_tables(current_table),
            query.order_by,
            ordered,
            order,
        ) && match order {
            Err(error) => after == ordered && r == Err::<Select, Error>(error),
            Ok((order_by, order_by_joins)) => exists|
                filtered: State,
                filter: Result<(Expression, Vec<Join>), Error>,
            | #[trigger]
                filters(
                    translators,
                    env,
                    ordered,
                    both_tables(current_table),
                    query.predicate,
                    filtered,
                    filter,
                ) && match filter {
                    Err(error) => after == filtered && r == Err::<Select, Error>(error),
                    Ok((filter, filter_joins)) => exists|joins: Result<Vec<Join>, Error>| #[trigger]
                        follows(
                            translators,
                            env,
                            filtered,
                            both_tables(current_table),
                            join_relationship_fields,
                            after,
                            joins,
                        ) && match joins {
                            Err(error) => r == Err::<Select, Error>(error),
                            Ok(relationship_joins) => r matches Ok(out) && assembled(
                                select,
                                order_by,
                                order_by_joins@,
                                filter,
                                filter_joins@,
                                relationship_joins@,
                                out,
                            ),
                        },
                },
        }
}

/// Adds to a select statement an order and a filter, and the joins that these and the relationships
/// need.
pub fn assemble_query_part(
    select: Select,
    order_by: OrderBy,
    order_by_joins: Vec<Join>,
    filter: Expression,
    filter_joins: Vec<Join>,
    relationship_joins: Vec<Join>,
) -> (r: Select)
    ensures
        assembled(
            select,
            order_by,
            order_by_joins@,
            filter,
            filter_joins@,
            relationship_joins@,
            r,
        ),
{
    let mut select = select;
    let mut order_by_joins = order_by_joins;
    let mut filter_joins = filter_joins;
    let mut relationship_joins = relationship_joins;

    select.joins.append(&mut order_by_joins);

    select.where_ = Where(filter);

    select.joins.append(&mut relationship_joins);

    select.joins.append(&mut filter_joins);

    select.order_by = order_by;

    select
}

/// Translate the lion (or common) part of 'rows' or 'aggregates' part of a query.
/// Specifically, from, joins, order bys, and where clauses.
///
/// This expects to get the relevant information about tables, relationships, the root table,
/// and the query, as well as the columns and join fields after processing.
///
/// One thing that this doesn't do that you want to do for 'rows' and not 'aggregates' is
/// set the limit and offset so you want to do that after calling this function.
pub fn translate_query_part<T: Translators>(
    translators: &T,
    env: &Env<'_>,
    state: &mut State,
    current_table: &TableNameAndReference,
    query: &Query,
    select: Select,
    join_relationship_fields: Vec<JoinFieldInfo>,
) -> (r: Result<Select, Error>)
    ensures
        translates_query_part(
            *translators,
            *env,
            *old(state),
            *current_table,
            *query,
            select,
            join_relationship_fields,
            *final(state),
            r,
        ),
{
    let root_table = current_table.clone();

    // the root table and the current table are the same at this point
    let root_and_current_tables = RootAndCurrentTables {
        root_table,
        current_table: current_table.clone(),
    };

    // translate order_by
    let mut taken = State::new();
    core::mem::swap(&mut taken, state);
    let (ordered, order) = translators.translate_order_by(
        env,
        taken,
        &root_and_current_tables,
        &query.order_by,
    );
    assert(orders(
        *translators,
        *env,
        *old(state),
        both_tables(*current_table),
        query.order_by,
        ordered,
        order,
    ));
    let (order_by, order_by_joins) = match order {
        Ok(translated) => translated,
        Err(error) => {
            *state = ordered;
            return Err(error);
        },
    };

    // translate where
    let (filtered, filter) = match &query.predicate {
        None => {
            let no_joins: Vec<Join> = Vec::new();
            (ordered, Ok((sql::helpers::true_expr(), no_joins)))
        },
        Some(predicate) => translators.translate_expression(
            env,
            ordered,
            &root_and_current_tables,
            predicate,
        ),
    };
    assert(filters(
        *translators,
        *env,
        ordered,
        both_tables(*current_table),
        query.predicate,
        filtered,
        filter,
    ));
    let (filter, filter_joins) = match filter {
        Ok(translated) => translated,
        Err(error) => {
            *state = filtered;
            return Err(error);
        },
    };

    // collect any joins for relationships
    let (joined, joins) = translators.translate_joins(
        env,
        filtered,
        &root_and_current_tables,
        join_relationship_fields,
    );
    assert(follows(
        *translators,
        *env,
        filtered,
        both_tables(*current_table),
        join_relationship_fields,
        joined,
        joins,
    ));
    *state = joined;
    match joins {
        Err(error) => Err(error),
        Ok(relationship_joins) => Ok(
            assemble_query_part(
                select,
                order_by,
                order_by_joins,
                filter,
                filter_joins,
                relationship_joins,
            ),
        ),
    }
}

/// `r` is `select` without an order, from the given tables.
pub open spec fn aggregate_select(select: Select, from_clause: From, r: Select) -> bool {
    &&& r.select_list == select.select_list
    &&& r.from matches Some(from) && from@ == from_clause@
    &&& r.joins == select.joins
    &&& r.where_ == select.where_
    &&& r.order_by@ == Seq::<crate::sql::ast::OrderByElementView>::empty()
    &&& r.limit == select.limit
}

/// `select` selects `columns` and nothing else.
pub open spec fn selects_only(columns: Vec<(ColumnAlias, Expression)>, select: Select) -> bool {
    &&& select@ == sql::helpers::bare_select(
        crate::sql::ast::SelectListView::SelectList(crate::sql::ast::columns_view(columns@)),
    )
    &&& select.select_list == SelectList::SelectList(columns)
    &&& select.joins@ == Seq::<Join>::empty()
}

/// The aggregates of a query can be translated to `r`, which takes the state from `before` to
/// `after`.
pub open spec fn translates_aggregates<T: Translators>(
    translators: T,
    env: Env<'_>,
    before: State,
    current_table: TableNameAndReference,
    from_clause: From,
    query: Query,
    after: State,
    r: Result<Option<Select>, Error>,
) -> bool {
    match query.aggregates {
        None => after == before && r == Ok::<Option<Select>, Error>(None),
        Some(aggregate_fields) => exists|columns: Result<Vec<(ColumnAlias, Expression)>, Error>|
         #[trigger]
            aggregates(translators, current_table.reference, aggregate_fields, columns)
                && match columns {
                Err(error) => after == before && r == Err::<Option<Select>, Error>(error),
                Ok(columns) => exists|
                    select: Select,
                    no_fields: Vec<JoinFieldInfo>,
                    part: Result<Select, Error>,
                |
                    {
                        &&& selects_only(columns, select)
                        &&& no_fields@ == Seq::<JoinFieldInfo>::empty()
                        &&& #[trigger] translates_query_part(
                            translators,
                            env,
                            before,
                            current_table,
                            query,
                            select,
                            no_fields,
                            after,
                            part,
                        )
                        &&& match part {
                            Err(error) => r == Err::<Option<Select>, Error>(error),
                            Ok(part) => r matches Ok(Some(out)) && aggregate_select(
                                part,
                                from_clause,
                                out,
                            ),
                        }
                    },
            },
    }
}

/// Translate aggregates query to sql ast.
pub fn translate_aggregate_query<T: Translators>(
    translators: &T,
    env: &Env<'_>,
    state: &mut State,
    current_table: &TableNameAndReference,
    from_clause: &From,
    query: &Query,
) -> (r: Result<Option<Select>, Error>)
    ensures
        translates_aggregates(
            *translators,
            *env,
            *old(state),
            *current_table,
            *from_clause,
            *query,
            *final(state),
            r,
        ),
{
    match &query.aggregates {
        // no aggregates defined at all
        None => Ok(None),
        Some(aggregate_fields) => {
            // create all aggregate columns
            let translated = translators.translate_aggregates(
                &current_table.reference,
                aggregate_fields,
            );
            assert(aggregates(
                *translators,
                current_table.reference,
                *aggregate_fields,
                translated,
            ));
            let aggregate_columns = match translated {
                Ok(columns) => columns,
                Err(error) => {
                    return Err(error);
                },
            };

            // construct a simple select with the table name, alias, and selected columns.
            let columns_select = sql::helpers::simple_select(aggregate_columns);

            // create the select clause and the joins, order by, where clauses.
            // We don't add the limit afterwards.
            let no_fields: Vec<JoinFieldInfo> = Vec::new();
            let part = translate_query_part(
                translators,
                env,
                state,
                current_table,
                query,
                columns_select,
                no_fields,
            );
            assert(columns_select.joins@ =~= Seq::empty());
            assert(selects_only(aggregate_columns, columns_select));
            match part {
                Err(error) => Err(error),
                Ok(part) => {
                    let mut select = part;
                    // we remove the order by part though because it is only relevant for group by
                    // clauses, which we don't support at the moment.
                    select.order_by = sql::helpers::empty_order_by();

                    select.from = Some(from_clause.clone());

                    Ok(Some(select))
                },
            }
        },
    }
}

/// Whether this rows query returns fields or not.
#[derive(Debug, Clone, Copy, PartialEq, Eq)]
pub enum ReturnsFields {
    FieldsWereRequested,
    NoFieldsWereRequested,
}

/// The fields that a query requests.
pub open spec fn requested_fields(query: Query) -> Seq<(Seq<char>, FieldView)> {
    match query.fields {
        Some(fields) => fields_view(fields@),
        None => Seq::empty(),
    }
}

/// Whether a query requests fields.
pub open spec fn returns_fields(query: Query) -> ReturnsFields {
    if requested_fields(query).len() == 0 {
        ReturnsFields::NoFieldsWereRequested
    } else {
        ReturnsFields::FieldsWereRequested
    }
}

/// Where the translation of a query starts: no relationship field was collected yet.
pub open spec fn start_of(state: State) -> Trace {
    Trace { index: state.table_index(), relationships: Seq::<JoinFieldView>::empty() }
}

/// `r` is `select` from the given tables, with the limit and the offset of the query.
pub open spec fn rows_select(select: Select, from_clause: From, query: Query, r: Select) -> bool {
    &&& r.select_list == select.select_list
    &&& r.from matches Some(from) && from@ == from_clause@
    &&& r.joins == select.joins
    &&& r.where_ == select.where_
    &&& r.order_by == select.order_by
    &&& r.limit == (Limit { limit: query.limit, offset: query.offset })
}

/// The rows of a query can be translated to `r`, which takes the state from `before` to `after`.
pub open spec fn translates_rows<T: Translators>(
    translators: T,
    env: Env<'_>,
    before: State,
    current_table: TableNameAndReference,
    from_clause: From,
    query: Query,
    after: State,
    r: Result<(ReturnsFields, Select), Error>,
) -> bool {
    match fields_translation(
        env.spec_metadata(),
        start_of(before),
        requested_fields(query),
        current_table@,
    ) {
        None => false,
        Some((trace, Err(error))) => {
            &&& after.table_index() == trace.index
            &&& after.native_queries() == before.native_queries()
            &&& r matches Err(e) && e@ == error
        },
        Some((trace, Ok(fields))) => exists|
            between: State,
            select: Select,
            join_relationship_fields: Vec<JoinFieldInfo>,
            part: Result<Select, Error>,
        |
            {
                &&& between.table_index() == trace.index
                &&& between.native_queries() == before.native_queries()
                &&& select@ == fields
                &&& join_fields_view(join_relationship_fields@) == trace.relationships
                &&& #[trigger] translates_query_part(
                    translators,
                    env,
                    between,
                    current_table,
                    query,
                    select,
                    join_relationship_fields,
                    after,
                    part,
                )
                &&& match part {
                    Err(error) => r == Err::<(ReturnsFields, Select), Error>(error),
                    Ok(part) => r matches Ok((returned, out)) && returned == returns_fields(query)
                        && rows_select(part, from_clause, query, out),
                }
            },
    }
}

/// Translate rows part of query to sql ast.
pub fn translate_rows_query<T: Translators>(
    translators: &T,
    env: &Env<'_>,
    state: &mut State,
    current_table: &TableNameAndReference,
    from_clause: &From,
    query: &Query,
) -> (r: Result<(ReturnsFields, Select), Error>)
    requires
        ends_in_range(
            fields_translation(
                env.spec_metadata(),
                start_of(*old(state)),
                requested_fields(*query),
                current_table@,
            ),
        ),
    ensures
        translates_rows(
            *translators,
            *env,
            *old(state),
            *current_table,
            *from_clause,
            *query,
            *final(state),
            r,
        ),
{
    // join aliases
    let mut join_relationship_fields: Vec<JoinFieldInfo> = Vec::new();
    assert(trace_of(*state, join_relationship_fields@).relationships =~= start_of(
        *state,
    ).relationships);

    // translate fields to select list
    let fields: Vec<(String, Field)> = match &query.fields {
        Some(fields) => clone_fields(fields),
        None => Vec::new(),
    };
    assert(fields_view(fields@) =~= requested_fields(*query));

    // remember whether we fields were requested or not.
    // The case were fields were not requested, and also no aggregates were requested,
    // can be used for `__typename` queries.
    let returned: ReturnsFields = if fields.is_empty() {
        ReturnsFields::NoFieldsWereRequested
    } else {
        ReturnsFields::FieldsWereRequested
    };

    // translate fields to columns or relationships.
    let fields_select = match translate_fields(
        env,
        state,
        fields,
        current_table,
        &mut join_relationship_fields,
    ) {
        Ok(select) => select,
        Err(error) => {
            return Err(error);
        },
    };

    // create the select clause and the joins, order by, where clauses.
    // We'll add the limit afterwards.
    match translate_query_part(
        translators,
        env,
        state,
        current_table,
        query,
        fields_select,
        join_relationship_fields,
    ) {
        Err(error) => Err(error),
        Ok(part) => {
            let mut select = part;
            select.from = Some(from_clause.clone());

            // Add the limit.
            select.limit = Limit { limit: query.limit, offset: query.offset };
            Ok((returned, select))
        },
    }
}

/// `query` is a call of a native query with these arguments.
pub open spec fn calls_native_query(
    query: NativeQueryInfo,
    info: crate::metadata::NativeQueryInfo,
    arguments: StringMap<Argument>,
) -> bool {
    &&& query.info@ == info@
    &&& arguments_view(query.arguments) == arguments_view(arguments)
}

/// `from` is the from clause for a collection under an alias, and making it took the state from
/// `before` to `after`. For a native query that adds a call of it.
pub open spec fn makes_from_clause(
    before: State,
    alias: TableAlias,
    collection_info: CollectionInfo<'_>,
    arguments: StringMap<Argument>,
    after: State,
    from: From,
) -> bool {
    match collection_info {
        CollectionInfo::Table { name, info } => {
            &&& after == before
            &&& from@ == (FromView::Table {
                reference: TableReferenceView::DBTable {
                    schema: info.schema_name@,
                    table: info.table_name@,
                },
                alias: alias@,
            })
        },
        CollectionInfo::NativeQuery { name, info } => {
            &&& after.table_index() == before.table_index() + 1
            &&& after.native_queries().len() == before.native_queries().len() + 1
            &&& after.native_queries().drop_last() == before.native_queries()
            &&& calls_native_query(after.native_queries().last(), *info, arguments)
            &&& after.native_queries().last().alias@ == (crate::sql::ast::TableAliasView {
                unique_index: before.table_index(),
                name: "NATIVE_QUERY_"@ + name@,
            })
            &&& from@ == (FromView::Table {
                reference: TableReferenceView::AliasedTable(
                    after.native_queries().last().alias@,
                ),
                alias: alias@,
            })
        },
    }
}

/// Build a FROM clause from a collection info and an alias.
/// Will add a Native Query to the 'State' if the collection is a native query.
pub fn make_from_clause(
    state: &mut State,
    current_table_alias: &TableAlias,
    collection_info: &CollectionInfo<'_>,
    arguments: &StringMap<Argument>,
) -> (r: From)
    requires
        collection_info is NativeQuery ==> old(state).table_index() < u64::MAX,
    ensures
        makes_from_clause(
            *old(state),
            *current_table_alias,
            *collection_info,
            *arguments,
            *final(state),
            r,
        ),
{
    match collection_info {
        CollectionInfo::Table { name: _, info } => {
            let db_table = TableReference::DBTable {
                schema: SchemaName(info.schema_name.clone()),
                table: TableName(info.table_name.clone()),
            };
            From::Table { reference: db_table, alias: current_table_alias.clone() }
        },
        CollectionInfo::NativeQuery { name, info } => {
            let copied_info: crate::metadata::NativeQueryInfo = (*info).clone();
            let copied_arguments: StringMap<Argument> = arguments.clone();
            assert(arguments_view(copied_arguments) =~= arguments_view(*arguments));
            let aliased_table = state.insert_native_query(name, copied_info, copied_arguments);
            assert(state.native_queries().drop_last() =~= old(state).native_queries());
            From::Table { reference: aliased_table, alias: current_table_alias.clone() }
        },
    }
}

/// The alias under which a collection is selected from: the given one, or else one made for the
/// name of the collection, which takes the state from `before` to `after`.
pub open spec fn collection_alias_of(
    before: State,
    collection_name: Seq<char>,
    given: Option<TableAlias>,
    after: State,
    alias: TableAlias,
) -> bool {
    match given {
        Some(given) => after == before && alias == given,
        None => makes_alias(before, collection_name, after, alias),
    }
}

/// How many table aliases the from clause for a collection takes: one for the collection where none
/// is given, and one for the call where the collection is a native query.
pub open spec fn from_clause_aliases(
    env: Env<'_>,
    collection_name: Seq<char>,
    given: Option<TableAlias>,
) -> nat {
    let metadata = env.spec_metadata();
    let own: nat = if given is None {
        1
    } else {
        0
    };
    let of_call: nat = if !metadata.tables.0@.contains_key(collection_name)
        && metadata.native_queries.0@.contains_key(collection_name) {
        1
    } else {
        0
    };
    own + of_call
}

/// `r` is the from clause for a collection, and the reference to the collection in it, or an error
/// where there is no such collection. Making it took the state from `before` to `after`.
pub open spec fn makes_from_clause_and_reference(
    env: Env<'_>,
    before: State,
    collection_name: Seq<char>,
    arguments: StringMap<Argument>,
    given: Option<TableAlias>,
    after: State,
    r: Result<(TableNameAndReference, From), Error>,
) -> bool {
    exists|between: State, alias: TableAlias| #[trigger]
        collection_alias_of(before, collection_name, given, between, alias) && match r {
            Err(error) => {
                &&& !env.is_collection(collection_name)
                &&& error@ == ErrorView::CollectionNotFound(collection_name)
                &&& after == between
            },
            Ok((table, from)) => {
                &&& table.name@ == collection_name
                &&& table.reference == TableReference::AliasedTable(alias)
                &&& exists|info: CollectionInfo<'_>|
                    env.finds_collection(collection_name, info) && #[trigger] makes_from_clause(
                        between,
                        alias,
                        info,
                        arguments,
                        after,
                        from,
                    )
            },
        }
}

/// Create a from clause from a collection name and its reference.
pub fn make_from_clause_and_reference(
    collection_name: &str,
    arguments: &StringMap<Argument>,
    env: &Env<'_>,
    state: &mut State,
    collection_alias: Option<TableAlias>,
) -> (r: Result<(TableNameAndReference, From), Error>)
    requires
        old(state).table_index() + from_clause_aliases(
            *env,
            collection_name@,
            collection_alias,
        ) <= u64::MAX,
    ensures
        makes_from_clause_and_reference(
            *env,
            *old(state),
            collection_name@,
            *arguments,
            collection_alias,
            *final(state),
            r,
        ),
{
    let ghost given = collection_alias;
    let collection_alias = match collection_alias {
        None => state.make_table_alias(collection_name.to_string()),
        Some(alias) => alias,
    };
    let collection_alias_name = TableReference::AliasedTable(collection_alias.clone());
    let ghost between = *state;
    assert(collection_alias_of(
        *old(state),
        collection_name@,
        given,
        between,
        collection_alias,
    ));

    // find the table according to the metadata.
    match env.lookup_collection(collection_name) {
        Err(error) => Err(error),
        Ok(collection_info) => {
            let from_clause = make_from_clause(
                state,
                &collection_alias,
                &collection_info,
                arguments,
            );
            assert(makes_from_clause(
                between,
                collection_alias,
                collection_info,
                *arguments,
                *state,
                from_clause,
            ));

            let current_table = TableNameAndReference {
                name: collection_name.to_string(),
                reference: collection_alias_name,
            };
            Ok((current_table, from_clause))
        },
    }
}

////// What holds of every translated query

/// The reference to a collection refers to what the from clause for the collection brings into
/// scope. Only names of collections have a from clause, and each has one.
pub proof fn lemma_reference_is_in_scope(
    env: Env<'_>,
    before: State,
    collection_name: Seq<char>,
    arguments: StringMap<Argument>,
    given: Option<TableAlias>,
    after: State,
    r: Result<(TableNameAndReference, From), Error>,
)
    requires
        makes_from_clause_and_reference(
            env,
            before,
            collection_name,
            arguments,
            given,
            after,
            r,
        ),
    ensures
        r is Ok <==> env.is_collection(collection_name),
        r matches Ok((table, from)) ==> from_tables(Some(from@)).contains(table.reference@),
{
}

/// A rows query selects one column for each requested field, in the order of the fields and by
/// their names, from the given tables, and has the limit and the offset of the query. Without a
/// predicate it keeps all rows.
pub proof fn lemma_rows_query_answers_the_request<T: Translators>(
    translators: T,
    env: Env<'_>,
    before: State,
    current_table: TableNameAndReference,
    from_clause: From,
    query: Query,
    after: State,
    returned: ReturnsFields,
    select: Select,
)
    requires
        translates_rows(
            translators,
            env,
            before,
            current_table,
            from_clause,
            query,
            after,
            Ok((returned, select)),
        ),
    ensures
        select.select_list@ matches SelectListView::SelectList(columns) && columns.len()
            == requested_fields(query).len() && forall|i: int|
            0 <= i < columns.len() ==> (#[trigger] columns[i]).0 == requested_fields(query)[i].0,
        returned is FieldsWereRequested <==> requested_fields(query).len() > 0,
        select.from matches Some(from) && from@ == from_clause@,
        select.limit == (Limit { limit: query.limit, offset: query.offset }),
        query.predicate is None ==> select.where_ == Where(sql::helpers::spec_true_expr()),
{
    lemma_columns_follow_fields(
        env.spec_metadata(),
        start_of(before),
        requested_fields(query),
        current_table@,
    );
}

/// An aggregates query has neither an order, nor a limit or an offset, whatever the query asks for.
/// It selects from the given tables.
pub proof fn lemma_aggregates_are_neither_ordered_nor_limited<T: Translators>(
    translators: T,
    env: Env<'_>,
    before: State,
    current_table: TableNameAndReference,
    from_clause: From,
    query: Query,
    after: State,
    select: Select,
)
    requires
        translates_aggregates(
            translators,
            env,
            before,
            current_table,
            from_clause,
            query,
            after,
            Ok(Some(select)),
        ),
    ensures
        select.order_by@.len() == 0,
        select.limit == sql::helpers::spec_empty_limit(),
        select.from matches Some(from) && from@ == from_clause@,
        query.predicate is None ==> select.where_ == Where(sql::helpers::spec_true_expr()),
{
}

/// A query without fields is translated like one with an empty list of fields: every outcome for one
/// is an outcome for the other. Where they succeed, no fields were requested, and the order, the
/// filter, the limit and the offset are those of the query.
pub proof fn lemma_no_fields_are_like_an_empty_list<T: Translators>(
    translators: T,
    env: Env<'_>,
    before: State,
    current_table: TableNameAndReference,
    from_clause: From,
    without: Query,
    empty: Query,
    after: State,
    r: Result<(ReturnsFields, Select), Error>,
)
    requires
        without.fields is None,
        empty == (Query { fields: empty.fields, ..without }),
        empty.fields matches Some(fields) && fields@.len() == 0,
    ensures
        translates_rows(
            translators,
            env,
            before,
            current_table,
            from_clause,
            without,
            after,
            r,
        ) <==> translates_rows(
            translators,
            env,
            before,
            current_table,
            from_clause,
            empty,
            after,
            r,
        ),
        translates_rows(translators, env, before, current_table, from_clause, without, after, r)
            ==> (r matches Ok((returned, select)) ==> {
            &&& returned is NoFieldsWereRequested
            &&& select.limit == (Limit { limit: without.limit, offset: without.offset })
            &&& exists|
                between: State,
                fields: Select,
                join_relationship_fields: Vec<JoinFieldInfo>,
                part: Select,
            | #[trigger]
                translates_query_part(
                    translators,
                    env,
                    between,
                    current_table,
                    without,
                    fields,
                    join_relationship_fields,
                    after,
                    Ok(part),
                ) && select.where_ == part.where_ && select.order_by == part.order_by
        }),
{
    assert(requested_fields(without) =~= requested_fields(empty));
    assert forall|
        between: State,
        select: Select,
        join_relationship_fields: Vec<JoinFieldInfo>,
        part: Result<Select, Error>,
    |
        #![trigger translates_query_part(
            translators,
            env,
            between,
            current_table,
            without,
            select,
            join_relationship_fields,
            after,
            part,
        )]
        #![trigger translates_query_part(
            translators,
            env,
            between,
            current_table,
            empty,
            select,
            join_relationship_fields,
            after,
            part,
        )]
        translates_query_part(
            translators,
            env,
            between,
            current_table,
            without,
            select,
            join_relationship_fields,
            after,
            part,
        ) == translates_query_part(
            translators,
            env,
            between,
            current_table,
            empty,
            select,
            join_relationship_fields,
            after,
            part,
        ) by {}
}

} // verus!
