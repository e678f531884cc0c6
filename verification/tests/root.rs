//! The translation of rows, aggregates and from clauses.

use ndc_postgres::json;
use ndc_postgres::metadata::{
    ColumnInfo, ComparisonOperators, CompositeTypes, HasDefault, IsGenerated, IsIdentity, Metadata,
    NativeQueries, NativeQueryInfo, Nullable, ScalarType, TableInfo, TablesInfo, Type,
    TypeRepresentations,
};
use ndc_postgres::models;
use ndc_postgres::models::{Aggregate, Argument, Field, Query};
use ndc_postgres::sql::ast::{
    ColumnAlias, ColumnName, ColumnReference, Expression, From, InnerJoinLateral, Join, Limit,
    OrderBy, OrderByDirection, OrderByElement, SchemaName, Select, SelectList, TableAlias,
    TableName, TableReference, Value, Where,
};
use ndc_postgres::string_map::StringMap;
use ndc_postgres::translation::error::Error;
use ndc_postgres::translation::helpers::{
    Env, RootAndCurrentTables, State, TableAliasIndex, TableNameAndReference,
};
use ndc_postgres::translation::query::extent::translate_rows_query_within;
use ndc_postgres::translation::query::relationships::JoinFieldInfo;
use ndc_postgres::translation::query::root::{
    assemble_query_part, make_from_clause_and_reference, translate_aggregate_query,
    translate_rows_query, ReturnsFields,
};
use ndc_postgres::translation::translators::Translators;

fn map<V>(entries: Vec<(&str, V)>) -> StringMap<V> {
    let mut map = StringMap::new();
    for (key, value) in entries {
        map.insert(key.to_string(), value);
    }
    map
}

fn alias(unique_index: u64, name: &str) -> TableAlias {
    TableAlias { unique_index, name: name.to_string() }
}

fn text(value: &str) -> Expression {
    Expression::Value(Value::String(value.to_string()))
}

fn bare_select(select_list: SelectList) -> Select {
    Select {
        select_list,
        from: None,
        joins: vec![],
        where_: Where(Expression::Value(Value::Bool(true))),
        order_by: OrderBy { elements: vec![] },
        limit: Limit { limit: None, offset: None },
    }
}

/// A join that is told by its alias.
fn join(alias: TableAlias) -> Join {
    Join::InnerJoinLateral(InnerJoinLateral {
        select: Box::new(bare_select(SelectList::SelectStar)),
        alias,
    })
}

fn document_text(document: &json::Value) -> String {
    match document {
        json::Value::String(text) => text.clone(),
        _ => "?".to_string(),
    }
}

/// Translates a part to what it says. The part that says "bad" is an error.
struct Fake;

fn said(document: &json::Value) -> Result<String, Error> {
    let text = document_text(document);
    if text == "bad" {
        Err(Error::UnexpectedStructure(text))
    } else {
        Ok(text)
    }
}

impl Translators for Fake {
    fn translate_order_by(
        &self,
        _env: &Env<'_>,
        state: State,
        tables: &RootAndCurrentTables,
        order_by: &Option<models::OrderBy>,
    ) -> (State, Result<(OrderBy, Vec<Join>), Error>) {
        let mut state = state;
        assert_eq!(tables.root_table, tables.current_table);
        match order_by {
            None => (state, Ok((OrderBy { elements: vec![] }, vec![]))),
            Some(order_by) => match said(&order_by.0) {
                Err(error) => (state, Err(error)),
                Ok(target) => {
                    let alias = state.make_order_by_table_alias(&tables.current_table.name);
                    let element = OrderByElement {
                        target: text(&target),
                        direction: OrderByDirection::Asc,
                    };
                    (state, Ok((OrderBy { elements: vec![element] }, vec![join(alias)])))
                }
            },
        }
    }

    fn translate_expression(
        &self,
        _env: &Env<'_>,
        state: State,
        tables: &RootAndCurrentTables,
        predicate: &models::Expression,
    ) -> (State, Result<(Expression, Vec<Join>), Error>) {
        let mut state = state;
        match said(&predicate.0) {
            Err(error) => (state, Err(error)),
            Ok(filter) => {
                let alias = state.make_boolean_expression_table_alias(&tables.root_table.name);
                (state, Ok((text(&filter), vec![join(alias)])))
            }
        }
    }

    fn translate_joins(
        &self,
        _env: &Env<'_>,
        state: State,
        _tables: &RootAndCurrentTables,
        join_fields: Vec<JoinFieldInfo>,
    ) -> (State, Result<Vec<Join>, Error>) {
        let mut joins = vec![];
        for field in join_fields {
            if field.relationship_name == "bad" {
                return (state, Err(Error::RelationshipNotFound(field.relationship_name)));
            }
            joins.push(join(field.table_alias));
        }
        (state, Ok(joins))
    }

    fn translate_aggregates(
        &self,
        table: &TableReference,
        aggregates: &Vec<(String, Aggregate)>,
    ) -> Result<Vec<(ColumnAlias, Expression)>, Error> {
        let mut columns = vec![];
        for (name, aggregate) in aggregates {
            said(&aggregate.0)?;
            columns.push((
                ColumnAlias { name: name.clone() },
                Expression::RowToJson(table.clone()),
            ));
        }
        Ok(columns)
    }

    fn translate_json_value(
        &self,
        _env: &Env<'_>,
        state: State,
        value: &json::Value,
        _data_type: &Type,
    ) -> (State, Result<Expression, Error>) {
        (state, said(value).map(|value| text(&value)))
    }

    fn read_expression(&self, document: &json::Value) -> Option<models::Expression> {
        Some(models::Expression(document.clone()))
    }

    fn translate_constraint(
        &self,
        _env: &Env<'_>,
        state: State,
        _tables: &RootAndCurrentTables,
        predicate: &models::Expression,
    ) -> (State, Result<Expression, Error>) {
        (state, said(&predicate.0).map(|value| text(&value)))
    }
}

fn native_query() -> NativeQueryInfo {
    NativeQueryInfo {
        sql: "SELECT 1".to_string(),
        columns: StringMap::new(),
        arguments: StringMap::new(),
    }
}

fn metadata() -> Metadata {
    Metadata {
        tables: TablesInfo(map(vec![(
            "albums",
            TableInfo {
                schema_name: "music".to_string(),
                table_name: "Album".to_string(),
                columns: map(vec![(
                    "title",
                    ColumnInfo {
                        name: "Title".to_string(),
                        data_type: Type::ScalarType(ScalarType("text".to_string())),
                        nullable: Nullable::NonNullable,
                        has_default: HasDefault::NoDefault,
                        is_identity: IsIdentity::NotIdentity,
                        is_generated: IsGenerated::NotGenerated,
                    },
                )]),
            },
        )])),
        composite_types: CompositeTypes(StringMap::new()),
        native_queries: NativeQueries(map(vec![("by_title", native_query())])),
        comparison_operators: ComparisonOperators(StringMap::new()),
        type_representations: TypeRepresentations(StringMap::new()),
    }
}

fn env(metadata: &Metadata) -> Env<'_> {
    Env::new(metadata, StringMap::new(), None, None)
}

fn albums() -> TableNameAndReference {
    TableNameAndReference {
        name: "albums".to_string(),
        reference: TableReference::AliasedTable(alias(0, "albums")),
    }
}

fn from_albums() -> From {
    From::Table {
        reference: TableReference::DBTable {
            schema: SchemaName("music".to_string()),
            table: TableName("Album".to_string()),
        },
        alias: alias(0, "albums"),
    }
}

fn document(text: &str) -> json::Value {
    json::Value::String(text.to_string())
}

fn title() -> (String, Field) {
    ("t".to_string(), Field::Column { column: "title".to_string(), fields: None })
}

fn relationship(name: &str) -> (String, Field) {
    (
        "r".to_string(),
        Field::Relationship {
            query: Box::new(empty_query()),
            relationship: name.to_string(),
            arguments: StringMap::new(),
        },
    )
}

fn empty_query() -> Query {
    Query {
        aggregates: None,
        fields: None,
        limit: None,
        offset: None,
        order_by: None,
        predicate: None,
    }
}

fn full_query() -> Query {
    Query {
        aggregates: Some(vec![("count".to_string(), Aggregate(document("star_count")))]),
        fields: Some(vec![title(), relationship("artist")]),
        limit: Some(10),
        offset: Some(20),
        order_by: Some(models::OrderBy(document("title"))),
        predicate: Some(models::Expression(document("filter"))),
    }
}

fn title_column() -> (ColumnAlias, Expression) {
    (
        ColumnAlias { name: "t".to_string() },
        Expression::ColumnReference(ColumnReference::TableColumn {
            table: TableReference::AliasedTable(alias(0, "albums")),
            name: ColumnName("Title".to_string()),
        }),
    )
}

fn rows(query: &Query) -> (Result<(ReturnsFields, Select), Error>, State) {
    let metadata = metadata();
    let env = env(&metadata);
    let mut state = State::new();
    let result =
        translate_rows_query(&Fake, &env, &mut state, &albums(), &from_albums(), query);
    (result, state)
}

fn aggregates(query: &Query) -> (Result<Option<Select>, Error>, State) {
    let metadata = metadata();
    let env = env(&metadata);
    let mut state = State::new();
    let result =
        translate_aggregate_query(&Fake, &env, &mut state, &albums(), &from_albums(), query);
    (result, state)
}

#[test]
fn rows_have_all_parts_of_the_query() {
    let (result, state) = rows(&full_query());
    let (returns_fields, select) = result.unwrap();
    assert_eq!(returns_fields, ReturnsFields::FieldsWereRequested);
    let relationship_column = (
        ColumnAlias { name: "r".to_string() },
        Expression::ColumnReference(ColumnReference::AliasedColumn {
            table: TableReference::AliasedTable(alias(0, "RELATIONSHIP_r")),
            column: ColumnAlias { name: "r".to_string() },
        }),
    );
    assert_eq!(
        select,
        Select {
            select_list: SelectList::SelectList(vec![title_column(), relationship_column]),
            from: Some(from_albums()),
            // the joins of the order, of the relationships, and of the filter
            joins: vec![
                join(alias(1, "ORDER_FOR_albums")),
                join(alias(0, "RELATIONSHIP_r")),
                join(alias(2, "BOOLEXP_albums")),
            ],
            where_: Where(text("filter")),
            order_by: OrderBy {
                elements: vec![OrderByElement {
                    target: text("title"),
                    direction: OrderByDirection::Asc,
                }],
            },
            limit: Limit { limit: Some(10), offset: Some(20) },
        }
    );
    assert_eq!(state.current_table_index(), TableAliasIndex(3));
}

#[test]
fn rows_without_fields_are_told() {
    for fields in [None, Some(vec![])] {
        let (result, state) = rows(&Query { fields, ..empty_query() });
        let (returns_fields, select) = result.unwrap();
        assert_eq!(returns_fields, ReturnsFields::NoFieldsWereRequested);
        assert_eq!(
            select,
            Select {
                from: Some(from_albums()),
                ..bare_select(SelectList::SelectList(vec![]))
            }
        );
        assert_eq!(state.current_table_index(), TableAliasIndex(0));
    }
}

#[test]
fn the_first_error_in_a_rows_query_is_returned() {
    let bad_column = ("x".to_string(), Field::Column { column: "x".to_string(), fields: None });
    let bad = || document("bad");
    let mut query = full_query();
    query.fields = Some(vec![relationship("bad")]);
    assert_eq!(
        rows(&query).0.unwrap_err(),
        Error::RelationshipNotFound("bad".to_string())
    );
    query.predicate = Some(models::Expression(bad()));
    assert_eq!(rows(&query).0.unwrap_err(), Error::UnexpectedStructure("bad".to_string()));
    assert_eq!(rows(&query).1.current_table_index(), TableAliasIndex(2));
    query.order_by = Some(models::OrderBy(bad()));
    assert_eq!(rows(&query).0.unwrap_err(), Error::UnexpectedStructure("bad".to_string()));
    assert_eq!(rows(&query).1.current_table_index(), TableAliasIndex(1));
    query.fields = Some(vec![bad_column]);
    assert_eq!(
        rows(&query).0.unwrap_err(),
        Error::ColumnNotFoundInCollection("x".to_string(), "albums".to_string())
    );
}

#[test]
fn aggregates_are_neither_ordered_nor_limited() {
    let (result, state) = aggregates(&full_query());
    assert_eq!(
        result.unwrap().unwrap(),
        Select {
            from: Some(from_albums()),
            joins: vec![join(alias(0, "ORDER_FOR_albums")), join(alias(1, "BOOLEXP_albums"))],
            where_: Where(text("filter")),
            ..bare_select(SelectList::SelectList(vec![(
                ColumnAlias { name: "count".to_string() },
                Expression::RowToJson(TableReference::AliasedTable(alias(0, "albums"))),
            )]))
        }
    );
    assert_eq!(state.current_table_index(), TableAliasIndex(2));
}

#[test]
fn a_query_without_aggregates_has_no_aggregates_select() {
    let (result, state) = aggregates(&Query { aggregates: None, ..full_query() });
    assert_eq!(result, Ok(None));
    assert_eq!(state.current_table_index(), TableAliasIndex(0));
}

#[test]
fn a_bad_aggregate_is_an_error() {
    let query = Query {
        aggregates: Some(vec![("a".to_string(), Aggregate(document("bad")))]),
        ..empty_query()
    };
    assert_eq!(aggregates(&query).0, Err(Error::UnexpectedStructure("bad".to_string())));
}

#[test]
fn a_query_part_is_assembled_in_order() {
    let one = |index| vec![join(alias(index, "j"))];
    let select = Select { joins: one(0), ..bare_select(SelectList::SelectStar) };
    let assembled = assemble_query_part(
        select,
        OrderBy { elements: vec![] },
        one(1),
        text("f"),
        one(3),
        one(2),
    );
    assert_eq!(
        assembled,
        Select {
            joins: (0..4).map(|index| join(alias(index, "j"))).collect(),
            where_: Where(text("f")),
            ..bare_select(SelectList::SelectStar)
        }
    );
}

#[test]
fn rows_are_translated_within_levels() {
    let metadata = metadata();
    let env = env(&metadata);
    let mut state = State::new();
    let result = translate_rows_query_within(
        0,
        &Fake,
        &env,
        &mut state,
        &albums(),
        &from_albums(),
        &full_query(),
    );
    assert_eq!(result, Some(rows(&full_query()).0));
}

#[test]
fn a_table_is_selected_from_under_an_alias() {
    let metadata = metadata();
    let env = env(&metadata);
    let mut state = State::new();
    let (table, from) =
        make_from_clause_and_reference("albums", &StringMap::new(), &env, &mut state, None)
            .unwrap();
    assert_eq!(table, albums());
    assert_eq!(from, from_albums());
    assert_eq!(state.current_table_index(), TableAliasIndex(1));
    assert!(state.get_native_queries().is_empty());
}

#[test]
fn a_given_alias_is_used() {
    let metadata = metadata();
    let env = env(&metadata);
    let mut state = State::new();
    let (table, from) = make_from_clause_and_reference(
        "albums",
        &StringMap::new(),
        &env,
        &mut state,
        Some(alias(7, "given")),
    )
    .unwrap();
    assert_eq!(table.name, "albums");
    assert_eq!(table.reference, TableReference::AliasedTable(alias(7, "given")));
    assert!(matches!(from, From::Table { alias: TableAlias { unique_index: 7, .. }, .. }));
    assert_eq!(state.current_table_index(), TableAliasIndex(0));
}

#[test]
fn a_native_query_is_called() {
    let metadata = metadata();
    let env = env(&metadata);
    let mut state = State::new();
    let arguments = || map(vec![("title", Argument::Variable { name: "v".to_string() })]);
    let (table, from) =
        make_from_clause_and_reference("by_title", &arguments(), &env, &mut state, None).unwrap();
    assert_eq!(table.reference, TableReference::AliasedTable(alias(0, "by_title")));
    assert_eq!(
        from,
        From::Table {
            reference: TableReference::AliasedTable(alias(1, "NATIVE_QUERY_by_title")),
            alias: alias(0, "by_title"),
        }
    );
    let calls = state.get_native_queries();
    assert_eq!(calls.len(), 1);
    assert_eq!(calls[0].info, native_query());
    assert_eq!(calls[0].arguments, arguments());
    assert_eq!(calls[0].alias, alias(1, "NATIVE_QUERY_by_title"));
}

#[test]
fn an_unknown_collection_is_an_error() {
    let metadata = metadata();
    let env = env(&metadata);
    let mut state = State::new();
    let result = make_from_clause_and_reference("x", &StringMap::new(), &env, &mut state, None);
    assert_eq!(result, Err(Error::CollectionNotFound("x".to_string())));
    assert_eq!(state.current_table_index(), TableAliasIndex(1));
}
