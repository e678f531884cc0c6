//! The translation of fields.

use ndc_postgres::json;
use ndc_postgres::metadata::{
    ColumnInfo, ComparisonOperators, CompositeType, CompositeTypeName, CompositeTypes, HasDefault,
    IsGenerated, IsIdentity, Metadata, NativeQueries, Nullable, ReadOnlyColumnInfo, ScalarType,
    TableInfo, TablesInfo, Type, TypeRepresentation, TypeRepresentations,
};
use ndc_postgres::models::{
    Field, NestedArray, NestedField, NestedObject, Query, RelationshipArgument,
};
use ndc_postgres::sql::ast::{
    ColumnAlias, ColumnName, ColumnReference, Expression, From, Function, Join,
    LeftOuterJoinLateral, Limit, OrderBy, ScalarTypeName, Select, SelectList, TableAlias,
    TableReference, Value, Where,
};
use ndc_postgres::string_map::StringMap;
use ndc_postgres::translation::error::Error;
use ndc_postgres::translation::helpers::{Env, State, TableAliasIndex, TableNameAndReference};
use ndc_postgres::translation::query::extent::{fields_end_within, translate_fields_within};
use ndc_postgres::translation::query::fields::{
    get_type_representation_cast_type, translate_fields, unpack_composite_type,
    wrap_array_in_type_representation, wrap_in_type_representation,
};
use ndc_postgres::translation::query::relationships::JoinFieldInfo;

fn map<V>(entries: Vec<(&str, V)>) -> StringMap<V> {
    let mut map = StringMap::new();
    for (key, value) in entries {
        map.insert(key.to_string(), value);
    }
    map
}

fn scalar(name: &str) -> Type {
    Type::ScalarType(ScalarType(name.to_string()))
}

fn composite(name: &str) -> Type {
    Type::CompositeType(CompositeTypeName(name.to_string()))
}

fn array_of(element: Type) -> Type {
    Type::ArrayType(Box::new(element))
}

fn table_column(name: &str, data_type: Type) -> ColumnInfo {
    ColumnInfo {
        name: name.to_string(),
        data_type,
        nullable: Nullable::NonNullable,
        has_default: HasDefault::NoDefault,
        is_identity: IsIdentity::NotIdentity,
        is_generated: IsGenerated::NotGenerated,
    }
}

fn part(name: &str, data_type: Type) -> ReadOnlyColumnInfo {
    ReadOnlyColumnInfo { name: name.to_string(), data_type }
}

fn composite_type(name: &str, fields: Vec<(&str, ReadOnlyColumnInfo)>) -> (String, CompositeType) {
    (name.to_string(), CompositeType { name: name.to_string(), fields: map(fields) })
}

fn metadata() -> Metadata {
    let mut composite_types = StringMap::new();
    for (name, info) in [
        composite_type(
            "address",
            vec![("street", part("street_name", scalar("text"))), ("no", part("no", scalar("int8")))],
        ),
        composite_type("person", vec![("home", part("home", composite("address")))]),
        composite_type("node", vec![("next", part("next", composite("node")))]),
    ] {
        composite_types.insert(name, info);
    }
    Metadata {
        tables: TablesInfo(map(vec![(
            "people",
            TableInfo {
                schema_name: "public".to_string(),
                table_name: "People".to_string(),
                columns: map(vec![
                    ("id", table_column("Id", scalar("int8"))),
                    ("name", table_column("Name", scalar("text"))),
                    ("ids", table_column("Ids", array_of(scalar("int8")))),
                    ("address", table_column("Address", composite("address"))),
                    ("addresses", table_column("Addresses", array_of(composite("address")))),
                    ("person", table_column("Person", composite("person"))),
                    ("grid", table_column("Grid", array_of(array_of(scalar("text"))))),
                    ("lost", table_column("Lost", composite("missing"))),
                    ("node", table_column("Node", composite("node"))),
                ]),
            },
        )])),
        composite_types: CompositeTypes(composite_types),
        native_queries: NativeQueries(StringMap::new()),
        comparison_operators: ComparisonOperators(StringMap::new()),
        type_representations: TypeRepresentations(map(vec![
            ("int8", TypeRepresentation::Int64AsString),
            ("text", TypeRepresentation::String),
        ])),
    }
}

fn env(metadata: &Metadata) -> Env<'_> {
    Env::new(metadata, StringMap::new(), None, None)
}

fn alias(unique_index: u64, name: &str) -> TableAlias {
    TableAlias { unique_index, name: name.to_string() }
}

fn aliased(unique_index: u64, name: &str) -> TableReference {
    TableReference::AliasedTable(alias(unique_index, name))
}

fn people() -> TableNameAndReference {
    TableNameAndReference { name: "people".to_string(), reference: aliased(100, "people") }
}

fn whole(column: &str) -> Field {
    Field::Column { column: column.to_string(), fields: None }
}

fn object(fields: Vec<(&str, Field)>) -> NestedField {
    NestedField::Object(NestedObject { fields: named(fields) })
}

fn objects(fields: Vec<(&str, Field)>) -> NestedField {
    NestedField::Array(NestedArray { fields: Box::new(object(fields)) })
}

fn selected(column: &str, selection: NestedField) -> Field {
    Field::Column { column: column.to_string(), fields: Some(selection) }
}

fn named(fields: Vec<(&str, Field)>) -> Vec<(String, Field)> {
    fields.into_iter().map(|(name, field)| (name.to_string(), field)).collect()
}

fn empty_query() -> Query {
    Query {
        aggregates: None,
        fields: None,
        limit: None,
        offset: None,
        order_by: None,
        predicate: None,
    }
}

fn translate(fields: Vec<(&str, Field)>) -> (Result<Select, Error>, State, Vec<JoinFieldInfo>) {
    let metadata = metadata();
    let env = env(&metadata);
    let mut state = State::new();
    let mut joins = vec![];
    let select = translate_fields(&env, &mut state, named(fields), &people(), &mut joins);
    (select, state, joins)
}

fn error_of(fields: Vec<(&str, Field)>) -> Error {
    translate(fields).0.unwrap_err()
}

fn column_alias(name: &str) -> ColumnAlias {
    ColumnAlias { name: name.to_string() }
}

fn column_of(table: TableReference, name: &str) -> Expression {
    Expression::ColumnReference(ColumnReference::TableColumn {
        table,
        name: ColumnName(name.to_string()),
    })
}

fn aliased_column(table: TableReference, name: &str) -> Expression {
    Expression::ColumnReference(ColumnReference::AliasedColumn { table, column: column_alias(name) })
}

fn as_text(expression: Expression, is_array: bool) -> Expression {
    Expression::Cast {
        expression: Box::new(expression),
        scalar_type: ScalarTypeName { schema_name: None, name: "text".to_string(), is_array },
    }
}

fn select_of(select_list: SelectList, from: Option<From>, joins: Vec<Join>) -> Select {
    Select {
        select_list,
        from,
        joins,
        where_: Where(Expression::Value(Value::Bool(true))),
        order_by: OrderBy { elements: vec![] },
        limit: Limit { limit: None, offset: None },
    }
}

fn columns(columns: Vec<(&str, Expression)>) -> SelectList {
    SelectList::SelectList(
        columns.into_iter().map(|(name, column)| (column_alias(name), column)).collect(),
    )
}

/// The join that computes a selection, whose first alias has the given index.
fn nested_join(
    first: u64,
    last: u64,
    collect: Expression,
    value: Expression,
    fields: SelectList,
    joins: Vec<Join>,
) -> Join {
    Join::LeftOuterJoinLateral(LeftOuterJoinLateral {
        select: Box::new(select_of(
            columns(vec![("collected", collect)]),
            Some(From::Select {
                select: Box::new(select_of(
                    fields,
                    Some(From::Select {
                        select: Box::new(select_of(
                            SelectList::SelectStarComposite(value),
                            None,
                            vec![],
                        )),
                        alias: alias(first + 1, "nested_field_binding"),
                    }),
                    joins,
                )),
                alias: alias(first, "nested_fields"),
            }),
            vec![],
        )),
        alias: alias(last, "nested_fields_collect"),
    })
}

#[test]
fn scalar_columns_are_selected_by_their_database_names() {
    let (select, state, joins) = translate(vec![("title", whole("name"))]);
    assert_eq!(
        select.unwrap(),
        select_of(
            columns(vec![("title", column_of(aliased(100, "people"), "Name"))]),
            None,
            vec![]
        )
    );
    assert_eq!(state.current_table_index(), TableAliasIndex(0));
    assert!(joins.is_empty());
}

#[test]
fn columns_stand_in_the_order_of_the_fields() {
    let (select, _, _) =
        translate(vec![("z", whole("name")), ("a", whole("id")), ("m", whole("name"))]);
    let people = || aliased(100, "people");
    assert_eq!(
        select.unwrap().select_list,
        columns(vec![
            ("z", column_of(people(), "Name")),
            ("a", as_text(column_of(people(), "Id"), false)),
            ("m", column_of(people(), "Name")),
        ])
    );
}

#[test]
fn arrays_are_cast_as_arrays() {
    let (select, _, _) = translate(vec![("ids", whole("ids"))]);
    assert_eq!(
        select.unwrap().select_list,
        columns(vec![("ids", as_text(column_of(aliased(100, "people"), "Ids"), true))])
    );
}

#[test]
fn no_fields_select_no_columns() {
    let (select, _, _) = translate(vec![]);
    assert_eq!(select.unwrap(), select_of(SelectList::SelectList(vec![]), None, vec![]));
}

#[test]
fn a_selection_from_an_object_is_joined() {
    let (select, state, _) = translate(vec![(
        "home",
        selected("address", object(vec![("road", whole("street"))])),
    )]);
    let binding = || aliased(1, "nested_field_binding");
    assert_eq!(
        select.unwrap(),
        select_of(
            columns(vec![(
                "home",
                aliased_column(aliased(2, "nested_fields_collect"), "collected")
            )]),
            None,
            vec![nested_join(
                0,
                2,
                Expression::RowToJson(aliased(0, "nested_fields")),
                aliased_column(aliased(100, "people"), "Address"),
                columns(vec![("road", column_of(binding(), "street_name"))]),
                vec![],
            )]
        )
    );
    assert_eq!(state.current_table_index(), TableAliasIndex(3));
}

#[test]
fn a_selection_from_an_array_of_objects_is_unnested_and_collected() {
    let (select, _, _) = translate(vec![(
        "homes",
        selected("addresses", objects(vec![("road", whole("street"))])),
    )]);
    assert_eq!(
        select.unwrap().joins,
        vec![nested_join(
            0,
            2,
            Expression::FunctionCall {
                function: Function::JsonAgg,
                args: vec![Expression::RowToJson(aliased(0, "nested_fields"))],
            },
            Expression::FunctionCall {
                function: Function::Unnest,
                args: vec![aliased_column(aliased(100, "people"), "Addresses")],
            },
            columns(vec![("road", column_of(aliased(1, "nested_field_binding"), "street_name"))]),
            vec![],
        )]
    );
}

#[test]
fn a_whole_composite_column_selects_all_fields() {
    let (by_name, _, _) = translate(vec![("home", whole("address"))]);
    let (by_field, _, _) = translate(vec![(
        "home",
        selected("address", object(vec![("no", whole("no")), ("street", whole("street"))])),
    )]);
    let select = by_name.unwrap();
    assert_eq!(select, by_field.unwrap());
    let binding = || aliased(1, "nested_field_binding");
    assert_eq!(
        select.joins,
        vec![nested_join(
            0,
            2,
            Expression::RowToJson(aliased(0, "nested_fields")),
            aliased_column(aliased(100, "people"), "Address"),
            columns(vec![
                ("no", as_text(column_of(binding(), "no"), false)),
                ("street", column_of(binding(), "street_name")),
            ]),
            vec![],
        )]
    );
}

#[test]
fn a_whole_column_of_composite_arrays_selects_all_fields() {
    let (by_name, _, _) = translate(vec![("homes", whole("addresses"))]);
    let (by_field, _, _) = translate(vec![(
        "homes",
        selected("addresses", objects(vec![("no", whole("no")), ("street", whole("street"))])),
    )]);
    assert_eq!(by_name.unwrap(), by_field.unwrap());
}

#[test]
fn nested_composite_types_are_unpacked_to_their_scalars() {
    let (select, state, _) = translate(vec![("person", whole("person"))]);
    let inner = nested_join(
        2,
        4,
        Expression::RowToJson(aliased(2, "nested_fields")),
        aliased_column(aliased(1, "nested_field_binding"), "home"),
        columns(vec![
            ("no", as_text(column_of(aliased(3, "nested_field_binding"), "no"), false)),
            ("street", column_of(aliased(3, "nested_field_binding"), "street_name")),
        ]),
        vec![],
    );
    assert_eq!(
        select.unwrap().joins,
        vec![nested_join(
            0,
            5,
            Expression::RowToJson(aliased(0, "nested_fields")),
            aliased_column(aliased(100, "people"), "Person"),
            columns(vec![(
                "home",
                aliased_column(aliased(4, "nested_fields_collect"), "collected")
            )]),
            vec![inner],
        )]
    );
    assert_eq!(state.current_table_index(), TableAliasIndex(6));
}

#[test]
fn relationships_are_collected() {
    let arguments =
        || map(vec![("x", RelationshipArgument::Column { name: "id".to_string() })]);
    let friends = Field::Relationship {
        query: Box::new(Query { limit: Some(3), ..empty_query() }),
        relationship: "people_friends".to_string(),
        arguments: arguments(),
    };
    let (select, state, joins) =
        translate(vec![("home", whole("address")), ("friends", friends), ("n", whole("name"))]);
    let select = select.unwrap();
    assert_eq!(select.joins.len(), 1);
    assert_eq!(
        select.select_list,
        columns(vec![
            ("home", aliased_column(aliased(2, "nested_fields_collect"), "collected")),
            ("friends", aliased_column(aliased(3, "RELATIONSHIP_friends"), "friends")),
            ("n", column_of(aliased(100, "people"), "Name")),
        ])
    );
    assert_eq!(joins.len(), 1);
    assert_eq!(joins[0].table_alias, alias(3, "RELATIONSHIP_friends"));
    assert_eq!(joins[0].column_alias, column_alias("friends"));
    assert_eq!(joins[0].relationship_name, "people_friends");
    assert_eq!(joins[0].arguments, arguments());
    assert_eq!(joins[0].query, Query { limit: Some(3), ..empty_query() });
    assert_eq!(state.current_table_index(), TableAliasIndex(4));
}

#[test]
fn a_missing_table_is_an_error() {
    let metadata = metadata();
    let env = env(&metadata);
    let table = TableNameAndReference { name: "pets".to_string(), reference: aliased(0, "pets") };
    assert_eq!(
        translate_fields(&env, &mut State::new(), vec![], &table, &mut vec![]),
        Err(Error::CollectionNotFound("pets".to_string()))
    );
}

#[test]
fn a_missing_column_is_an_error() {
    let missing = Error::ColumnNotFoundInCollection("age".to_string(), "people".to_string());
    assert_eq!(error_of(vec![("age", whole("age"))]), missing);
    assert_eq!(error_of(vec![("age", selected("age", object(vec![])))]), missing);
    assert_eq!(
        error_of(vec![("home", selected("address", object(vec![("zip", whole("zip"))])))]),
        Error::ColumnNotFoundInCollection("zip".to_string(), "address".to_string())
    );
}

#[test]
fn a_missing_composite_type_is_an_error() {
    assert_eq!(
        error_of(vec![("lost", whole("lost"))]),
        Error::CollectionNotFound("missing".to_string())
    );
    assert_eq!(
        error_of(vec![("lost", selected("lost", object(vec![])))]),
        Error::CollectionNotFound("missing".to_string())
    );
}

#[test]
fn a_selection_needs_a_composite_type() {
    assert_eq!(
        error_of(vec![("x", selected("name", object(vec![])))]),
        Error::NestedFieldNotOfCompositeType {
            field_name: "Name".to_string(),
            actual_type: scalar("text")
        }
    );
    assert_eq!(
        error_of(vec![("x", selected("addresses", object(vec![])))]),
        Error::NestedFieldNotOfCompositeType {
            field_name: "Addresses".to_string(),
            actual_type: array_of(composite("address"))
        }
    );
    assert_eq!(
        error_of(vec![("x", selected("ids", objects(vec![])))]),
        Error::NestedFieldNotOfCompositeType {
            field_name: "Ids".to_string(),
            actual_type: scalar("int8")
        }
    );
}

#[test]
fn a_selection_from_elements_needs_an_array() {
    assert_eq!(
        error_of(vec![("x", selected("address", objects(vec![])))]),
        Error::NestedFieldNotOfArrayType {
            field_name: "Address".to_string(),
            actual_type: composite("address")
        }
    );
}

#[test]
fn nested_arrays_are_not_supported() {
    assert_eq!(
        error_of(vec![("x", whole("grid"))]),
        Error::NestedArraysNotSupported { field_name: "grid".to_string() }
    );
    let nested = NestedField::Array(NestedArray { fields: Box::new(objects(vec![])) });
    assert_eq!(
        error_of(vec![("x", selected("grid", nested))]),
        Error::NestedArraysNotSupported { field_name: "Grid".to_string() }
    );
}

#[test]
fn the_first_error_is_returned() {
    let (result, state, joins) = translate(vec![
        ("home", whole("address")),
        ("first", whole("first")),
        ("second", whole("second")),
    ]);
    assert_eq!(
        result.unwrap_err(),
        Error::ColumnNotFoundInCollection("first".to_string(), "people".to_string())
    );
    assert_eq!(state.current_table_index(), TableAliasIndex(3));
    assert!(joins.is_empty());
}

#[test]
fn composite_types_are_unpacked_in_the_order_of_their_fields() {
    let metadata = metadata();
    let env = env(&metadata);
    assert_eq!(
        unpack_composite_type(&env, &CompositeTypeName("address".to_string())),
        Ok(object(vec![("no", whole("no")), ("street", whole("street"))]))
    );
    assert_eq!(
        unpack_composite_type(&env, &CompositeTypeName("zoo".to_string())),
        Err(Error::CollectionNotFound("zoo".to_string()))
    );
}

#[test]
fn some_representations_are_cast_to_text() {
    let text = || Some(ScalarTypeName::new_unqualified("text"));
    assert_eq!(
        text(),
        Some(ScalarTypeName { schema_name: None, name: "text".to_string(), is_array: false })
    );
    assert_eq!(get_type_representation_cast_type(&TypeRepresentation::Int64AsString), text());
    assert_eq!(get_type_representation_cast_type(&TypeRepresentation::BigDecimalAsString), text());
    for representation in [
        TypeRepresentation::Boolean,
        TypeRepresentation::String,
        TypeRepresentation::Float32,
        TypeRepresentation::Float64,
        TypeRepresentation::Int16,
        TypeRepresentation::Int32,
        TypeRepresentation::Int64,
        TypeRepresentation::BigDecimal,
        TypeRepresentation::Timestamp,
        TypeRepresentation::Timestamptz,
        TypeRepresentation::Time,
        TypeRepresentation::Timetz,
        TypeRepresentation::Date,
        TypeRepresentation::UUID,
        TypeRepresentation::Geography,
        TypeRepresentation::Geometry,
        TypeRepresentation::Json,
        TypeRepresentation::Enum(vec!["a".to_string()]),
    ] {
        assert_eq!(get_type_representation_cast_type(&representation), None);
    }
}

#[test]
fn expressions_are_wrapped_in_casts() {
    let value = || column_of(aliased(0, "t"), "c");
    let number = TypeRepresentation::BigDecimalAsString;
    let date = TypeRepresentation::Date;
    assert_eq!(wrap_in_type_representation(value(), None), value());
    assert_eq!(wrap_in_type_representation(value(), Some(&date)), value());
    assert_eq!(wrap_in_type_representation(value(), Some(&number)), as_text(value(), false));
    assert_eq!(wrap_array_in_type_representation(value(), None), value());
    assert_eq!(wrap_array_in_type_representation(value(), Some(&date)), value());
    assert_eq!(wrap_array_in_type_representation(value(), Some(&number)), as_text(value(), true));
}

#[test]
fn a_type_that_contains_itself_is_not_translated() {
    let metadata = metadata();
    let env = env(&metadata);
    let mut state = State::new();
    let mut joins = vec![];
    let fields = || named(vec![("n", whole("name")), ("node", whole("node"))]);
    assert!(!fields_end_within(50, &env, &state, &fields(), &people(), &joins));
    assert_eq!(
        translate_fields_within(50, &env, &mut state, fields(), &people(), &mut joins),
        None
    );
    assert_eq!(state.current_table_index(), TableAliasIndex(0));
    assert!(joins.is_empty());
}

#[test]
fn a_translation_needs_as_many_levels_as_it_nests() {
    let metadata = metadata();
    let env = env(&metadata);
    let mut state = State::new();
    let mut joins = vec![];
    let fields = || named(vec![("person", whole("person"))]);
    assert!(!fields_end_within(0, &env, &state, &fields(), &people(), &joins));
    assert!(!fields_end_within(1, &env, &state, &fields(), &people(), &joins));
    assert!(fields_end_within(2, &env, &state, &fields(), &people(), &joins));
    assert!(fields_end_within(u64::MAX, &env, &state, &fields(), &people(), &joins));
    let select = translate_fields_within(2, &env, &mut state, fields(), &people(), &mut joins);
    assert_eq!(
        select.unwrap().unwrap(),
        translate(vec![("person", whole("person"))]).0.unwrap()
    );
    assert_eq!(state.current_table_index(), TableAliasIndex(6));
}

#[test]
fn an_error_ends_a_translation_within_its_levels() {
    let metadata = metadata();
    let env = env(&metadata);
    let mut state = State::new();
    let mut joins = vec![];
    let fields = || named(vec![("age", whole("age")), ("node", whole("node"))]);
    assert!(fields_end_within(0, &env, &state, &fields(), &people(), &joins));
    assert_eq!(
        translate_fields_within(0, &env, &mut state, fields(), &people(), &mut joins),
        Some(Err(Error::ColumnNotFoundInCollection("age".to_string(), "people".to_string())))
    );
}

#[test]
fn literal_arguments_of_relationships_are_kept() {
    let arguments = || {
        map(vec![(
            "x",
            RelationshipArgument::Literal { value: json::Value::Array(vec![json::Value::Null]) },
        )])
    };
    let (_, _, joins) = translate(vec![(
        "r",
        Field::Relationship {
            query: Box::new(empty_query()),
            relationship: "r".to_string(),
            arguments: arguments(),
        },
    )]);
    assert_eq!(joins[0].arguments, arguments());
}

/// The indexes of the table aliases that joins bind.
fn bound_indexes(joins: &[Join], indexes: &mut Vec<u64>) {
    for join in joins {
        match join {
            Join::LeftOuterJoinLateral(LeftOuterJoinLateral { select, alias }) => {
                indexes.push(alias.unique_index);
                bound_in_select(select, indexes);
            }
            Join::InnerJoinLateral(_) => unreachable!(),
        }
    }
}

fn bound_in_select(select: &Select, indexes: &mut Vec<u64>) {
    if let Some(From::Select { select, alias }) = &select.from {
        indexes.push(alias.unique_index);
        bound_in_select(select, indexes);
    }
    bound_indexes(&select.joins, indexes);
}

#[test]
fn table_aliases_of_joins_are_unique() {
    let (select, state, _) = translate(vec![
        ("a", whole("person")),
        ("b", whole("person")),
        ("c", whole("addresses")),
        ("d", selected("address", object(vec![]))),
    ]);
    let mut indexes = vec![];
    bound_indexes(&select.unwrap().joins, &mut indexes);
    let made = indexes.len() as u64;
    indexes.sort();
    indexes.dedup();
    assert_eq!(indexes, (0..made).collect::<Vec<_>>());
    assert_eq!(state.current_table_index(), TableAliasIndex(made));
}

#[test]
fn a_whole_column_collects_no_relationship() {
    let (select, _, joins) = translate(vec![("person", whole("person"))]);
    let select = select.unwrap();
    assert!(joins.is_empty());
    assert_eq!(select.joins.len(), 1);
}

#[test]
fn a_selection_follows_its_fields() {
    let metadata = metadata();
    let env = env(&metadata);
    let inner_fields = || vec![("road", whole("street")), ("no", whole("no"))];
    let (outer, _, _) = translate(vec![("home", selected("address", object(inner_fields())))]);

    let mut state = State::new();
    state.make_table_alias("nested_fields".to_string());
    let binding = state.make_table_alias("nested_field_binding".to_string());
    let table = TableNameAndReference {
        name: "address".to_string(),
        reference: TableReference::AliasedTable(binding),
    };
    let inner =
        translate_fields(&env, &mut state, named(inner_fields()), &table, &mut vec![]).unwrap();

    match &outer.unwrap().joins[0] {
        Join::LeftOuterJoinLateral(LeftOuterJoinLateral { select, .. }) => match &select.from {
            Some(From::Select { select, .. }) => {
                assert_eq!(select.select_list, inner.select_list);
                assert_eq!(select.joins, inner.joins);
                assert_eq!(select.where_, inner.where_);
                assert_eq!(select.order_by, inner.order_by);
                assert_eq!(select.limit, inner.limit);
            }
            _ => panic!("a selection is selected from"),
        },
        Join::InnerJoinLateral(_) => panic!("a selection is joined from the left"),
    }
}

/// The tables that an expression refers to.
fn referred(expression: &Expression) -> Vec<TableReference> {
    match expression {
        Expression::ColumnReference(ColumnReference::TableColumn { table, .. })
        | Expression::ColumnReference(ColumnReference::AliasedColumn { table, .. })
        | Expression::RowToJson(table) => vec![table.clone()],
        Expression::Cast { expression, .. } => referred(expression),
        Expression::FunctionCall { args, .. } => args.iter().flat_map(referred).collect(),
        _ => vec![],
    }
}

/// Checks that a select statement refers only to tables that are in scope.
fn check_scope(select: &Select, around: &[TableReference]) {
    let mut scope = around.to_vec();
    if let Some(From::Select { select, alias }) = &select.from {
        check_scope(select, around);
        scope.push(TableReference::AliasedTable(alias.clone()));
    }
    for join in &select.joins {
        match join {
            Join::LeftOuterJoinLateral(LeftOuterJoinLateral { select, alias }) => {
                check_scope(select, &scope);
                scope.push(TableReference::AliasedTable(alias.clone()));
            }
            Join::InnerJoinLateral(_) => unreachable!(),
        }
    }
    let expressions: Vec<&Expression> = match &select.select_list {
        SelectList::SelectList(columns) => columns.iter().map(|(_, column)| column).collect(),
        SelectList::SelectStarComposite(expression) => vec![expression],
        _ => vec![],
    };
    for expression in expressions {
        for table in referred(expression) {
            assert!(scope.contains(&table));
        }
    }
}

#[test]
fn translations_refer_to_tables_in_scope() {
    let (select, _, _) = translate(vec![
        ("a", whole("person")),
        ("b", whole("addresses")),
        ("c", whole("id")),
        ("d", selected("person", object(vec![("home", whole("home"))]))),
    ]);
    check_scope(&select.unwrap(), &[people().reference]);
}
