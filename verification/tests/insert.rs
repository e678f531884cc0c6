//! Insert mutations.

use ndc_postgres::json;
use ndc_postgres::metadata::{
    ColumnInfo, ComparisonOperators, CompositeTypes, HasDefault, IsGenerated, IsIdentity, Metadata,
    NativeQueries, Nullable, ScalarType, TableInfo, TablesInfo, Type, TypeRepresentations,
};
use ndc_postgres::models;
use ndc_postgres::models::Aggregate;
use ndc_postgres::sql::ast::{
    ColumnAlias, ColumnName, Expression, Insert, InsertExpression, Join, OrderBy, Returning,
    SchemaName, SelectList, TableName, TableReference, Value,
};
use ndc_postgres::string_map::StringMap;
use ndc_postgres::translation::error::Error;
use ndc_postgres::translation::helpers::{Env, RootAndCurrentTables, State, TableAliasIndex};
use ndc_postgres::translation::mutation::insert::{
    check_columns, generate, tabulate_rows, translate, InsertMutation,
};
use ndc_postgres::translation::query::relationships::JoinFieldInfo;
use ndc_postgres::translation::translators::Translators;

fn map<V>(entries: Vec<(&str, V)>) -> StringMap<V> {
    let mut map = StringMap::new();
    for (key, value) in entries {
        map.insert(key.to_string(), value);
    }
    map
}

fn text(value: &str) -> Expression {
    Expression::Value(Value::String(value.to_string()))
}

/// Translates a string to itself, which takes a table alias. Nothing else is translated.
struct Fake;

impl Translators for Fake {
    fn translate_order_by(
        &self,
        _env: &Env<'_>,
        state: State,
        _tables: &RootAndCurrentTables,
        _order_by: &Option<models::OrderBy>,
    ) -> (State, Result<(OrderBy, Vec<Join>), Error>) {
        (state, Err(Error::UnexpectedVariable))
    }

    fn translate_expression(
        &self,
        _env: &Env<'_>,
        state: State,
        _tables: &RootAndCurrentTables,
        _predicate: &models::Expression,
    ) -> (State, Result<(Expression, Vec<Join>), Error>) {
        (state, Err(Error::UnexpectedVariable))
    }

    fn translate_joins(
        &self,
        _env: &Env<'_>,
        state: State,
        _tables: &RootAndCurrentTables,
        _join_fields: Vec<JoinFieldInfo>,
    ) -> (State, Result<Vec<Join>, Error>) {
        (state, Err(Error::UnexpectedVariable))
    }

    fn translate_aggregates(
        &self,
        _table: &TableReference,
        _aggregates: &Vec<(String, Aggregate)>,
    ) -> Result<Vec<(ColumnAlias, Expression)>, Error> {
        Err(Error::UnexpectedVariable)
    }

    fn translate_json_value(
        &self,
        _env: &Env<'_>,
        state: State,
        value: &json::Value,
        data_type: &Type,
    ) -> (State, Result<Expression, Error>) {
        let mut state = state;
        assert_eq!(*data_type, Type::ScalarType(ScalarType("text".to_string())));
        match value {
            json::Value::String(value) => {
                state.make_table_alias("value".to_string());
                (state, Ok(text(value)))
            }
            _ => (state, Err(Error::UnexpectedStructure("value".to_string()))),
        }
    }

    fn read_expression(&self, document: &json::Value) -> Option<models::Expression> {
        match document {
            json::Value::Null => None,
            document => Some(models::Expression(document.clone())),
        }
    }

    fn translate_constraint(
        &self,
        _env: &Env<'_>,
        state: State,
        tables: &RootAndCurrentTables,
        predicate: &models::Expression,
    ) -> (State, Result<Expression, Error>) {
        let table = TableReference::DBTable {
            schema: SchemaName("music".to_string()),
            table: TableName("Album".to_string()),
        };
        assert_eq!(tables.root_table, tables.current_table);
        assert_eq!(tables.root_table.name, "albums");
        assert_eq!(tables.root_table.reference, table);
        match &predicate.0 {
            json::Value::String(predicate) => (state, Ok(text(predicate))),
            _ => (state, Err(Error::UnexpectedStructure("predicate".to_string()))),
        }
    }
}

fn column(name: &str) -> ColumnInfo {
    ColumnInfo {
        name: name.to_string(),
        data_type: Type::ScalarType(ScalarType("text".to_string())),
        nullable: Nullable::NonNullable,
        has_default: HasDefault::NoDefault,
        is_identity: IsIdentity::NotIdentity,
        is_generated: IsGenerated::NotGenerated,
    }
}

fn table() -> TableInfo {
    TableInfo {
        schema_name: "music".to_string(),
        table_name: "Album".to_string(),
        columns: map(vec![
            ("id", ColumnInfo { is_identity: IsIdentity::IdentityAlways, ..column("AlbumId") }),
            ("title", column("Title")),
            ("year", ColumnInfo { nullable: Nullable::Nullable, ..column("Year") }),
            ("copies", ColumnInfo { has_default: HasDefault::HasDefault, ..column("Copies") }),
            ("row", ColumnInfo { is_identity: IsIdentity::IdentityByDefault, ..column("Row") }),
            ("hash", ColumnInfo { is_generated: IsGenerated::Stored, ..column("Hash") }),
        ]),
    }
}

fn mutation() -> InsertMutation {
    generate("albums", &table()).1
}

fn given(value: &str) -> InsertExpression {
    InsertExpression::Expression(text(value))
}

fn object(members: Vec<(&str, &str)>) -> json::Value {
    json::Value::Object(
        members
            .into_iter()
            .map(|(name, value)| (name.to_string(), json::Value::String(value.to_string())))
            .collect(),
    )
}

fn arguments(objects: Vec<json::Value>) -> StringMap<json::Value> {
    map(vec![
        ("_objects", json::Value::Array(objects)),
        ("constraint", json::Value::String("holds".to_string())),
    ])
}

fn run(arguments: &StringMap<json::Value>) -> (Result<(Insert, ColumnAlias), Error>, State) {
    let metadata = Metadata {
        tables: TablesInfo(map(vec![("albums", table())])),
        composite_types: CompositeTypes(StringMap::new()),
        native_queries: NativeQueries(StringMap::new()),
        comparison_operators: ComparisonOperators(StringMap::new()),
        type_representations: TypeRepresentations(StringMap::new()),
    };
    let env = Env::new(&metadata, StringMap::new(), None, None);
    let mut state = State::new();
    let result = translate(&Fake, &env, &mut state, &mutation(), arguments);
    (result, state)
}

fn names(names: Vec<&str>) -> Vec<ColumnName> {
    names.into_iter().map(|name| ColumnName(name.to_string())).collect()
}

#[test]
fn a_mutation_is_generated_for_a_table() {
    let (name, mutation) = generate("albums", &table());
    assert_eq!(name, "experimental_insert_albums");
    assert_eq!(mutation.collection_name, "albums");
    assert_eq!(mutation.description, "Insert into the albums table");
    assert_eq!(mutation.schema_name, SchemaName("music".to_string()));
    assert_eq!(mutation.table_name, TableName("Album".to_string()));
    assert_eq!(mutation.columns, table().columns);
    assert_eq!(mutation.constraint.argument_name, "constraint");
    assert_eq!(
        mutation.constraint.description,
        "Insert permission predicate over the 'albums' collection"
    );
}

#[test]
fn mutations_of_different_collections_have_different_names() {
    assert_ne!(generate("a", &table()).0, generate("b", &table()).0);
}

#[test]
fn rows_are_completed_with_defaults() {
    let (result, state) = run(&arguments(vec![
        object(vec![("title", "A"), ("year", "1990")]),
        object(vec![("copies", "2"), ("title", "B")]),
    ]));
    let (insert, alias) = result.unwrap();
    let check = || ColumnAlias { name: "%check__constraint".to_string() };
    assert_eq!(alias, check());
    assert_eq!(
        insert,
        Insert {
            schema: SchemaName("music".to_string()),
            table: TableName("Album".to_string()),
            columns: names(vec!["Copies", "Title", "Year"]),
            values: vec![
                vec![InsertExpression::Default, given("A"), given("1990")],
                vec![given("2"), given("B"), InsertExpression::Default],
            ],
            returning: Returning::Returning(SelectList::SelectListComposite(
                Box::new(SelectList::SelectStar),
                Box::new(SelectList::SelectList(vec![(check(), text("holds"))])),
            )),
        }
    );
    assert_eq!(state.current_table_index(), TableAliasIndex(4));
}

#[test]
fn no_objects_insert_no_rows() {
    let (insert, _) = run(&arguments(vec![])).0.unwrap();
    assert!(insert.columns.is_empty());
    assert!(insert.values.is_empty());
}

#[test]
fn a_missing_argument_is_an_error() {
    assert_eq!(
        run(&map(vec![("constraint", json::Value::Null)])).0.unwrap_err(),
        Error::ArgumentNotFound("_objects".to_string())
    );
    let missing = Error::ArgumentNotFound("constraint".to_string());
    assert_eq!(
        run(&map(vec![("_objects", json::Value::Array(vec![]))])).0.unwrap_err(),
        missing
    );
    assert_eq!(
        run(&map(vec![
            ("_objects", json::Value::Array(vec![])),
            ("constraint", json::Value::Null)
        ]))
        .0
        .unwrap_err(),
        missing
    );
}

#[test]
fn a_bad_constraint_is_an_error() {
    assert_eq!(
        run(&map(vec![
            ("_objects", json::Value::Array(vec![])),
            ("constraint", json::Value::Bool(true))
        ]))
        .0
        .unwrap_err(),
        Error::UnexpectedStructure("predicate".to_string())
    );
}

#[test]
fn objects_must_be_an_array_of_objects() {
    let with = |objects: json::Value| {
        run(&map(vec![("_objects", objects), ("constraint", json::Value::Bool(true))]))
            .0
            .unwrap_err()
    };
    let expected = |structure: &str| {
        Error::UnexpectedStructure(format!(
            "{structure} structure in insert _objects argument. Expecting an array of objects."
        ))
    };
    assert_eq!(with(object(vec![])), expected("object"));
    assert_eq!(with(json::Value::Null), expected("value"));
    assert_eq!(with(json::Value::Number("1".to_string())), expected("value"));
    assert_eq!(
        with(json::Value::Array(vec![json::Value::Array(vec![])])),
        expected("array of arrays")
    );
    assert_eq!(
        with(json::Value::Array(vec![json::Value::String("x".to_string())])),
        expected("array of values")
    );
}

#[test]
fn an_unknown_column_is_an_error() {
    let (result, state) =
        run(&arguments(vec![object(vec![("title", "A"), ("Title", "B"), ("year", "1")])]));
    assert_eq!(
        result.unwrap_err(),
        Error::ColumnNotFoundInCollection("Title".to_string(), "albums".to_string())
    );
    assert_eq!(state.current_table_index(), TableAliasIndex(1));
}

#[test]
fn a_bad_value_is_an_error() {
    let bad = json::Value::Object(vec![("title".to_string(), json::Value::Null)]);
    assert_eq!(
        run(&arguments(vec![bad])).0.unwrap_err(),
        Error::UnexpectedStructure("value".to_string())
    );
}

#[test]
fn a_required_column_must_be_given() {
    assert_eq!(
        run(&arguments(vec![object(vec![("year", "1990")])])).0.unwrap_err(),
        Error::MissingColumnInInsert("title".to_string(), "albums".to_string())
    );
    assert_eq!(
        run(&arguments(vec![object(vec![("title", "A")]), object(vec![])])).0.unwrap_err(),
        Error::MissingColumnInInsert("title".to_string(), "albums".to_string())
    );
}

#[test]
fn columns_that_the_database_fills_in_must_not_be_given() {
    assert_eq!(
        run(&arguments(vec![object(vec![("title", "A"), ("hash", "0")])])).0.unwrap_err(),
        Error::ColumnIsGenerated("hash".to_string())
    );
    assert_eq!(
        run(&arguments(vec![object(vec![("title", "A"), ("id", "0")])])).0.unwrap_err(),
        Error::ColumnIsIdentityAlways("id".to_string())
    );
}

#[test]
fn the_first_column_with_a_problem_is_named() {
    assert_eq!(
        run(&arguments(vec![object(vec![("id", "0"), ("hash", "0")])])).0.unwrap_err(),
        Error::ColumnIsGenerated("hash".to_string())
    );
}

#[test]
fn optional_columns_can_be_given() {
    let members = vec![("title", "A"), ("year", "1"), ("copies", "2"), ("row", "3")];
    let (insert, _) = run(&arguments(vec![object(members)])).0.unwrap();
    assert_eq!(insert.columns, names(vec!["Copies", "Row", "Title", "Year"]));
    assert_eq!(insert.values, vec![vec![given("2"), given("3"), given("A"), given("1")]]);
}

#[test]
fn the_default_may_stand_in_a_column_that_the_database_fills_in() {
    let row = map(vec![("Title", given("A")), ("Hash", InsertExpression::Default)]);
    assert_eq!(check_columns(&table().columns, &row, "albums"), Ok(()));
}

#[test]
fn the_default_may_not_stand_in_a_required_column() {
    let row = map(vec![("Title", InsertExpression::Default)]);
    assert_eq!(
        check_columns(&table().columns, &row, "albums"),
        Err(Error::MissingColumnInInsert("title".to_string(), "albums".to_string()))
    );
}

/// Checks a row that gives a value to the only column of a table.
fn check_given(column: ColumnInfo) -> Result<(), Error> {
    let inserted = map(vec![(column.name.as_str(), given("0"))]);
    check_columns(&map(vec![("total", column)]), &inserted, "Order")
}

#[test]
fn a_generated_column_must_not_be_given_also_where_it_is_optional() {
    let generated = || ColumnInfo { is_generated: IsGenerated::Stored, ..column("total") };
    for column in [
        generated(),
        ColumnInfo { nullable: Nullable::Nullable, ..generated() },
        ColumnInfo { has_default: HasDefault::HasDefault, ..generated() },
    ] {
        assert_eq!(check_given(column), Err(Error::ColumnIsGenerated("total".to_string())));
    }
}

#[test]
fn an_identity_always_column_must_not_be_given_also_where_it_is_optional() {
    let identity = || ColumnInfo { is_identity: IsIdentity::IdentityAlways, ..column("total") };
    for column in [
        identity(),
        ColumnInfo { nullable: Nullable::Nullable, ..identity() },
        ColumnInfo { has_default: HasDefault::HasDefault, ..identity() },
    ] {
        assert_eq!(check_given(column), Err(Error::ColumnIsIdentityAlways("total".to_string())));
    }
}

#[test]
fn a_nullable_generated_column_can_be_omitted() {
    let columns = map(vec![(
        "total",
        ColumnInfo {
            nullable: Nullable::Nullable,
            is_generated: IsGenerated::Stored,
            ..column("total")
        },
    )]);
    assert_eq!(check_columns(&columns, &StringMap::new(), "Order"), Ok(()));
    let inserted = map(vec![("total", InsertExpression::Default)]);
    assert_eq!(check_columns(&columns, &inserted, "Order"), Ok(()));
}

#[test]
fn other_arguments_are_ignored() {
    let objects = || vec![object(vec![("title", "A")])];
    let mut more = arguments(objects());
    more.insert("other".to_string(), json::Value::Null);
    assert_eq!(run(&more).0, run(&arguments(objects())).0);
}

#[test]
fn the_first_row_with_a_problem_decides() {
    let rows = vec![
        map(vec![("Title", given("A"))]),
        map(vec![("Title", given("B")), ("AlbumId", given("1"))]),
        map(vec![]),
    ];
    assert_eq!(
        tabulate_rows(&mutation(), rows),
        Err(Error::ColumnIsIdentityAlways("id".to_string()))
    );
}

#[test]
fn rows_come_to_a_table() {
    let rows = vec![
        map(vec![("Year", given("1")), ("Title", given("A"))]),
        map(vec![("Title", given("B")), ("Copies", given("2"))]),
    ];
    assert_eq!(
        tabulate_rows(&mutation(), rows),
        Ok((
            names(vec!["Copies", "Title", "Year"]),
            vec![
                vec![InsertExpression::Default, given("A"), given("1")],
                vec![given("2"), given("B"), InsertExpression::Default],
            ]
        ))
    );
}
