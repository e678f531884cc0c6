//! Lookups and table aliases.

use ndc_postgres::json;
use ndc_postgres::metadata::{
    ColumnInfo, ComparisonOperator, ComparisonOperators, CompositeType, CompositeTypes, HasDefault,
    IsGenerated, IsIdentity, Metadata, MutationsVersion, NativeQueries, NativeQueryInfo, Nullable,
    ReadOnlyColumnInfo, ScalarType, TableInfo, TablesInfo, Type, TypeRepresentation,
    TypeRepresentations,
};
use ndc_postgres::models::{Argument, Relationship, RelationshipType};
use ndc_postgres::sql::ast::{ColumnName, From, TableAlias, TableReference};
use ndc_postgres::string_map::StringMap;
use ndc_postgres::translation::error::Error;
use ndc_postgres::translation::helpers::{
    CollectionInfo, CompositeTypeInfo, Env, State, TableAliasIndex,
};

fn map<V>(entries: Vec<(&str, V)>) -> StringMap<V> {
    let mut map = StringMap::new();
    for (key, value) in entries {
        map.insert(key.to_string(), value);
    }
    map
}

fn scalar(name: &str) -> Type {
    Type::ScalarType(ScalarType(name.to_string()))
}

fn column(name: &str) -> ColumnInfo {
    ColumnInfo {
        name: name.to_string(),
        data_type: scalar("int4"),
        nullable: Nullable::NonNullable,
        has_default: HasDefault::NoDefault,
        is_identity: IsIdentity::NotIdentity,
        is_generated: IsGenerated::NotGenerated,
    }
}

fn read_only(name: &str) -> ReadOnlyColumnInfo {
    ReadOnlyColumnInfo { name: name.to_string(), data_type: scalar("text") }
}

fn native_query(sql: &str) -> NativeQueryInfo {
    NativeQueryInfo {
        sql: sql.to_string(),
        columns: map(vec![("title", read_only("title_column"))]),
        arguments: StringMap::new(),
    }
}

fn metadata() -> Metadata {
    Metadata {
        tables: TablesInfo(map(vec![(
            "albums",
            TableInfo {
                schema_name: "public".to_string(),
                table_name: "Album".to_string(),
                columns: map(vec![("id", column("AlbumId")), ("artist", column("ArtistId"))]),
            },
        )])),
        composite_types: CompositeTypes(map(vec![
            (
                "person",
                CompositeType {
                    name: "person_name".to_string(),
                    fields: map(vec![("last", read_only("last_name"))]),
                },
            ),
            (
                "albums",
                CompositeType { name: "hidden".to_string(), fields: StringMap::new() },
            ),
        ])),
        native_queries: NativeQueries(map(vec![
            ("by_title", native_query("SELECT 1")),
            ("albums", native_query("SELECT 2")),
        ])),
        comparison_operators: ComparisonOperators(map(vec![(
            "int4",
            map(vec![(
                "_eq",
                ComparisonOperator {
                    operator_name: "=".to_string(),
                    argument_type: ScalarType("int4".to_string()),
                },
            )]),
        )])),
        type_representations: TypeRepresentations(map(vec![(
            "int8",
            TypeRepresentation::Int64AsString,
        )])),
    }
}

fn env(metadata: &Metadata) -> Env<'_> {
    Env::new(
        metadata,
        map(vec![(
            "album_artist",
            Relationship {
                column_mapping: map(vec![("artist", "id".to_string())]),
                relationship_type: RelationshipType::Object,
                target_collection: "artists".to_string(),
                arguments: StringMap::new(),
            },
        )]),
        Some(MutationsVersion::V1),
        None,
    )
}

#[test]
fn a_table_comes_before_a_native_query_and_a_composite_type() {
    let metadata = metadata();
    let env = env(&metadata);
    assert!(matches!(
        env.lookup_collection("albums"),
        Ok(CollectionInfo::Table { name: "albums", info }) if info.table_name == "Album"
    ));
    assert!(matches!(
        env.lookup_composite_type("albums"),
        Ok(CompositeTypeInfo::CollectionInfo(CollectionInfo::Table { name: "albums", .. }))
    ));
}

#[test]
fn a_native_query_is_a_collection() {
    let metadata = metadata();
    let env = env(&metadata);
    assert!(matches!(
        env.lookup_collection("by_title"),
        Ok(CollectionInfo::NativeQuery { name: "by_title", info }) if info.sql == "SELECT 1"
    ));
    assert_eq!(env.lookup_native_query("albums").unwrap().sql, "SELECT 2");
}

#[test]
fn a_composite_type_is_no_collection() {
    let metadata = metadata();
    let env = env(&metadata);
    assert_eq!(
        env.lookup_collection("person").unwrap_err(),
        Error::CollectionNotFound("person".to_string())
    );
    assert!(matches!(
        env.lookup_composite_type("person"),
        Ok(CompositeTypeInfo::CompositeTypeInfo { name, info })
            if name == "person_name" && info == metadata.composite_types.0.as_entries()[1].1
    ));
}

#[test]
fn what_is_missing_is_named() {
    let metadata = metadata();
    let env = env(&metadata);
    assert_eq!(
        env.lookup_composite_type("nothing").unwrap_err(),
        Error::CollectionNotFound("nothing".to_string())
    );
    assert_eq!(
        env.lookup_native_query("person").unwrap_err(),
        Error::ProcedureNotFound("person".to_string())
    );
    assert_eq!(
        env.lookup_relationship("artist_albums").unwrap_err(),
        Error::RelationshipNotFound("artist_albums".to_string())
    );
    assert_eq!(env.get_variables_table().unwrap_err(), Error::UnexpectedVariable);
}

#[test]
fn relationships_are_looked_up() {
    let metadata = metadata();
    let env = env(&metadata);
    assert_eq!(env.lookup_relationship("album_artist").unwrap().target_collection, "artists");
}

#[test]
fn comparison_operators_are_looked_up_by_type_and_name() {
    let metadata = metadata();
    let env = env(&metadata);
    let int4 = ScalarType("int4".to_string());
    let text = ScalarType("text".to_string());
    assert_eq!(env.lookup_comparison_operator(&int4, "_eq").unwrap().operator_name, "=");
    assert_eq!(
        env.lookup_comparison_operator(&int4, "_gt").unwrap_err(),
        Error::OperatorNotFound { operator_name: "_gt".to_string(), scalar_type: int4.clone() }
    );
    assert_eq!(
        env.lookup_comparison_operator(&text, "_eq").unwrap_err(),
        Error::OperatorNotFound { operator_name: "_eq".to_string(), scalar_type: text.clone() }
    );
}

#[test]
fn type_representations_are_looked_up() {
    let metadata = metadata();
    let env = env(&metadata);
    assert_eq!(
        env.lookup_type_representation(&ScalarType("int8".to_string())),
        Some(&TypeRepresentation::Int64AsString)
    );
    assert_eq!(env.lookup_type_representation(&ScalarType("int4".to_string())), None);
}

#[test]
fn columns_are_looked_up_by_the_names_of_the_request() {
    let metadata = metadata();
    let env = env(&metadata);

    let table = env.lookup_collection("albums").unwrap();
    let artist = table.lookup_column("artist").unwrap();
    assert_eq!(artist.name, ColumnName("ArtistId".to_string()));
    assert_eq!(artist.data_type, scalar("int4"));
    assert_eq!(
        table.lookup_column("ArtistId").unwrap_err(),
        Error::ColumnNotFoundInCollection("ArtistId".to_string(), "albums".to_string())
    );

    let query = env.lookup_collection("by_title").unwrap();
    assert_eq!(query.lookup_column("title").unwrap().name.0, "title_column");
    assert_eq!(
        query.lookup_column("id").unwrap_err(),
        Error::ColumnNotFoundInCollection("id".to_string(), "by_title".to_string())
    );
}

#[test]
fn a_composite_type_is_called_by_its_own_name() {
    let metadata = metadata();
    let env = env(&metadata);
    let person = env.lookup_composite_type("person").unwrap();
    assert_eq!(person.lookup_column("last").unwrap().name.0, "last_name");
    assert_eq!(
        person.lookup_column("first").unwrap_err(),
        Error::ColumnNotFoundInCollection("first".to_string(), "person_name".to_string())
    );
}

#[test]
fn fields_are_listed_in_ascending_order() {
    let metadata = metadata();
    let env = env(&metadata);
    let pair = |name: &str| (name.to_string(), name.to_string());
    assert_eq!(
        env.lookup_composite_type("albums").unwrap().fields(),
        vec![pair("artist"), pair("id")]
    );
    assert_eq!(env.lookup_composite_type("by_title").unwrap().fields(), vec![pair("title")]);
    assert_eq!(env.lookup_composite_type("person").unwrap().fields(), vec![pair("last")]);
}

#[test]
fn table_aliases_count_up() {
    let mut state = State::new();
    let aliases = vec![
        state.make_table_alias("x".to_string()),
        state.make_table_alias("x".to_string()),
        state.make_relationship_table_alias("x"),
        state.make_order_path_part_table_alias("x"),
        state.make_order_by_table_alias("x"),
        state.make_native_query_table_alias("x"),
        state.make_boolean_expression_table_alias("x"),
    ];
    let names =
        ["x", "x", "RELATIONSHIP_x", "ORDER_PART_x", "ORDER_FOR_x", "NATIVE_QUERY_x", "BOOLEXP_x"];
    for (index, (alias, name)) in aliases.iter().zip(names).enumerate() {
        assert_eq!(*alias, TableAlias { unique_index: index as u64, name: name.to_string() });
    }
    assert_eq!(state.current_table_index(), TableAliasIndex(7));
}

#[test]
fn variables_get_a_table() {
    let mut state = State::new();
    assert_eq!(state.make_variables_table(&None), None);
    assert_eq!(state.current_table_index(), TableAliasIndex(0));

    let alias = || TableAlias { unique_index: 0, name: "%variables_table".to_string() };
    let variables = Some(vec![map(vec![("id", json::Value::Number("1".to_string()))])]);
    let (from, reference) = state.make_variables_table(&variables).unwrap();
    assert_eq!(from, From::Variables { alias: alias() });
    assert_eq!(reference, TableReference::AliasedTable(alias()));
    assert_eq!(state.current_table_index(), TableAliasIndex(1));

    let metadata = metadata();
    let env = Env::new(&metadata, StringMap::new(), None, Some(reference));
    assert_eq!(env.get_variables_table(), Ok(TableReference::AliasedTable(alias())));
}

#[test]
fn native_query_calls_have_different_aliases() {
    let mut state = State::new();
    let argument = |text: &str| {
        map(vec![("title", Argument::Literal { value: json::Value::String(text.to_string()) })])
    };
    let first = state.insert_native_query("by_title", native_query("SELECT 1"), argument("a"));
    let second = state.insert_native_query("by_title", native_query("SELECT 1"), argument("b"));
    assert_ne!(first, second);

    let calls = state.get_native_queries();
    assert_eq!(calls.len(), 2);
    assert_eq!(TableReference::AliasedTable(calls[0].alias.clone()), first);
    assert_eq!(TableReference::AliasedTable(calls[1].alias.clone()), second);
    assert_eq!(calls[0].arguments, argument("a"));
    assert_eq!(calls[1].arguments, argument("b"));
    assert_eq!(calls[1].info, native_query("SELECT 1"));
    assert_eq!(calls[1].alias.name, "NATIVE_QUERY_by_title");
}
