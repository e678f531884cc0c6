//! The configuration of the connector.

use ndc_postgres::configuration::VersionTag;
use ndc_postgres::metadata::{
    ColumnInfo, HasDefault, IsGenerated, IsIdentity, Nullable, ScalarType, TableInfo, TablesInfo,
    Type,
};
use ndc_postgres::string_map::StringMap;
use schemars::gen::SchemaGenerator;
use schemars::schema::{
    InstanceType, ObjectValidation, Schema, SchemaObject, SingleOrVec, SubschemaValidation,
};
use schemars::JsonSchema;
use serde_json::Value;

/// A configuration: its version, and the tables that it tracks.
struct Configuration {
    version: VersionTag,
    tables: TablesInfo,
}

fn of_type(instance_type: InstanceType) -> SchemaObject {
    SchemaObject {
        instance_type: Some(SingleOrVec::Single(Box::new(instance_type))),
        ..Default::default()
    }
}

fn string_schema() -> Schema {
    Schema::Object(of_type(InstanceType::String))
}

fn one_of_strings(strings: &[&str]) -> Schema {
    Schema::Object(SchemaObject {
        enum_values: Some(strings.iter().map(|text| Value::String(text.to_string())).collect()),
        ..of_type(InstanceType::String)
    })
}

fn object_schema(properties: Vec<(&str, Schema)>) -> Schema {
    let required = properties.iter().map(|(name, _)| name.to_string()).collect();
    Schema::Object(SchemaObject {
        object: Some(Box::new(ObjectValidation {
            properties: properties
                .into_iter()
                .map(|(name, schema)| (name.to_string(), schema))
                .collect(),
            required,
            ..Default::default()
        })),
        ..of_type(InstanceType::Object)
    })
}

fn map_schema(values: Schema) -> Schema {
    Schema::Object(SchemaObject {
        object: Some(Box::new(ObjectValidation {
            additional_properties: Some(Box::new(values)),
            ..Default::default()
        })),
        ..of_type(InstanceType::Object)
    })
}

fn any_of(schemas: Vec<Schema>) -> Schema {
    Schema::Object(SchemaObject {
        subschemas: Some(Box::new(SubschemaValidation {
            any_of: Some(schemas),
            ..Default::default()
        })),
        ..Default::default()
    })
}

impl JsonSchema for Configuration {
    fn schema_name() -> String {
        "Configuration".to_string()
    }

    fn json_schema(_: &mut SchemaGenerator) -> Schema {
        let column_type = any_of(vec![
            object_schema(vec![("scalarType", string_schema())]),
            object_schema(vec![("compositeType", string_schema())]),
            object_schema(vec![("arrayType", Schema::Object(of_type(InstanceType::Object)))]),
        ]);
        object_schema(vec![
            ("version", one_of_strings(&["3", "4", "5"])),
            (
                "tables",
                map_schema(object_schema(vec![
                    ("schemaName", string_schema()),
                    ("tableName", string_schema()),
                    (
                        "columns",
                        map_schema(object_schema(vec![
                            ("name", string_schema()),
                            ("type", column_type),
                            ("nullable", one_of_strings(&["nullable", "nonNullable"])),
                        ])),
                    ),
                ])),
            ),
        ])
    }
}

fn to_object(members: Vec<(&str, Value)>) -> Value {
    Value::Object(members.into_iter().map(|(name, value)| (name.to_string(), value)).collect())
}

fn to_text(text: &str) -> Value {
    Value::String(text.to_string())
}

fn type_to_value(data_type: &Type) -> Value {
    match data_type {
        Type::ScalarType(name) => to_object(vec![("scalarType", to_text(&name.0))]),
        Type::CompositeType(name) => to_object(vec![("compositeType", to_text(&name.0))]),
        Type::ArrayType(element) => to_object(vec![("arrayType", type_to_value(element))]),
    }
}

fn column_to_value(column: &ColumnInfo) -> Value {
    let nullable = match column.nullable {
        Nullable::Nullable => "nullable",
        Nullable::NonNullable => "nonNullable",
    };
    to_object(vec![
        ("name", to_text(&column.name)),
        ("type", type_to_value(&column.data_type)),
        ("nullable", to_text(nullable)),
    ])
}

fn map_to_value<V>(map: &StringMap<V>, to_value: impl Fn(&V) -> Value) -> Value {
    Value::Object(
        map.as_entries().iter().map(|(name, value)| (name.clone(), to_value(value))).collect(),
    )
}

fn configuration_to_value(configuration: &Configuration) -> Value {
    let version = match configuration.version {
        VersionTag::Version3 => "3",
        VersionTag::Version4 => "4",
        VersionTag::Version5 => "5",
    };
    let tables = map_to_value(&configuration.tables.0, |table: &TableInfo| {
        to_object(vec![
            ("schemaName", to_text(&table.schema_name)),
            ("tableName", to_text(&table.table_name)),
            ("columns", map_to_value(&table.columns, column_to_value)),
        ])
    });
    to_object(vec![("version", to_text(version)), ("tables", tables)])
}

fn column(name: &str, data_type: Type, nullable: Nullable) -> ColumnInfo {
    ColumnInfo {
        name: name.to_string(),
        data_type,
        nullable,
        has_default: HasDefault::NoDefault,
        is_identity: IsIdentity::NotIdentity,
        is_generated: IsGenerated::NotGenerated,
    }
}

fn chinook() -> TablesInfo {
    let int4 = || Type::ScalarType(ScalarType("int4".to_string()));
    let varchar = || Type::ScalarType(ScalarType("varchar".to_string()));
    let mut columns = StringMap::new();
    columns.insert("AlbumId".to_string(), column("AlbumId", int4(), Nullable::NonNullable));
    columns.insert("ArtistId".to_string(), column("ArtistId", int4(), Nullable::NonNullable));
    columns.insert("Title".to_string(), column("Title", varchar(), Nullable::Nullable));
    columns.insert(
        "Tags".to_string(),
        column("Tags", Type::ArrayType(Box::new(varchar())), Nullable::Nullable),
    );
    let mut tables = StringMap::new();
    tables.insert(
        "Album".to_string(),
        TableInfo {
            schema_name: "public".to_string(),
            table_name: "Album".to_string(),
            columns,
        },
    );
    TablesInfo(tables)
}

/// Checks that a given value conforms to the schema generated by `schemars`.
///
/// Panics with a human-readable error if the value does not conform, or if the
/// schema could not be compiled.
fn check_value_conforms_to_schema<T: JsonSchema>(value: &Value) {
    let schema_json =
        serde_json::to_value(SchemaGenerator::default().into_root_schema_for::<T>())
            .expect("the schema could not be converted to JSON");
    let schema = jsonschema::JSONSchema::options()
        .with_draft(jsonschema::Draft::Draft7)
        .compile(&schema_json)
        .expect("the schema could not be compiled");

    let result = schema.validate(value);

    match result {
        Ok(()) => (),
        Err(errors) => {
            panic!(
                "The configuration does not conform to the schema.\n{}",
                errors.fold(String::new(), |mut text, error| {
                    text.push_str(&format!(
                        "{}\ninstance path: {}\nschema path:   {}\n\n",
                        error, error.instance_path, error.schema_path
                    ));
                    text
                })
            )
        }
    }
}

#[test]
fn configuration_conforms_to_the_schema() {
    for version in [VersionTag::Version3, VersionTag::Version4, VersionTag::Version5] {
        let configuration = Configuration { version, tables: chinook() };
        check_value_conforms_to_schema::<Configuration>(&configuration_to_value(&configuration));
    }
}

#[test]
fn a_version_tag_is_copied() {
    let version = VersionTag::Version4;
    let copy = version;
    assert_eq!(version, copy);
    assert_ne!(version, VersionTag::Version5);
}
