//! What the connector knows of the database.

use crate::string_map::StringMap;
use vstd::prelude::*;

verus! {

/// The name of a scalar type.
#[derive(Debug, PartialEq, Eq)]
pub struct ScalarType(pub String);

/// The name of a composite type.
#[derive(Debug, PartialEq, Eq)]
pub struct CompositeTypeName(pub String);

/// The type of a column, an argument or a field.
#[derive(Debug, PartialEq, Eq)]
pub enum Type {
    ScalarType(ScalarType),
    CompositeType(CompositeTypeName),
    ArrayType(Box<Type>),
}

impl Clone for ScalarType {
    fn clone(&self) -> (r: Self)
        ensures
            r == *self,
    {
        ScalarType(self.0.clone())
    }
}

impl Clone for CompositeTypeName {
    fn clone(&self) -> (r: Self)
        ensures
            r == *self,
    {
        CompositeTypeName(self.0.clone())
    }
}

impl Clone for Type {
    fn clone(&self) -> (r: Self)
        ensures
            r == *self,
        decreases self,
    {
        match self {
            Type::ScalarType(name) => Type::ScalarType(name.clone()),
            Type::CompositeType(name) => Type::CompositeType(name.clone()),
            Type::ArrayType(element_type) => {
                let copy: Type = (&**element_type).clone();
                Type::ArrayType(Box::new(copy))
            },
        }
    }
}

/// How the values of a scalar type are written in a response.
#[derive(Debug, PartialEq, Eq)]
pub enum TypeRepresentation {
    Boolean,
    String,
    Float32,
    Float64,
    Int16,
    Int32,
    Int64,
    Int64AsString,
    BigDecimal,
    BigDecimalAsString,
    Timestamp,
    Timestamptz,
    Time,
    Timetz,
    Date,
    UUID,
    Geography,
    Geometry,
    Json,
    Enum(Vec<String>),
}

/// Whether a column can hold null.
#[derive(Debug, Clone, Copy, PartialEq, Eq)]
pub enum Nullable {
    Nullable,
    NonNullable,
}

/// Whether a column has a default value.
#[derive(Debug, Clone, Copy, PartialEq, Eq)]
pub enum HasDefault {
    NoDefault,
    HasDefault,
}

/// Whether a column is an identity column.
#[derive(Debug, Clone, Copy, PartialEq, Eq)]
pub enum IsIdentity {
    NotIdentity,
    IdentityByDefault,
    IdentityAlways,
}

/// Whether a column is computed from other columns.
#[derive(Debug, Clone, Copy, PartialEq, Eq)]
pub enum IsGenerated {
    NotGenerated,
    Stored,
}

/// A column of a table.
#[derive(Debug, PartialEq, Eq)]
pub struct ColumnInfo {
    /// The name of the column in the database.
    pub name: String,
    pub data_type: Type,
    pub nullable: Nullable,
    pub has_default: HasDefault,
    pub is_identity: IsIdentity,
    pub is_generated: IsGenerated,
}

impl Clone for ColumnInfo {
    fn clone(&self) -> (r: Self)
        ensures
            r == *self,
    {
        ColumnInfo {
            name: self.name.clone(),
            data_type: self.data_type.clone(),
            nullable: self.nullable,
            has_default: self.has_default,
            is_identity: self.is_identity,
            is_generated: self.is_generated,
        }
    }
}

/// A table.
#[derive(Debug, PartialEq, Eq)]
pub struct TableInfo {
    pub schema_name: String,
    pub table_name: String,
    /// The columns, under the names by which requests know them.
    pub columns: StringMap<ColumnInfo>,
}

/// A column of a native query, an argument of one, or a field of a composite type.
#[derive(Debug, PartialEq, Eq)]
pub struct ReadOnlyColumnInfo {
    /// The name in the database.
    pub name: String,
    pub data_type: Type,
}

impl Clone for ReadOnlyColumnInfo {
    fn clone(&self) -> (r: Self)
        ensures
            r == *self,
    {
        ReadOnlyColumnInfo { name: self.name.clone(), data_type: self.data_type.clone() }
    }
}

/// A query written in SQL, which requests use like a table.
#[derive(Debug, PartialEq, Eq)]
pub struct NativeQueryInfo {
    /// The text of the query.
    pub sql: String,
    /// The columns, under the names by which requests know them.
    pub columns: StringMap<ReadOnlyColumnInfo>,
    /// The arguments, under the names by which requests know them.
    pub arguments: StringMap<ReadOnlyColumnInfo>,
}

/// What a native query's description holds.
#[verifier::ext_equal]
pub struct NativeQueryInfoView {
    pub sql: Seq<char>,
    pub columns: Seq<(String, ReadOnlyColumnInfo)>,
    pub arguments: Seq<(String, ReadOnlyColumnInfo)>,
}

impl View for NativeQueryInfo {
    type V = NativeQueryInfoView;

    open spec fn view(&self) -> NativeQueryInfoView {
        NativeQueryInfoView {
            sql: self.sql@,
            columns: self.columns.entries(),
            arguments: self.arguments.entries(),
        }
    }
}

impl Clone for NativeQueryInfo {
    fn clone(&self) -> (r: Self)
        ensures
            r@ == self@,
    {
        let r = NativeQueryInfo {
            sql: self.sql.clone(),
            columns: self.columns.clone(),
            arguments: self.arguments.clone(),
        };
        assert(r.columns.entries() =~= self.columns.entries());
        assert(r.arguments.entries() =~= self.arguments.entries());
        r
    }
}

/// A composite type.
#[derive(Debug, PartialEq, Eq)]
pub struct CompositeType {
    /// The name of the type in the database.
    pub name: String,
    /// The fields, under the names by which requests know them.
    pub fields: StringMap<ReadOnlyColumnInfo>,
}

impl Clone for CompositeType {
    fn clone(&self) -> (r: Self)
        ensures
            r.name == self.name,
            r.fields.entries() == self.fields.entries(),
    {
        let r = CompositeType { name: self.name.clone(), fields: self.fields.clone() };
        assert(r.fields.entries() =~= self.fields.entries());
        r
    }
}

/// An operator that compares two values.
#[derive(Debug, PartialEq, Eq)]
pub struct ComparisonOperator {
    /// The name of the operator in the database.
    pub operator_name: String,
    /// The type of the operator's second argument.
    pub argument_type: ScalarType,
}

/// The tables, by collection name.
#[derive(Debug, PartialEq, Eq)]
pub struct TablesInfo(pub StringMap<TableInfo>);

/// The native queries, by collection name.
#[derive(Debug, PartialEq, Eq)]
pub struct NativeQueries(pub StringMap<NativeQueryInfo>);

/// The composite types, by type name.
#[derive(Debug, PartialEq, Eq)]
pub struct CompositeTypes(pub StringMap<CompositeType>);

/// The comparison operators, by the name of the type of their first argument and by their own.
#[derive(Debug, PartialEq, Eq)]
pub struct ComparisonOperators(pub StringMap<StringMap<ComparisonOperator>>);

/// The representations of the scalar types, by type name.
#[derive(Debug, PartialEq, Eq)]
pub struct TypeRepresentations(pub StringMap<TypeRepresentation>);

/// Everything the connector knows of the database.
#[derive(Debug, PartialEq, Eq)]
pub struct Metadata {
    pub tables: TablesInfo,
    pub native_queries: NativeQueries,
    pub composite_types: CompositeTypes,
    pub comparison_operators: ComparisonOperators,
    pub type_representations: TypeRepresentations,
}

/// The version of the mutations that the connector generates.
#[derive(Debug, Clone, Copy, PartialEq, Eq)]
pub enum MutationsVersion {
    V1,
    VeryExperimentalWip,
}

/// Native queries that hold the same have the same text, the same columns and the same arguments.
pub proof fn lemma_native_queries_are_told_apart(a: NativeQueryInfo, b: NativeQueryInfo)
    requires
        a@ == b@,
    ensures
        a.sql@ == b.sql@,
        a.columns.entries() == b.columns.entries(),
        a.arguments.entries() == b.arguments.entries(),
{
}

} // verus!
