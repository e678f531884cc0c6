//! Helpers for processing requests and building SQL.

use crate::json;
use crate::metadata;
use crate::metadata::{
    ComparisonOperator, CompositeType, Metadata, MutationsVersion, ReadOnlyColumnInfo, ScalarType,
    TableInfo, Type, TypeRepresentation,
};
use crate::models::{Argument, Relationship};
use crate::sql::ast::{
    ColumnName, From, TableAlias, TableAliasView, TableReference, TableReferenceView,
};
use crate::sql::helpers::from_variables;
use crate::string_map::{ascending, string_before, StringMap};
use crate::translation::error::{Error, ErrorView};
use vstd::prelude::*;
use vstd::string::StringExecFns;

verus! {

/// Static information from the query and metadata.
#[derive(Debug)]
pub struct Env<'request> {
    pub(crate) metadata: &'request Metadata,
    relationships: StringMap<Relationship>,
    pub(crate) mutations_version: Option<MutationsVersion>,
    variables_table: Option<TableReference>,
}

/// Stateful information changed throughout the translation process.
#[derive(Debug)]
pub struct State {
    native_queries: NativeQueries,
    global_table_index: TableAliasIndex,
}

/// The index of a table alias.
#[derive(Debug, Clone, Copy, PartialEq, Eq)]
pub struct TableAliasIndex(pub u64);

/// Store top-level native queries generated throughout the translation process.
///
/// Native queries are implemented as `WITH <native_query_name_<index>> AS (<native_query>) <query>`
#[derive(Debug)]
struct NativeQueries {
    /// native queries that receive different arguments should result in different CTEs,
    /// and be used via a AliasedTable in the query.
    native_queries: Vec<NativeQueryInfo>,
}

/// Information we store about a native query call.
#[derive(Debug)]
pub struct NativeQueryInfo {
    pub info: metadata::NativeQueryInfo,
    pub arguments: StringMap<Argument>,
    pub alias: TableAlias,
}

/// For the root table in the query, and for the current table we are processing,
/// We'd like to track what is their reference in the query (the name we can use to address them,
/// an alias we generate), and what is their name in the metadata (so we can get
/// their information such as which columns are available for that table).
#[derive(Debug, PartialEq, Eq)]
pub struct RootAndCurrentTables {
    /// The root (top-most) table in the query.
    pub root_table: TableNameAndReference,
    /// The current table we are processing.
    pub current_table: TableNameAndReference,
}

/// For a table in the query, We'd like to track what is its reference in the query
/// (the name we can use to address them, an alias we generate), and what is their name in the
/// metadata (so we can get their information such as which columns are available for that table).
#[derive(Debug, PartialEq, Eq)]
pub struct TableNameAndReference {
    /// Table name for column lookup
    pub name: String,
    /// Table alias to query from
    pub reference: TableReference,
}

/// What the name and the reference of a table hold.
pub struct TableView {
    pub name: Seq<char>,
    pub reference: TableReferenceView,
}

impl View for TableNameAndReference {
    type V = TableView;

    open spec fn view(&self) -> TableView {
        TableView { name: self.name@, reference: self.reference@ }
    }
}

impl Clone for TableNameAndReference {
    fn clone(&self) -> (r: Self)
        ensures
            r == *self,
    {
        TableNameAndReference { name: self.name.clone(), reference: self.reference.clone() }
    }
}

impl Clone for RootAndCurrentTables {
    fn clone(&self) -> (r: Self)
        ensures
            r == *self,
    {
        RootAndCurrentTables {
            root_table: self.root_table.clone(),
            current_table: self.current_table.clone(),
        }
    }
}

/// Information about columns
#[derive(Debug, PartialEq, Eq)]
pub struct ColumnInfo {
    pub name: ColumnName,
    pub data_type: Type,
}

/// Metadata information about a specific collection.
#[derive(Debug)]
#[allow(inconsistent_fields)]
pub enum CollectionInfo<'env> {
    Table { name: &'env str, info: &'env TableInfo },
    NativeQuery { name: &'env str, info: &'env metadata::NativeQueryInfo },
}

/// Metadata information about a specific collection.
#[derive(Debug)]
pub enum CompositeTypeInfo<'env> {
    CollectionInfo(CollectionInfo<'env>),
    CompositeTypeInfo { name: String, info: CompositeType },
}

////// What the lookups find

/// The columns of a collection, or the fields of a composite type.
#[verifier::ext_equal]
pub struct FieldsView {
    /// The name that errors call it by.
    pub name: Seq<char>,
    /// The columns, by the names by which requests know them.
    pub columns: Map<Seq<char>, ColumnInfo>,
    /// The names by which requests know the columns, in ascending order.
    pub names: Seq<Seq<char>>,
}

impl FieldsView {
    /// The column that requests know as `column`.
    pub open spec fn column(self, column: Seq<char>) -> Result<ColumnInfo, ErrorView> {
        if self.columns.contains_key(column) {
            Ok(self.columns[column])
        } else {
            Err(ErrorView::ColumnNotFoundInCollection(column, self.name))
        }
    }
}

/// The columns of a table.
pub open spec fn table_fields(name: Seq<char>, info: TableInfo) -> FieldsView {
    FieldsView {
        name,
        columns: info.columns@.map_values(
            |column: metadata::ColumnInfo|
                ColumnInfo { name: ColumnName(column.name), data_type: column.data_type },
        ),
        names: Seq::new(info.columns.entries().len(), |i: int| info.columns.entries()[i].0@),
    }
}

/// The columns or fields that `columns` describes.
pub open spec fn read_only_fields(
    name: Seq<char>,
    columns: StringMap<ReadOnlyColumnInfo>,
) -> FieldsView {
    FieldsView {
        name,
        columns: columns@.map_values(
            |column: ReadOnlyColumnInfo|
                ColumnInfo { name: ColumnName(column.name), data_type: column.data_type },
        ),
        names: Seq::new(columns.entries().len(), |i: int| columns.entries()[i].0@),
    }
}

/// The columns or fields of what `name` names in the metadata: a table, or else a native query, or
/// else a composite type.
pub open spec fn fields_of(metadata: Metadata, name: Seq<char>) -> Option<FieldsView> {
    if metadata.tables.0@.contains_key(name) {
        Some(table_fields(name, metadata.tables.0@[name]))
    } else if metadata.native_queries.0@.contains_key(name) {
        Some(read_only_fields(name, metadata.native_queries.0@[name].columns))
    } else if metadata.composite_types.0@.contains_key(name) {
        let composite_type = metadata.composite_types.0@[name];
        Some(read_only_fields(composite_type.name@, composite_type.fields))
    } else {
        None
    }
}

impl CollectionInfo<'_> {
    /// The columns that the collection is known to have.
    pub open spec fn described(&self) -> FieldsView {
        match *self {
            CollectionInfo::Table { name, info } => table_fields(name@, *info),
            CollectionInfo::NativeQuery { name, info } => read_only_fields(name@, info.columns),
        }
    }
}

impl CompositeTypeInfo<'_> {
    /// The columns or fields that it is known to have.
    pub open spec fn described(&self) -> FieldsView {
        match *self {
            CompositeTypeInfo::CollectionInfo(info) => info.described(),
            CompositeTypeInfo::CompositeTypeInfo { name, info } => read_only_fields(
                name@,
                info.fields,
            ),
        }
    }
}

/// What the lookup of a column returned.
pub open spec fn column_result(r: Result<ColumnInfo, Error>) -> Result<ColumnInfo, ErrorView> {
    match r {
        Ok(info) => Ok(info),
        Err(error) => Err(error@),
    }
}

impl<'request> Env<'request> {
    /// What the metadata holds.
    pub closed spec fn spec_metadata(&self) -> Metadata {
        *self.metadata
    }

    /// The relationships of the request, by name.
    pub closed spec fn spec_relationships(&self) -> Map<Seq<char>, Relationship> {
        self.relationships@
    }

    /// The version of the mutations.
    pub closed spec fn spec_mutations_version(&self) -> Option<MutationsVersion> {
        self.mutations_version
    }

    /// The table of the variables of the request.
    pub closed spec fn spec_variables_table(&self) -> Option<TableReference> {
        self.variables_table
    }

    /// Create a new Env by supplying the metadata and relationships.
    pub fn new(
        metadata: &'request Metadata,
        relationships: StringMap<Relationship>,
        mutations_version: Option<MutationsVersion>,
        variables_table: Option<TableReference>,
    ) -> (r: Self)
        ensures
            r.spec_metadata() == *metadata,
            r.spec_relationships() == relationships@,
            r.spec_mutations_version() == mutations_version,
            r.spec_variables_table() == variables_table,
    {
        Env { metadata, relationships, mutations_version, variables_table }
    }

    /// Lookup the columns of a collection, or else the fields of a composite type.
    pub fn lookup_composite_type(&self, name: &'request str) -> (r: Result<
        CompositeTypeInfo<'request>,
        Error,
    >)
        ensures
            match r {
                Ok(info) => fields_of(self.spec_metadata(), name@) == Some(info.described()),
                Err(error) => fields_of(self.spec_metadata(), name@) is None && error@
                    == ErrorView::CollectionNotFound(name@),
            },
            r matches Ok(info) ==> (info is CollectionInfo <==> self.is_collection(name@)),
            r matches Ok(CompositeTypeInfo::CollectionInfo(info)) ==> self.finds_collection(
                name@,
                info,
            ),
            r matches Ok(CompositeTypeInfo::CompositeTypeInfo { name: own_name, info })
                ==> self.finds_composite_type(name@, own_name, info),
    {
        match self.lookup_collection(name) {
            Ok(collection_info) => Ok(CompositeTypeInfo::CollectionInfo(collection_info)),
            Err(_) => match self.metadata.composite_types.0.get(name) {
                Some(composite_type) => {
                    let info: CompositeType = composite_type.clone();
                    Ok(
                        CompositeTypeInfo::CompositeTypeInfo {
                            name: composite_type.name.clone(),
                            info,
                        },
                    )
                },
                None => Err(Error::CollectionNotFound(name.to_string())),
            },
        }
    }

    /// `name` names a table or a native query.
    pub open spec fn is_collection(&self, name: Seq<char>) -> bool {
        ||| self.spec_metadata().tables.0@.contains_key(name)
        ||| self.spec_metadata().native_queries.0@.contains_key(name)
    }

    /// `info` is what the metadata holds of the collection `collection_name`: of the table of that
    /// name, or else of the native query.
    pub open spec fn finds_collection(
        &self,
        collection_name: Seq<char>,
        info: CollectionInfo<'_>,
    ) -> bool {
        match info {
            CollectionInfo::Table { name, info } => {
                &&& name@ == collection_name
                &&& self.spec_metadata().tables.0@.contains_key(name@)
                &&& *info == self.spec_metadata().tables.0@[name@]
            },
            CollectionInfo::NativeQuery { name, info } => {
                &&& name@ == collection_name
                &&& !self.spec_metadata().tables.0@.contains_key(name@)
                &&& self.spec_metadata().native_queries.0@.contains_key(name@)
                &&& *info == self.spec_metadata().native_queries.0@[name@]
            },
        }
    }

    /// `own_name` and `info` are what the metadata holds of the composite type `name`: the name that
    /// the type has itself, and the type.
    pub open spec fn finds_composite_type(
        &self,
        name: Seq<char>,
        own_name: String,
        info: CompositeType,
    ) -> bool {
        let found = self.spec_metadata().composite_types.0@[name];
        &&& self.spec_metadata().composite_types.0@.contains_key(name)
        &&& own_name == found.name
        &&& info.name == found.name
        &&& info.fields.entries() == found.fields.entries()
    }

    /// Lookup a collection's information in the metadata: a table's, or else a native query's.
    pub fn lookup_collection(&self, collection_name: &'request str) -> (r: Result<
        CollectionInfo<'request>,
        Error,
    >)
        ensures
            match r {
                Ok(info) => self.finds_collection(collection_name@, info),
                Err(error) => {
                    &&& !self.is_collection(collection_name@)
                    &&& error@ == ErrorView::CollectionNotFound(collection_name@)
                },
            },
    {
        match self.metadata.tables.0.get(collection_name) {
            Some(info) => Ok(CollectionInfo::Table { name: collection_name, info }),
            None => match self.metadata.native_queries.0.get(collection_name) {
                Some(info) => Ok(CollectionInfo::NativeQuery { name: collection_name, info }),
                None => Err(Error::CollectionNotFound(collection_name.to_string())),
            },
        }
    }

    /// Lookup a native query's information in the metadata.
    pub fn lookup_native_query(&self, procedure_name: &str) -> (r: Result<
        &metadata::NativeQueryInfo,
        Error,
    >)
        ensures
            match r {
                Ok(info) => {
                    &&& self.spec_metadata().native_queries.0@.contains_key(procedure_name@)
                    &&& *info == self.spec_metadata().native_queries.0@[procedure_name@]
                },
                Err(error) => {
                    &&& !self.spec_metadata().native_queries.0@.contains_key(procedure_name@)
                    &&& error@ == ErrorView::ProcedureNotFound(procedure_name@)
                },
            },
    {
        match self.metadata.native_queries.0.get(procedure_name) {
            Some(info) => Ok(info),
            None => Err(Error::ProcedureNotFound(procedure_name.to_string())),
        }
    }

    /// Lookup a relationship of the request.
    pub fn lookup_relationship(&self, name: &str) -> (r: Result<&Relationship, Error>)
        ensures
            match r {
                Ok(relationship) => {
                    &&& self.spec_relationships().contains_key(name@)
                    &&& *relationship == self.spec_relationships()[name@]
                },
                Err(error) => {
                    &&& !self.spec_relationships().contains_key(name@)
                    &&& error@ == ErrorView::RelationshipNotFound(name@)
                },
            },
    {
        match self.relationships.get(name) {
            Some(relationship) => Ok(relationship),
            None => Err(Error::RelationshipNotFound(name.to_string())),
        }
    }

    /// The operator that `name` names on values of a scalar type.
    pub open spec fn comparison_operator(
        &self,
        scalar_type: ScalarType,
        name: Seq<char>,
    ) -> Option<ComparisonOperator> {
        let operators = self.spec_metadata().comparison_operators.0@;
        if operators.contains_key(scalar_type.0@) && operators[scalar_type.0@]@.contains_key(name) {
            Some(operators[scalar_type.0@]@[name])
        } else {
            None
        }
    }

    /// Looks up the binary comparison operator's PostgreSQL name and arguments' type in the metadata.
    pub fn lookup_comparison_operator(&self, scalar_type: &ScalarType, name: &str) -> (r: Result<
        &'request ComparisonOperator,
        Error,
    >)
        ensures
            match r {
                Ok(operator) => self.comparison_operator(*scalar_type, name@) == Some(*operator),
                Err(error) => {
                    &&& self.comparison_operator(*scalar_type, name@) is None
                    &&& error@ == (ErrorView::OperatorNotFound {
                        operator_name: name@,
                        scalar_type: *scalar_type,
                    })
                },
            },
    {
        if let Some(operators) = self.metadata.comparison_operators.0.get(scalar_type.0.as_str()) {
            if let Some(operator) = operators.get(name) {
                return Ok(operator);
            }
        }
        Err(
            Error::OperatorNotFound {
                operator_name: name.to_string(),
                scalar_type: scalar_type.clone(),
            },
        )
    }

    /// The representation of the values of a scalar type.
    pub open spec fn type_representation(&self, scalar_type: ScalarType) -> Option<
        TypeRepresentation,
    > {
        spec_type_representation(self.spec_metadata(), scalar_type)
    }

    /// Lookup the representation of the values of a scalar type.
    pub fn lookup_type_representation(&self, scalar_type: &ScalarType) -> (r: Option<
        &'request TypeRepresentation,
    >)
        ensures
            match r {
                Some(representation) => self.type_representation(*scalar_type) == Some(
                    *representation,
                ),
                None => self.type_representation(*scalar_type) is None,
            },
    {
        self.metadata.type_representations.0.get(scalar_type.0.as_str())
    }

    /// Try to get the variables table reference. This will fail if no variables were passed
    /// as part of the query request.
    pub fn get_variables_table(&self) -> (r: Result<TableReference, Error>)
        ensures
            match r {
                Ok(table) => self.spec_variables_table() == Some(table),
                Err(error) => self.spec_variables_table() is None && error
                    == Error::UnexpectedVariable,
            },
    {
        match &self.variables_table {
            None => Err(Error::UnexpectedVariable),
            Some(table) => Ok(table.clone()),
        }
    }
}

/// The representation that the metadata gives to the values of a scalar type.
pub open spec fn spec_type_representation(metadata: Metadata, scalar_type: ScalarType) -> Option<
    TypeRepresentation,
> {
    if metadata.type_representations.0@.contains_key(scalar_type.0@) {
        Some(metadata.type_representations.0@[scalar_type.0@])
    } else {
        None
    }
}

impl CollectionInfo<'_> {
    /// Lookup a column in a collection.
    pub fn lookup_column(&self, column_name: &str) -> (r: Result<ColumnInfo, Error>)
        ensures
            column_result(r) == self.described().column(column_name@),
    {
        match self {
            CollectionInfo::Table { name, info } => match info.columns.get(column_name) {
                Some(column_info) => Ok(
                    ColumnInfo {
                        name: ColumnName(column_info.name.clone()),
                        data_type: column_info.data_type.clone(),
                    },
                ),
                None => Err(
                    Error::ColumnNotFoundInCollection(column_name.to_string(), (*name).to_string()),
                ),
            },
            CollectionInfo::NativeQuery { name, info } => match info.columns.get(column_name) {
                Some(column_info) => Ok(
                    ColumnInfo {
                        name: ColumnName(column_info.name.clone()),
                        data_type: column_info.data_type.clone(),
                    },
                ),
                None => Err(
                    Error::ColumnNotFoundInCollection(column_name.to_string(), (*name).to_string()),
                ),
            },
        }
    }
}

impl CompositeTypeInfo<'_> {
    /// Lookup a column in a collection.
    pub fn lookup_column(&self, column_name: &str) -> (r: Result<ColumnInfo, Error>)
        ensures
            column_result(r) == self.described().column(column_name@),
    {
        match self {
            CompositeTypeInfo::CollectionInfo(collection_info) => collection_info.lookup_column(
                column_name,
            ),
            CompositeTypeInfo::CompositeTypeInfo { name, info } => match info.fields.get(
                column_name,
            ) {
                Some(field_info) => Ok(
                    ColumnInfo {
                        name: ColumnName(field_info.name.clone()),
                        data_type: field_info.data_type.clone(),
                    },
                ),
                None => Err(
                    Error::ColumnNotFoundInCollection(column_name.to_string(), name.clone()),
                ),
            },
        }
    }

    /// The names by which requests know the columns or fields, in ascending order: each as the
    /// name that it gets in a response, and as the name to look it up by.
    pub fn fields(&self) -> (r: Vec<(String, String)>)
        ensures
            r@.len() == self.described().names.len(),
            forall|i: int|
                0 <= i < r@.len() ==> (#[trigger] r@[i]).0@ == self.described().names[i] && r@[i].1
                    == r@[i].0,
            forall|i: int, j: int|
                0 <= i < j < self.described().names.len() ==> string_before(
                    #[trigger] self.described().names[i],
                    #[trigger] self.described().names[j],
                ),
    {
        match self {
            CompositeTypeInfo::CollectionInfo(CollectionInfo::Table { name: _, info }) => names_of(
                &info.columns,
            ),
            CompositeTypeInfo::CollectionInfo(CollectionInfo::NativeQuery { name: _, info }) => {
                names_of(&info.columns)
            },
            CompositeTypeInfo::CompositeTypeInfo { name: _, info } => names_of(&info.fields),
        }
    }
}

/// The keys of a map, each twice, in ascending order.
fn names_of<V>(map: &StringMap<V>) -> (r: Vec<(String, String)>)
    ensures
        r@.len() == map.entries().len(),
        forall|i: int|
            0 <= i < r@.len() ==> (#[trigger] r@[i]).0 == map.entries()[i].0 && r@[i].1
                == r@[i].0,
        ascending(map.entries()),
{
    let entries = map.as_entries();
    let mut names: Vec<(String, String)> = Vec::new();
    let mut i: usize = 0;
    while i < entries.len()
        invariant
            i <= entries@.len(),
            names@.len() == i,
            forall|j: int|
                0 <= j < i ==> (#[trigger] names@[j]).0 == entries@[j].0 && names@[j].1
                    == names@[j].0,
        decreases entries@.len() - i,
    {
        names.push((entries[i].0.clone(), entries[i].0.clone()));
        i = i + 1;
    }
    names
}

impl Default for State {
    fn default() -> (r: State)
        ensures
            r.table_index() == 0,
            r.native_queries() == Seq::<NativeQueryInfo>::empty(),
            calls_are_distinct(r),
    {
        State { native_queries: NativeQueries::new(), global_table_index: TableAliasIndex(0) }
    }
}

/// `alias` is the alias that a state makes for `name`, which takes the state from `before` to
/// `after`.
pub open spec fn makes_alias(
    before: State,
    name: Seq<char>,
    after: State,
    alias: TableAlias,
) -> bool {
    &&& alias@ == (TableAliasView { unique_index: before.table_index(), name })
    &&& after.table_index() == before.table_index() + 1
    &&& after.native_queries() == before.native_queries()
}

/// Table aliases are unique: an alias that is made after another one, whatever further aliases
/// were made in between, differs from it, also where both were made for the same name.
pub proof fn lemma_aliases_are_unique(
    before_first: State,
    first_name: Seq<char>,
    after_first: State,
    first: TableAlias,
    before_second: State,
    second_name: Seq<char>,
    after_second: State,
    second: TableAlias,
)
    requires
        makes_alias(before_first, first_name, after_first, first),
        after_first.table_index() <= before_second.table_index(),
        makes_alias(before_second, second_name, after_second, second),
    ensures
        first.unique_index != second.unique_index,
        first@ != second@,
{
}

/// Native query calls have different aliases, whatever their names and arguments: the aliases were
/// made one after the other, and the next one differs from all of them.
pub open spec fn calls_are_distinct(state: State) -> bool {
    &&& forall|i: int, j: int|
        0 <= i < j < state.native_queries().len() ==> (#[trigger] state.native_queries()[i]).alias.unique_index
            < (#[trigger] state.native_queries()[j]).alias.unique_index
    &&& forall|i: int|
        0 <= i < state.native_queries().len() ==> (#[trigger] state.native_queries()[i]).alias.unique_index
            < state.table_index()
}

/// A name that names a collection is looked up alike as a collection and as a composite type, and
/// no composite type of the same name makes a difference.
pub proof fn lemma_collections_come_first(
    env: Env<'_>,
    name: Seq<char>,
    info: CollectionInfo<'_>,
)
    requires
        env.finds_collection(name, info),
    ensures
        fields_of(env.spec_metadata(), name) == Some(info.described()),
{
}

impl State {
    /// The index that the next table alias gets.
    pub closed spec fn table_index(&self) -> nat {
        self.global_table_index.0 as nat
    }

    /// The native query calls of the request so far.
    pub closed spec fn native_queries(&self) -> Seq<NativeQueryInfo> {
        self.native_queries.native_queries@
    }

    /// Build a new state.
    pub fn new() -> (r: State)
        ensures
            r.table_index() == 0,
            r.native_queries() == Seq::<NativeQueryInfo>::empty(),
            calls_are_distinct(r),
    {
        State::default()
    }

    /// When variables are passed to the query, create an alias for the variables table and
    /// a from clause.
    pub fn make_variables_table(
        &mut self,
        variables: &Option<Vec<StringMap<json::Value>>>,
    ) -> (r: Option<(From, TableReference)>)
        requires
            variables is Some ==> old(self).table_index() < u64::MAX,
        ensures
            match r {
                None => variables is None && *final(self) == *old(self),
                Some((from, reference)) => {
                    &&& variables is Some
                    &&& reference is AliasedTable
                    &&& makes_alias(*old(self), "%variables_table"@, *final(self), reference->0)
                    &&& from == (From::Variables { alias: reference->0 })
                },
            },
    {
        match variables {
            None => None,
            Some(_variables) => {
                let variables_table_alias = self.make_table_alias("%variables_table".to_string());
                let table_reference = TableReference::AliasedTable(variables_table_alias.clone());
                Some((from_variables(variables_table_alias), table_reference))
            },
        }
    }

    /// Introduce a new native query to the generated sql.
    pub fn insert_native_query(
        &mut self,
        name: &str,
        info: metadata::NativeQueryInfo,
        arguments: StringMap<Argument>,
    ) -> (r: TableReference)
        requires
            old(self).table_index() < u64::MAX,
        ensures
            r is AliasedTable,
            r@ == TableReferenceView::AliasedTable(
                TableAliasView {
                    unique_index: old(self).table_index(),
                    name: "NATIVE_QUERY_"@ + name@,
                },
            ),
            final(self).table_index() == old(self).table_index() + 1,
            final(self).native_queries() == old(self).native_queries().push(
                NativeQueryInfo { info, arguments, alias: r->0 },
            ),
            calls_are_distinct(*old(self)) ==> calls_are_distinct(*final(self)),
    {
        let alias = self.make_native_query_table_alias(name);
        self.native_queries.native_queries.push(
            NativeQueryInfo { info, arguments, alias: alias.clone() },
        );
        TableReference::AliasedTable(alias)
    }

    /// Fetch the tracked native queries used in the query plan and their table alias.
    pub fn get_native_queries(self) -> (r: Vec<NativeQueryInfo>)
        ensures
            r@ == self.native_queries(),
    {
        self.native_queries.native_queries
    }

    /// The index that the next table alias gets.
    pub fn current_table_index(&self) -> (r: TableAliasIndex)
        ensures
            r.0 == self.table_index(),
    {
        self.global_table_index
    }

    /// increment the table index and return the current one.
    fn next_global_table_index(&mut self) -> (r: TableAliasIndex)
        requires
            old(self).table_index() < u64::MAX,
        ensures
            r.0 == old(self).table_index(),
            final(self).table_index() == old(self).table_index() + 1,
            final(self).native_queries() == old(self).native_queries(),
    {
        let TableAliasIndex(index) = self.global_table_index;
        self.global_table_index = TableAliasIndex(index + 1);
        TableAliasIndex(index)
    }

    // aliases

    /// Create table aliases using this function so they get a unique index.
    pub fn make_table_alias(&mut self, name: String) -> (r: TableAlias)
        requires
            old(self).table_index() < u64::MAX,
        ensures
            makes_alias(*old(self), name@, *final(self), r),
            r.name == name,
            calls_are_distinct(*old(self)) ==> calls_are_distinct(*final(self)),
    {
        TableAlias { unique_index: self.next_global_table_index().0, name }
    }

    /// Create a table alias for left outer join lateral part.
    /// Provide an index and a source table name so we avoid name clashes,
    /// and get an alias.
    pub fn make_relationship_table_alias(&mut self, name: &str) -> (r: TableAlias)
        requires
            old(self).table_index() < u64::MAX,
        ensures
            makes_alias(*old(self), "RELATIONSHIP_"@ + name@, *final(self), r),
    {
        self.make_table_alias("RELATIONSHIP_".to_string().concat(name))
    }

    /// Create a table alias for order by target part.
    /// Provide an index and a source table name (to disambiguate the table being queried),
    /// and get an alias.
    pub fn make_order_path_part_table_alias(&mut self, table_name: &str) -> (r: TableAlias)
        requires
            old(self).table_index() < u64::MAX,
        ensures
            makes_alias(*old(self), "ORDER_PART_"@ + table_name@, *final(self), r),
    {
        self.make_table_alias("ORDER_PART_".to_string().concat(table_name))
    }

    /// Create a table alias for order by column.
    /// Provide an index and a source table name (to point at the table being ordered),
    /// and get an alias.
    pub fn make_order_by_table_alias(&mut self, source_table_name: &str) -> (r: TableAlias)
        requires
            old(self).table_index() < u64::MAX,
        ensures
            makes_alias(*old(self), "ORDER_FOR_"@ + source_table_name@, *final(self), r),
    {
        self.make_table_alias("ORDER_FOR_".to_string().concat(source_table_name))
    }

    /// Create a table alias for a native query call.
    pub fn make_native_query_table_alias(&mut self, name: &str) -> (r: TableAlias)
        requires
            old(self).table_index() < u64::MAX,
        ensures
            makes_alias(*old(self), "NATIVE_QUERY_"@ + name@, *final(self), r),
    {
        self.make_table_alias("NATIVE_QUERY_".to_string().concat(name))
    }

    /// Create a table alias for boolean expressions.
    /// Provide state for fresh names and a source table name (to point at the table
    /// being filtered), and get an alias.
    pub fn make_boolean_expression_table_alias(&mut self, source_table_name: &str) -> (r:
        TableAlias)
        requires
            old(self).table_index() < u64::MAX,
        ensures
            makes_alias(*old(self), "BOOLEXP_"@ + source_table_name@, *final(self), r),
    {
        self.make_table_alias("BOOLEXP_".to_string().concat(source_table_name))
    }
}

impl NativeQueries {
    fn new() -> (r: NativeQueries)
        ensures
            r.native_queries@ == Seq::<NativeQueryInfo>::empty(),
    {
        NativeQueries { native_queries: Vec::new() }
    }
}

////// What the lookups find is what the metadata holds

/// A collection is looked up by its name: the table of that name, or else the native query. What is
/// found is what the metadata holds of it.
pub proof fn lemma_collection_is_found_by_its_name(
    env: Env<'_>,
    name: Seq<char>,
    info: CollectionInfo<'_>,
)
    requires
        env.finds_collection(name, info),
    ensures
        env.spec_metadata().tables.0@.contains_key(name) ==> (info matches CollectionInfo::Table {
            name: found,
            info: table,
        } && found@ == name && *table == env.spec_metadata().tables.0@[name]),
        !env.spec_metadata().tables.0@.contains_key(name) ==> (
        env.spec_metadata().native_queries.0@.contains_key(name)
            && (info matches CollectionInfo::NativeQuery { name: found, info: query } && found@
            == name && *query == env.spec_metadata().native_queries.0@[name])),
        env.is_collection(name),
{
}

/// Only the names of tables and of native queries are names of collections.
pub proof fn lemma_collections_are_tables_and_native_queries(env: Env<'_>, name: Seq<char>)
    ensures
        env.is_collection(name) <==> env.spec_metadata().tables.0@.contains_key(name)
            || env.spec_metadata().native_queries.0@.contains_key(name),
{
}

/// A composite type is looked up by its name, and what is found is what the metadata holds of it.
pub proof fn lemma_composite_type_is_found_by_its_name(
    env: Env<'_>,
    name: Seq<char>,
    own_name: String,
    info: CompositeType,
)
    requires
        env.finds_composite_type(name, own_name, info),
    ensures
        env.spec_metadata().composite_types.0@.contains_key(name),
        own_name == env.spec_metadata().composite_types.0@[name].name,
        info.name == env.spec_metadata().composite_types.0@[name].name,
        info.fields.entries() == env.spec_metadata().composite_types.0@[name].fields.entries(),
{
}

/// A column of a table is found if and only if the table has it, by the name that requests have for
/// it, and with its own name and type. The error says which column of which table is missing.
pub proof fn lemma_table_columns_are_found(name: Seq<char>, info: TableInfo, column: Seq<char>)
    ensures
        match table_fields(name, info).column(column) {
            Ok(found) => {
                &&& info.columns@.contains_key(column)
                &&& found.name.0 == info.columns@[column].name
                &&& found.data_type == info.columns@[column].data_type
            },
            Err(error) => {
                &&& !info.columns@.contains_key(column)
                &&& error == ErrorView::ColumnNotFoundInCollection(column, name)
            },
        },
{
}

/// A column of a native query, or a field of a composite type, is found if and only if it is there,
/// by the name that requests have for it, and with its own name and type.
pub proof fn lemma_read_only_columns_are_found(
    name: Seq<char>,
    columns: StringMap<ReadOnlyColumnInfo>,
    column: Seq<char>,
)
    ensures
        match read_only_fields(name, columns).column(column) {
            Ok(found) => {
                &&& columns@.contains_key(column)
                &&& found.name.0 == columns@[column].name
                &&& found.data_type == columns@[column].data_type
            },
            Err(error) => {
                &&& !columns@.contains_key(column)
                &&& error == ErrorView::ColumnNotFoundInCollection(column, name)
            },
        },
{
}

/// Collections and composite types are known by all that the metadata says of their columns, and by
/// the name that errors call them by. Their columns are listed in the order of their names.
pub proof fn lemma_everything_is_described(info: CompositeTypeInfo<'_>, column: Seq<char>, i: int)
    ensures
        match info {
            CompositeTypeInfo::CollectionInfo(CollectionInfo::Table { name, info: table }) => {
                &&& info.described().column(column) == table_fields(name@, *table).column(column)
                &&& info.described().names.len() == table.columns.entries().len()
                &&& 0 <= i < table.columns.entries().len() ==> info.described().names[i]
                    == table.columns.entries()[i].0@
            },
            CompositeTypeInfo::CollectionInfo(CollectionInfo::NativeQuery { name, info: query }) => {
                &&& info.described().column(column) == read_only_fields(
                    name@,
                    query.columns,
                ).column(column)
                &&& info.described().names.len() == query.columns.entries().len()
                &&& 0 <= i < query.columns.entries().len() ==> info.described().names[i]
                    == query.columns.entries()[i].0@
            },
            CompositeTypeInfo::CompositeTypeInfo { name, info: composite_type } => {
                &&& info.described().column(column) == read_only_fields(
                    name@,
                    composite_type.fields,
                ).column(column)
                &&& info.described().names.len() == composite_type.fields.entries().len()
                &&& 0 <= i < composite_type.fields.entries().len() ==> info.described().names[i]
                    == composite_type.fields.entries()[i].0@
            },
        },
{
}

/// An operator is found if and only if the metadata lists it for the scalar type, and is then the one
/// that is listed. The same holds of the representation of a scalar type.
pub proof fn lemma_operators_and_representations_are_found(
    env: Env<'_>,
    scalar_type: ScalarType,
    name: Seq<char>,
)
    ensures
        ({
            let operators = env.spec_metadata().comparison_operators.0@;
            let representations = env.spec_metadata().type_representations.0@;
            &&& env.comparison_operator(scalar_type, name) is Some <==> operators.contains_key(
                scalar_type.0@,
            ) && operators[scalar_type.0@]@.contains_key(name)
            &&& env.comparison_operator(scalar_type, name) matches Some(operator) ==> operator
                == operators[scalar_type.0@]@[name]
            &&& env.type_representation(scalar_type) is Some <==> representations.contains_key(
                scalar_type.0@,
            )
            &&& env.type_representation(scalar_type) matches Some(representation)
                ==> representation == representations[scalar_type.0@]
        }),
{
}

/// What the lookup of a column returned is the column itself, or what its error says.
pub proof fn lemma_lookups_return_what_they_found(r: Result<ColumnInfo, Error>)
    ensures
        match r {
            Ok(info) => column_result(r) == Ok::<ColumnInfo, ErrorView>(info),
            Err(error) => column_result(r) == Err::<ColumnInfo, ErrorView>(error@),
        },
{
}

/// Tables that hold the same have the same name and the same reference.
pub proof fn lemma_tables_are_told_apart(a: TableNameAndReference, b: TableNameAndReference)
    requires
        a@ == b@,
    ensures
        a.name@ == b.name@,
        a.reference@ == b.reference@,
{
}

/// Making an alias takes the next index, for exactly the given name, and leaves the native query
/// calls as they are.
pub proof fn lemma_alias_takes_the_next_index(
    before: State,
    name: Seq<char>,
    after: State,
    alias: TableAlias,
)
    requires
        makes_alias(before, name, after, alias),
    ensures
        alias.name@ == name,
        alias.unique_index == before.table_index(),
        after.table_index() == before.table_index() + 1,
        after.native_queries() == before.native_queries(),
{
}

} // verus!
