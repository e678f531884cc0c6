//! What the fields of a query mean: the select statement that they stand for.
//!
//! A translation makes table aliases and collects the relationships that the fields follow. It
//! goes one level deeper for each column of a composite type, and for each selection from one. The
//! functions below follow it down to a given depth. They have no result where the translation goes
//! deeper than that, as it does without end where a composite type contains itself.

use crate::metadata::{Metadata, Type, TypeRepresentation};
use crate::models::{FieldView, NestedFieldView};
use crate::sql::ast::{
    ColumnReferenceView, ExpressionView, FromView, FunctionView, JoinView, ScalarTypeNameView,
    SelectListView, SelectView, TableAliasView, TableReferenceView,
};
use crate::sql::helpers::bare_select;
use crate::translation::error::ErrorView;
use crate::translation::helpers::{
    fields_of, spec_type_representation, ColumnInfo, FieldsView, TableView,
};
use crate::translation::query::relationships::JoinFieldView;
use vstd::prelude::*;

verus! {

/// How far a translation has come: the index that the next table alias gets, and the relationship
/// fields collected so far.
pub struct Trace {
    pub index: nat,
    pub relationships: Seq<JoinFieldView>,
}

impl Trace {
    /// The table alias made next, where it is made for `name`.
    pub open spec fn alias(self, name: Seq<char>) -> TableAliasView {
        TableAliasView { unique_index: self.index, name }
    }

    /// One table alias later.
    pub open spec fn advanced(self) -> Trace {
        Trace { index: self.index + 1, ..self }
    }

    /// One relationship field later.
    pub open spec fn collected(self, field: JoinFieldView) -> Trace {
        Trace { relationships: self.relationships.push(field), ..self }
    }
}

/// The columns that fields stand for, and the joins that compute the nested ones.
pub struct Columns {
    pub columns: Seq<(Seq<char>, ExpressionView)>,
    pub joins: Seq<JoinView>,
}

/// The scalar type that values of a representation are cast to, where they are.
pub open spec fn cast_type(representation: TypeRepresentation) -> Option<ScalarTypeNameView> {
    match representation {
        TypeRepresentation::Int64AsString | TypeRepresentation::BigDecimalAsString => Some(
            ScalarTypeNameView { schema_name: None, name: "text"@, is_array: false },
        ),
        _ => None,
    }
}

/// An expression, cast as its representation asks for. Where it is an array, the representation is
/// that of its elements.
pub open spec fn represented(
    expression: ExpressionView,
    representation: Option<TypeRepresentation>,
    is_array: bool,
) -> ExpressionView {
    match representation {
        None => expression,
        Some(representation) => match cast_type(representation) {
            None => expression,
            Some(scalar_type) => ExpressionView::Cast {
                expression: Box::new(expression),
                scalar_type: ScalarTypeNameView { is_array, ..scalar_type },
            },
        },
    }
}

/// All fields of a composite type, each as a whole.
pub open spec fn all_fields(info: FieldsView) -> Seq<(Seq<char>, FieldView)> {
    Seq::new(
        info.names.len(),
        |i: int| (info.names[i], FieldView::Column { column: info.names[i], fields: None }),
    )
}

/// A table reference to an alias.
pub open spec fn aliased(alias: TableAliasView) -> TableReferenceView {
    TableReferenceView::AliasedTable(alias)
}

/// How a selection from a column is computed.
pub struct Binding {
    /// The expression that collects the selected fields into one value.
    pub collect: ExpressionView,
    /// The expression whose fields are selected from.
    pub value: ExpressionView,
    /// The name of the composite type of those fields.
    pub type_of_value: Seq<char>,
    /// The selected fields.
    pub fields: Seq<(Seq<char>, FieldView)>,
}

/// How a selection from a column of a table is computed, where `alias` is the alias of the selected
/// fields. From an object it is the object of the selected fields, and from an array of objects the
/// array of those objects.
pub open spec fn binding_of(
    table: TableView,
    column: ColumnInfo,
    alias: TableAliasView,
    selection: NestedFieldView,
) -> Result<Binding, ErrorView> {
    let row = ExpressionView::RowToJson(aliased(alias));
    let value = ExpressionView::ColumnReference(
        ColumnReferenceView::AliasedColumn { table: table.reference, column: column.name.0@ },
    );
    match selection {
        NestedFieldView::Object(fields) => match column.data_type {
            Type::CompositeType(name) => Ok(
                Binding { collect: row, value, type_of_value: name.0@, fields },
            ),
            actual_type => Err(
                ErrorView::NestedFieldNotOfCompositeType {
                    field_name: column.name.0@,
                    actual_type,
                },
            ),
        },
        NestedFieldView::Array(elements) => match *elements {
            NestedFieldView::Array(_) => Err(
                ErrorView::NestedArraysNotSupported { field_name: column.name.0@ },
            ),
            NestedFieldView::Object(fields) => match column.data_type {
                Type::ArrayType(element_type) => match *element_type {
                    Type::CompositeType(name) => Ok(
                        Binding {
                            collect: ExpressionView::FunctionCall {
                                function: FunctionView::JsonAgg,
                                args: seq![row],
                            },
                            value: ExpressionView::FunctionCall {
                                function: FunctionView::Unnest,
                                args: seq![value],
                            },
                            type_of_value: name.0@,
                            fields,
                        },
                    ),
                    actual_type => Err(
                        ErrorView::NestedFieldNotOfCompositeType {
                            field_name: column.name.0@,
                            actual_type,
                        },
                    ),
                },
                actual_type => Err(
                    ErrorView::NestedFieldNotOfArrayType {
                        field_name: column.name.0@,
                        actual_type,
                    },
                ),
            },
        },
    }
}

/// The join that computes a selection:
///
///   LEFT OUTER JOIN LATERAL (
///     SELECT
///       <collect> AS "collected"
///     FROM
///       (
///         <fields>
///         FROM
///           (
///             SELECT
///               (<value>).*
///           ) AS <binding_alias>
///       ) AS <fields_alias>
///   ) AS <collect_alias> ON ('true')
pub open spec fn nested_join(
    binding: Binding,
    fields: SelectView,
    binding_alias: TableAliasView,
    fields_alias: TableAliasView,
    collect_alias: TableAliasView,
) -> JoinView {
    JoinView::LeftOuterJoinLateral {
        select: Box::new(
            SelectView {
                from: Some(
                    FromView::Select {
                        select: Box::new(
                            SelectView {
                                from: Some(
                                    FromView::Select {
                                        select: Box::new(
                                            bare_select(
                                                SelectListView::SelectStarComposite(binding.value),
                                            ),
                                        ),
                                        alias: binding_alias,
                                    },
                                ),
                                ..fields
                            },
                        ),
                        alias: fields_alias,
                    },
                ),
                ..bare_select(SelectListView::SelectList(seq![("collected"@, binding.collect)]))
            },
        ),
        alias: collect_alias,
    }
}

/// The column that holds the value that a nested join computes.
pub open spec fn collected_column(collect_alias: TableAliasView) -> ColumnReferenceView {
    ColumnReferenceView::AliasedColumn { table: aliased(collect_alias), column: "collected"@ }
}

/// The select statement that a list of fields of a table stands for.
pub open spec fn fields_meaning(
    metadata: Metadata,
    depth: nat,
    trace: Trace,
    fields: Seq<(Seq<char>, FieldView)>,
    table: TableView,
) -> Option<(Trace, Result<SelectView, ErrorView>)>
    decreases depth, 5nat, 0nat,
{
    match fields_of(metadata, table.name) {
        None => Some((trace, Err(ErrorView::CollectionNotFound(table.name)))),
        Some(info) => match list_meaning(
            metadata,
            depth,
            trace,
            fields,
            fields.len(),
            table,
            info,
        ) {
            None => None,
            Some((after, Err(error))) => Some((after, Err(error))),
            Some((after, Ok(columns))) => Some(
                (
                    after,
                    Ok(
                        SelectView {
                            joins: columns.joins,
                            ..bare_select(SelectListView::SelectList(columns.columns))
                        },
                    ),
                ),
            ),
        },
    }
}

/// What the first `n` fields of a list stand for. The first error ends the translation.
pub open spec fn list_meaning(
    metadata: Metadata,
    depth: nat,
    trace: Trace,
    fields: Seq<(Seq<char>, FieldView)>,
    n: nat,
    table: TableView,
    info: FieldsView,
) -> Option<(Trace, Result<Columns, ErrorView>)>
    decreases depth, 4nat, n,
{
    if n == 0 {
        Some((trace, Ok(Columns { columns: Seq::empty(), joins: Seq::empty() })))
    } else {
        match list_meaning(metadata, depth, trace, fields, (n - 1) as nat, table, info) {
            None => None,
            Some((after, Err(error))) => Some((after, Err(error))),
            Some((after, Ok(columns))) => match field_meaning(
                metadata,
                depth,
                after,
                fields[n - 1].0,
                fields[n - 1].1,
                table,
                info,
            ) {
                None => None,
                Some((last, Err(error))) => Some((last, Err(error))),
                Some((last, Ok(more))) => Some(
                    (
                        last,
                        Ok(
                            Columns {
                                columns: columns.columns + more.columns,
                                joins: columns.joins + more.joins,
                            },
                        ),
                    ),
                ),
            },
        }
    }
}

/// What one field stands for: one column, and the join that computes it where it is nested.
pub open spec fn field_meaning(
    metadata: Metadata,
    depth: nat,
    trace: Trace,
    alias: Seq<char>,
    field: FieldView,
    table: TableView,
    info: FieldsView,
) -> Option<(Trace, Result<Columns, ErrorView>)>
    decreases depth, 3nat, 0nat,
{
    match field {
        FieldView::Column { column, fields: None } => column_meaning(
            metadata,
            depth,
            trace,
            alias,
            column,
            table,
            info,
        ),
        FieldView::Column { column, fields: Some(selection) } => match info.column(column) {
            Err(error) => Some((trace, Err(error))),
            Ok(column) => nested_meaning(metadata, depth, trace, alias, table, column, selection),
        },
        FieldView::Relationship { query, relationship, arguments } => {
            let table_alias = trace.alias("RELATIONSHIP_"@ + alias);
            Some(
                (
                    trace.advanced().collected(
                        JoinFieldView {
                            table_alias,
                            column_alias: alias,
                            relationship_name: relationship,
                            arguments,
                            query,
                        },
                    ),
                    Ok(
                        Columns {
                            columns: seq![
                                (
                                    alias,
                                    ExpressionView::ColumnReference(
                                        ColumnReferenceView::AliasedColumn {
                                            table: aliased(table_alias),
                                            column: alias,
                                        },
                                    ),
                                ),
                            ],
                            joins: Seq::empty(),
                        },
                    ),
                ),
            )
        },
    }
}

/// What a column as a whole stands for: where it is of a composite type, or of arrays of one, the
/// selection of all fields of that type.
pub open spec fn column_meaning(
    metadata: Metadata,
    depth: nat,
    trace: Trace,
    alias: Seq<char>,
    column: Seq<char>,
    table: TableView,
    info: FieldsView,
) -> Option<(Trace, Result<Columns, ErrorView>)>
    decreases depth, 2nat, 0nat,
{
    match info.column(column) {
        Err(error) => Some((trace, Err(error))),
        Ok(column_info) => match column_info.data_type {
            Type::ScalarType(scalar_type) => Some(
                (
                    trace,
                    Ok(
                        scalar_column(
                            alias,
                            table,
                            column_info,
                            spec_type_representation(metadata, scalar_type),
                            false,
                        ),
                    ),
                ),
            ),
            Type::CompositeType(name) => match fields_of(metadata, name.0@) {
                None => Some((trace, Err(ErrorView::CollectionNotFound(name.0@)))),
                Some(inner) => nested_meaning(
                    metadata,
                    depth,
                    trace,
                    alias,
                    table,
                    column_info,
                    NestedFieldView::Object(all_fields(inner)),
                ),
            },
            Type::ArrayType(element_type) => match *element_type {
                Type::ArrayType(_) => Some(
                    (trace, Err(ErrorView::NestedArraysNotSupported { field_name: column })),
                ),
                Type::CompositeType(name) => match fields_of(metadata, name.0@) {
                    None => Some((trace, Err(ErrorView::CollectionNotFound(name.0@)))),
                    Some(inner) => nested_meaning(
                        metadata,
                        depth,
                        trace,
                        alias,
                        table,
                        column_info,
                        NestedFieldView::Array(
                            Box::new(NestedFieldView::Object(all_fields(inner))),
                        ),
                    ),
                },
                Type::ScalarType(scalar_type) => Some(
                    (
                        trace,
                        Ok(
                            scalar_column(
                                alias,
                                table,
                                column_info,
                                spec_type_representation(metadata, scalar_type),
                                true,
                            ),
                        ),
                    ),
                ),
            },
        },
    }
}

/// What a column of scalars, or of arrays of scalars, stands for.
pub open spec fn scalar_column(
    alias: Seq<char>,
    table: TableView,
    column: ColumnInfo,
    representation: Option<TypeRepresentation>,
    is_array: bool,
) -> Columns {
    Columns {
        columns: seq![
            (
                alias,
                represented(
                    ExpressionView::ColumnReference(
                        ColumnReferenceView::TableColumn {
                            table: table.reference,
                            name: column.name.0@,
                        },
                    ),
                    representation,
                    is_array,
                ),
            ),
        ],
        joins: Seq::empty(),
    }
}

/// What a selection from a column stands for.
pub open spec fn nested_meaning(
    metadata: Metadata,
    depth: nat,
    trace: Trace,
    alias: Seq<char>,
    table: TableView,
    column: ColumnInfo,
    selection: NestedFieldView,
) -> Option<(Trace, Result<Columns, ErrorView>)>
    decreases depth, 1nat, 0nat,
{
    match selection_meaning(metadata, depth, trace, table, column, selection) {
        None => None,
        Some((after, Err(error))) => Some((after, Err(error))),
        Some((after, Ok((join, reference)))) => Some(
            (
                after,
                Ok(
                    Columns {
                        columns: seq![(alias, ExpressionView::ColumnReference(reference))],
                        joins: seq![join],
                    },
                ),
            ),
        ),
    }
}

/// The join that computes a selection from a column, and the column that holds its value.
pub open spec fn selection_meaning(
    metadata: Metadata,
    depth: nat,
    trace: Trace,
    table: TableView,
    column: ColumnInfo,
    selection: NestedFieldView,
) -> Option<(Trace, Result<(JoinView, ColumnReferenceView), ErrorView>)>
    decreases depth, 0nat, 0nat,
{
    let fields_alias = trace.alias("nested_fields"@);
    match binding_of(table, column, fields_alias, selection) {
        Err(error) => Some((trace.advanced(), Err(error))),
        Ok(binding) => if depth == 0 {
            None
        } else {
            let binding_alias = trace.advanced().alias("nested_field_binding"@);
            match fields_meaning(
                metadata,
                (depth - 1) as nat,
                trace.advanced().advanced(),
                binding.fields,
                TableView { name: binding.type_of_value, reference: aliased(binding_alias) },
            ) {
                None => None,
                Some((after, Err(error))) => Some((after, Err(error))),
                Some((after, Ok(fields))) => {
                    let collect_alias = after.alias("nested_fields_collect"@);
                    Some(
                        (
                            after.advanced(),
                            Ok(
                                (
                                    nested_join(
                                        binding,
                                        fields,
                                        binding_alias,
                                        fields_alias,
                                        collect_alias,
                                    ),
                                    collected_column(collect_alias),
                                ),
                            ),
                        ),
                    )
                },
            }
        },
    }
}

////// A translation only moves forward

/// From `before` to `after` a translation made table aliases and collected relationship fields.
pub open spec fn grows(before: Trace, after: Trace) -> bool {
    &&& before.index <= after.index
    &&& before.relationships.is_prefix_of(after.relationships)
}

/// A translation never gives back an index, nor drops a relationship field.
pub proof fn lemma_fields_grow(
    metadata: Metadata,
    depth: nat,
    trace: Trace,
    fields: Seq<(Seq<char>, FieldView)>,
    table: TableView,
)
    ensures
        fields_meaning(metadata, depth, trace, fields, table) matches Some((after, _)) ==> grows(
            trace,
            after,
        ),
    decreases depth, 5nat, 0nat,
{
    match fields_of(metadata, table.name) {
        None => {},
        Some(info) => {
            lemma_list_grows(metadata, depth, trace, fields, 0, fields.len(), table, info);
        },
    }
}

/// The translation of a list of fields moves forward from any of its fields to any later one, and
/// stays where it met an error.
pub proof fn lemma_list_grows(
    metadata: Metadata,
    depth: nat,
    trace: Trace,
    fields: Seq<(Seq<char>, FieldView)>,
    m: nat,
    n: nat,
    table: TableView,
    info: FieldsView,
)
    requires
        m <= n,
    ensures
        list_meaning(metadata, depth, trace, fields, n, table, info) matches Some((after, result))
            ==> (list_meaning(metadata, depth, trace, fields, m, table, info) matches Some(
            (between, so_far),
        ) && grows(trace, between) && grows(between, after) && (so_far is Err ==> between == after
            && result == so_far)),
    decreases depth, 4nat, n,
{
    if m < n {
        lemma_list_grows(metadata, depth, trace, fields, m, (n - 1) as nat, table, info);
        match list_meaning(metadata, depth, trace, fields, (n - 1) as nat, table, info) {
            Some((after, Ok(_))) => {
                lemma_field_grows(
                    metadata,
                    depth,
                    after,
                    fields[n - 1].0,
                    fields[n - 1].1,
                    table,
                    info,
                );
            },
            _ => {},
        }
    } else if 0 < n {
        lemma_list_grows(metadata, depth, trace, fields, (m - 1) as nat, (n - 1) as nat, table, info);
        match list_meaning(metadata, depth, trace, fields, (n - 1) as nat, table, info) {
            Some((after, Ok(_))) => {
                lemma_field_grows(
                    metadata,
                    depth,
                    after,
                    fields[n - 1].0,
                    fields[n - 1].1,
                    table,
                    info,
                );
            },
            _ => {},
        }
    }
}

/// The translation of a list of fields stays where it met an error.
pub proof fn lemma_first_error_ends_the_list(
    metadata: Metadata,
    depth: nat,
    trace: Trace,
    fields: Seq<(Seq<char>, FieldView)>,
    m: nat,
    n: nat,
    table: TableView,
    info: FieldsView,
)
    requires
        m <= n,
        list_meaning(metadata, depth, trace, fields, m, table, info) matches Some((_, Err(_))),
    ensures
        list_meaning(metadata, depth, trace, fields, n, table, info) == list_meaning(
            metadata,
            depth,
            trace,
            fields,
            m,
            table,
            info,
        ),
    decreases n,
{
    if m < n {
        lemma_first_error_ends_the_list(
            metadata,
            depth,
            trace,
            fields,
            m,
            (n - 1) as nat,
            table,
            info,
        );
    }
}

proof fn lemma_field_grows(
    metadata: Metadata,
    depth: nat,
    trace: Trace,
    alias: Seq<char>,
    field: FieldView,
    table: TableView,
    info: FieldsView,
)
    ensures
        field_meaning(metadata, depth, trace, alias, field, table, info) matches Some((after, _))
            ==> grows(trace, after),
    decreases depth, 3nat, 0nat,
{
    match field {
        FieldView::Column { column, fields: None } => {
            lemma_column_grows(metadata, depth, trace, alias, column, table, info);
        },
        FieldView::Column { column, fields: Some(selection) } => match info.column(column) {
            Err(_) => {},
            Ok(column) => {
                lemma_selection_grows(metadata, depth, trace, table, column, selection);
            },
        },
        FieldView::Relationship { .. } => {},
    }
}

proof fn lemma_column_grows(
    metadata: Metadata,
    depth: nat,
    trace: Trace,
    alias: Seq<char>,
    column: Seq<char>,
    table: TableView,
    info: FieldsView,
)
    ensures
        column_meaning(metadata, depth, trace, alias, column, table, info) matches Some((after, _))
            ==> grows(trace, after),
    decreases depth, 2nat, 0nat,
{
    if let Ok(column_info) = info.column(column) {
        match column_info.data_type {
            Type::ScalarType(_) => {},
            Type::CompositeType(name) => if let Some(inner) = fields_of(metadata, name.0@) {
                lemma_selection_grows(
                    metadata,
                    depth,
                    trace,
                    table,
                    column_info,
                    NestedFieldView::Object(all_fields(inner)),
                );
            },
            Type::ArrayType(element_type) => if let Type::CompositeType(name) = *element_type {
                if let Some(inner) = fields_of(metadata, name.0@) {
                    lemma_selection_grows(
                        metadata,
                        depth,
                        trace,
                        table,
                        column_info,
                        NestedFieldView::Array(
                            Box::new(NestedFieldView::Object(all_fields(inner))),
                        ),
                    );
                }
            },
        }
    }
}

/// The translation of a selection never gives back an index, nor drops a relationship field.
pub proof fn lemma_selection_grows(
    metadata: Metadata,
    depth: nat,
    trace: Trace,
    table: TableView,
    column: ColumnInfo,
    selection: NestedFieldView,
)
    ensures
        selection_meaning(metadata, depth, trace, table, column, selection) matches Some((after, _))
            ==> grows(trace, after) && trace.index < after.index,
    decreases depth, 0nat, 0nat,
{
    match binding_of(table, column, trace.alias("nested_fields"@), selection) {
        Err(_) => {},
        Ok(binding) => if depth > 0 {
            lemma_fields_grow(
                metadata,
                (depth - 1) as nat,
                trace.advanced().advanced(),
                binding.fields,
                TableView {
                    name: binding.type_of_value,
                    reference: aliased(trace.advanced().alias("nested_field_binding"@)),
                },
            );
        },
    }
}

} // verus!
