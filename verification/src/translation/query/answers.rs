//! What each requested field comes to, said of the request, the metadata and the select statement
//! alone.

use crate::metadata::{CompositeTypeName, Metadata, ScalarType, Type, TypeRepresentation};
use crate::models::{FieldView, NestedFieldView, QueryView, RelationshipArgumentView};
use crate::sql::ast::{
    ColumnReferenceView, ExpressionView, FromView, FunctionView, JoinView, Limit,
    ScalarTypeNameView, SelectListView, SelectView, TableAliasView, TableReferenceView, ValueView,
};
use crate::string_map::has_key;
use crate::translation::error::ErrorView;
use crate::translation::helpers::{fields_of, ColumnInfo, FieldsView, TableView};
use crate::translation::query::depth::{fields_translation, lemma_fields_translation};
use crate::translation::query::relationships::JoinFieldView;
use crate::translation::query::selection::{
    all_fields, binding_of, cast_type, column_meaning, field_meaning, fields_meaning, list_meaning,
    nested_meaning, represented, selection_meaning, Columns, Trace,
};
use vstd::prelude::*;

verus! {

////// The metadata

/// A name is that of a table, a native query or a composite type.
pub open spec fn is_known(metadata: Metadata, name: Seq<char>) -> bool {
    ||| metadata.tables.0@.contains_key(name)
    ||| metadata.native_queries.0@.contains_key(name)
    ||| metadata.composite_types.0@.contains_key(name)
}

/// The names of the columns or fields of what a name stands for: of the table, or else of the native
/// query, or else of the composite type.
pub open spec fn known_columns(metadata: Metadata, name: Seq<char>) -> Set<Seq<char>> {
    if metadata.tables.0@.contains_key(name) {
        metadata.tables.0@[name].columns@.dom()
    } else if metadata.native_queries.0@.contains_key(name) {
        metadata.native_queries.0@[name].columns@.dom()
    } else {
        metadata.composite_types.0@[name].fields@.dom()
    }
}

/// How many columns or fields what a name stands for has.
pub open spec fn number_of_columns(metadata: Metadata, name: Seq<char>) -> nat {
    if metadata.tables.0@.contains_key(name) {
        metadata.tables.0@[name].columns.entries().len()
    } else if metadata.native_queries.0@.contains_key(name) {
        metadata.native_queries.0@[name].columns.entries().len()
    } else {
        metadata.composite_types.0@[name].fields.entries().len()
    }
}

/// The name in the database of a column or field.
pub open spec fn database_name(
    metadata: Metadata,
    name: Seq<char>,
    column: Seq<char>,
) -> Seq<char> {
    if metadata.tables.0@.contains_key(name) {
        metadata.tables.0@[name].columns@[column].name@
    } else if metadata.native_queries.0@.contains_key(name) {
        metadata.native_queries.0@[name].columns@[column].name@
    } else {
        metadata.composite_types.0@[name].fields@[column].name@
    }
}

/// The type of a column or field.
pub open spec fn type_of_column(metadata: Metadata, name: Seq<char>, column: Seq<char>) -> Type {
    if metadata.tables.0@.contains_key(name) {
        metadata.tables.0@[name].columns@[column].data_type
    } else if metadata.native_queries.0@.contains_key(name) {
        metadata.native_queries.0@[name].columns@[column].data_type
    } else {
        metadata.composite_types.0@[name].fields@[column].data_type
    }
}

/// What errors call it by: a collection by the name that the request has for it, and a composite
/// type by its own name.
pub open spec fn called(metadata: Metadata, name: Seq<char>) -> Seq<char> {
    if metadata.tables.0@.contains_key(name) || metadata.native_queries.0@.contains_key(name) {
        name
    } else {
        metadata.composite_types.0@[name].name@
    }
}

/// A lookup finds what the metadata holds: nothing is found under an unknown name, and under a known
/// one exactly the columns or fields that the metadata lists, each under its own name, with its own
/// name in the database and its own type.
pub proof fn lemma_lookup_finds_what_the_metadata_holds(metadata: Metadata, name: Seq<char>)
    ensures
        fields_of(metadata, name) is Some <==> is_known(metadata, name),
        fields_of(metadata, name) matches Some(info) ==> {
            &&& info.name == called(metadata, name)
            &&& info.columns.dom() == known_columns(metadata, name)
            &&& forall|column: Seq<char>| #[trigger]
                info.columns.contains_key(column) ==> info.columns[column].name.0@ == database_name(
                    metadata,
                    name,
                    column,
                ) && info.columns[column].data_type == type_of_column(metadata, name, column)
            &&& info.names.len() == number_of_columns(metadata, name)
            &&& forall|column: Seq<char>| #[trigger]
                known_columns(metadata, name).contains(column) <==> info.names.contains(column)
            &&& forall|column: Seq<char>| #[trigger]
                info.column(column) == (if known_columns(metadata, name).contains(column) {
                    Ok(info.columns[column])
                } else {
                    Err(ErrorView::ColumnNotFoundInCollection(column, called(metadata, name)))
                })
        },
{
    if let Some(info) = fields_of(metadata, name) {
        assert(info.columns.dom() =~= known_columns(metadata, name));
        assert forall|column: Seq<char>| #[trigger]
            known_columns(metadata, name).contains(column) <==> info.names.contains(column) by {
            if metadata.tables.0@.contains_key(name) {
                lemma_names_are_keys(
                    metadata.tables.0@[name].columns.entries(),
                    info.names,
                    column,
                );
            } else if metadata.native_queries.0@.contains_key(name) {
                lemma_names_are_keys(
                    metadata.native_queries.0@[name].columns.entries(),
                    info.names,
                    column,
                );
            } else {
                lemma_names_are_keys(
                    metadata.composite_types.0@[name].fields.entries(),
                    info.names,
                    column,
                );
            }
        }
    }
}

proof fn lemma_names_are_keys<V>(
    entries: Seq<(String, V)>,
    names: Seq<Seq<char>>,
    key: Seq<char>,
)
    requires
        names == Seq::new(entries.len(), |i: int| entries[i].0@),
    ensures
        has_key(entries, key) <==> names.contains(key),
{
    if has_key(entries, key) {
        let i = choose|i: int| 0 <= i < entries.len() && (#[trigger] entries[i]).0@ == key;
        assert(names[i] == key);
    }
    if names.contains(key) {
        let i = choose|i: int| 0 <= i < names.len() && names[i] == key;
        assert(entries[i].0@ == key);
    }
}

////// What a field comes to

/// Fields select everything that a name stands for: each of its columns or fields, as a whole and
/// under its own name, and nothing else.
pub open spec fn selects_everything(
    metadata: Metadata,
    name: Seq<char>,
    fields: Seq<(Seq<char>, FieldView)>,
) -> bool {
    &&& fields.len() == number_of_columns(metadata, name)
    &&& forall|i: int|
        0 <= i < fields.len() ==> (#[trigger] fields[i]).1 == (FieldView::Column {
            column: fields[i].0,
            fields: None,
        }) && known_columns(metadata, name).contains(fields[i].0)
    &&& forall|column: Seq<char>| #[trigger]
        known_columns(metadata, name).contains(column) ==> exists|i: int|
            0 <= i < fields.len() && (#[trigger] fields[i]).0 == column
}

/// The selection that a column is unpacked to selects exactly the fields that the metadata lists for
/// the composite type.
pub proof fn lemma_unpacked_type_has_all_its_fields(metadata: Metadata, name: Seq<char>)
    requires
        is_known(metadata, name),
    ensures
        fields_of(metadata, name) matches Some(info) && selects_everything(
            metadata,
            name,
            all_fields(info),
        ),
{
    lemma_lookup_finds_what_the_metadata_holds(metadata, name);
    let info = fields_of(metadata, name)->Some_0;
    let fields = all_fields(info);
    assert forall|i: int| 0 <= i < fields.len() implies (#[trigger] fields[i]).1 == (
    FieldView::Column { column: fields[i].0, fields: None }) && known_columns(
        metadata,
        name,
    ).contains(fields[i].0) by {
        assert(info.names[i] == fields[i].0);
        assert(info.names.contains(fields[i].0));
    }
    assert forall|column: Seq<char>| #[trigger]
        known_columns(metadata, name).contains(column) implies exists|i: int|
        0 <= i < fields.len() && (#[trigger] fields[i]).0 == column by {
        assert(info.names.contains(column));
        let i = choose|i: int| 0 <= i < info.names.len() && info.names[i] == column;
        assert(fields[i].0 == column);
    }
}

/// Values of a scalar type are handed out as text: big integers and decimals that are represented as
/// strings.
pub open spec fn is_text(metadata: Metadata, scalar_type: ScalarType) -> bool {
    &&& metadata.type_representations.0@.contains_key(scalar_type.0@)
    &&& {
        ||| metadata.type_representations.0@[scalar_type.0@] == TypeRepresentation::Int64AsString
        ||| metadata.type_representations.0@[scalar_type.0@]
            == TypeRepresentation::BigDecimalAsString
    }
}

/// An expression is a column of a table, cast to text if and only if it is handed out as text.
pub open spec fn is_scalar_answer(
    metadata: Metadata,
    scalar_type: ScalarType,
    is_array: bool,
    table: TableReferenceView,
    name: Seq<char>,
    expression: ExpressionView,
) -> bool {
    let column = ExpressionView::ColumnReference(ColumnReferenceView::TableColumn { table, name });
    if is_text(metadata, scalar_type) {
        expression == ExpressionView::Cast {
            expression: Box::new(column),
            scalar_type: ScalarTypeNameView { schema_name: None, name: "text"@, is_array },
        }
    } else {
        expression == column
    }
}

/// A select statement of a list and a from clause, and of nothing else.
pub open spec fn plain_select(select_list: SelectListView, from: Option<FromView>) -> SelectView {
    SelectView {
        select_list,
        from,
        joins: Seq::empty(),
        where_: ExpressionView::Value(ValueView::Bool(true)),
        order_by: Seq::empty(),
        limit: Limit { limit: None, offset: None },
    }
}

/// A join computes the fields of a composite value: it binds the value, or each element of an array
/// of values, selects the fields from it, and collects them into an object, or into an array of
/// objects. The expression refers to what was collected. `start` is where the translation stood.
pub open spec fn computes(
    metadata: Metadata,
    start: Trace,
    table: TableReferenceView,
    column: Seq<char>,
    composite_type: CompositeTypeName,
    is_array: bool,
    fields: Seq<(Seq<char>, FieldView)>,
    join: JoinView,
    expression: ExpressionView,
) -> bool {
    let fields_alias = TableAliasView { unique_index: start.index, name: "nested_fields"@ };
    let binding_alias = TableAliasView {
        unique_index: start.index + 1,
        name: "nested_field_binding"@,
    };
    let inner_start = Trace { index: start.index + 2, relationships: start.relationships };
    let inner_table = TableView {
        name: composite_type.0@,
        reference: TableReferenceView::AliasedTable(binding_alias),
    };
    let row = ExpressionView::RowToJson(TableReferenceView::AliasedTable(fields_alias));
    let value = ExpressionView::ColumnReference(
        ColumnReferenceView::AliasedColumn { table, column },
    );
    fields_translation(metadata, inner_start, fields, inner_table) matches Some((end, Ok(inner)))
        && {
        let collect_alias = TableAliasView {
            unique_index: end.index,
            name: "nested_fields_collect"@,
        };
        let collect = if is_array {
            ExpressionView::FunctionCall { function: FunctionView::JsonAgg, args: seq![row] }
        } else {
            row
        };
        let bound = if is_array {
            ExpressionView::FunctionCall { function: FunctionView::Unnest, args: seq![value] }
        } else {
            value
        };
        let binding = FromView::Select {
            select: Box::new(plain_select(SelectListView::SelectStarComposite(bound), None)),
            alias: binding_alias,
        };
        let selecting = FromView::Select {
            select: Box::new(SelectView { from: Some(binding), ..inner }),
            alias: fields_alias,
        };
        &&& join == JoinView::LeftOuterJoinLateral {
            select: Box::new(
                plain_select(
                    SelectListView::SelectList(seq![("collected"@, collect)]),
                    Some(selecting),
                ),
            ),
            alias: collect_alias,
        }
        &&& expression == ExpressionView::ColumnReference(
            ColumnReferenceView::AliasedColumn {
                table: TableReferenceView::AliasedTable(collect_alias),
                column: "collected"@,
            },
        )
    }
}

/// One of the joins computes the fields of a composite value.
pub open spec fn is_computed(
    metadata: Metadata,
    table: TableReferenceView,
    column: Seq<char>,
    composite_type: CompositeTypeName,
    is_array: bool,
    fields: Seq<(Seq<char>, FieldView)>,
    joins: Seq<JoinView>,
    expression: ExpressionView,
) -> bool {
    exists|k: int, start: Trace|
        0 <= k < joins.len() && #[trigger] computes(
            metadata,
            start,
            table,
            column,
            composite_type,
            is_array,
            fields,
            joins[k],
            expression,
        )
}

/// One of the joins computes all fields of a composite value.
pub open spec fn is_computed_as_a_whole(
    metadata: Metadata,
    table: TableReferenceView,
    column: Seq<char>,
    composite_type: CompositeTypeName,
    is_array: bool,
    joins: Seq<JoinView>,
    expression: ExpressionView,
) -> bool {
    exists|fields: Seq<(Seq<char>, FieldView)>|
        selects_everything(metadata, composite_type.0@, fields) && #[trigger] is_computed(
            metadata,
            table,
            column,
            composite_type,
            is_array,
            fields,
            joins,
            expression,
        )
}

/// A relationship field stands for a relationship that was requested: it holds the request as it is,
/// and the expression refers to it.
pub open spec fn stands_for(
    collected: JoinFieldView,
    alias: Seq<char>,
    query: QueryView,
    relationship: Seq<char>,
    arguments: Seq<(Seq<char>, RelationshipArgumentView)>,
    expression: ExpressionView,
) -> bool {
    &&& collected.table_alias.name == "RELATIONSHIP_"@ + alias
    &&& collected.column_alias == alias
    &&& collected.relationship_name == relationship
    &&& collected.arguments == arguments
    &&& collected.query == query
    &&& expression == ExpressionView::ColumnReference(
        ColumnReferenceView::AliasedColumn {
            table: TableReferenceView::AliasedTable(collected.table_alias),
            column: alias,
        },
    )
}

/// An expression, with the joins and the relationship fields around it, answers a requested field.
pub open spec fn answers_field(
    metadata: Metadata,
    table: TableView,
    alias: Seq<char>,
    field: FieldView,
    expression: ExpressionView,
    joins: Seq<JoinView>,
    collected: Seq<JoinFieldView>,
) -> bool {
    match field {
        FieldView::Column { column, fields: None } => {
            let name = database_name(metadata, table.name, column);
            &&& known_columns(metadata, table.name).contains(column)
            &&& match type_of_column(metadata, table.name, column) {
                Type::ScalarType(scalar_type) => is_scalar_answer(
                    metadata,
                    scalar_type,
                    false,
                    table.reference,
                    name,
                    expression,
                ),
                Type::CompositeType(composite_type) => is_computed_as_a_whole(
                    metadata,
                    table.reference,
                    name,
                    composite_type,
                    false,
                    joins,
                    expression,
                ),
                Type::ArrayType(element_type) => match *element_type {
                    Type::ScalarType(scalar_type) => is_scalar_answer(
                        metadata,
                        scalar_type,
                        true,
                        table.reference,
                        name,
                        expression,
                    ),
                    Type::CompositeType(composite_type) => is_computed_as_a_whole(
                        metadata,
                        table.reference,
                        name,
                        composite_type,
                        true,
                        joins,
                        expression,
                    ),
                    Type::ArrayType(_) => false,
                },
            }
        },
        FieldView::Column { column, fields: Some(selection) } => {
            let name = database_name(metadata, table.name, column);
            let data_type = type_of_column(metadata, table.name, column);
            &&& known_columns(metadata, table.name).contains(column)
            &&& match selection {
                NestedFieldView::Object(fields) => data_type matches Type::CompositeType(
                    composite_type,
                ) && is_computed(
                    metadata,
                    table.reference,
                    name,
                    composite_type,
                    false,
                    fields,
                    joins,
                    expression,
                ),
                NestedFieldView::Array(elements) => {
                    &&& *elements matches NestedFieldView::Object(fields)
                    &&& data_type matches Type::ArrayType(element_type)
                    &&& *element_type matches Type::CompositeType(composite_type)
                    &&& is_computed(
                        metadata,
                        table.reference,
                        name,
                        composite_type,
                        true,
                        fields,
                        joins,
                        expression,
                    )
                },
            }
        },
        FieldView::Relationship { query, relationship, arguments } => exists|k: int|
            0 <= k < collected.len() && stands_for(
                #[trigger] collected[k],
                alias,
                query,
                relationship,
                arguments,
                expression,
            ),
    }
}

////// What a field fails for

/// Fields of a composite value cannot be translated, because of an error.
pub open spec fn inner_fields_fail(
    metadata: Metadata,
    composite_type: CompositeTypeName,
    fields: Seq<(Seq<char>, FieldView)>,
    error: ErrorView,
) -> bool {
    exists|start: Trace, reference: TableReferenceView|
        (#[trigger] fields_translation(
            metadata,
            start,
            fields,
            TableView { name: composite_type.0@, reference },
        )) matches Some((_, Err(inner))) && inner == error
}

/// A composite type cannot be selected from as a whole, because of an error: it is unknown, or its
/// fields cannot be translated.
pub open spec fn whole_fails(
    metadata: Metadata,
    composite_type: CompositeTypeName,
    error: ErrorView,
) -> bool {
    if !is_known(metadata, composite_type.0@) {
        error == ErrorView::CollectionNotFound(composite_type.0@)
    } else {
        exists|fields: Seq<(Seq<char>, FieldView)>|
            selects_everything(metadata, composite_type.0@, fields) && #[trigger] inner_fields_fail(
                metadata,
                composite_type,
                fields,
                error,
            )
    }
}

/// A requested field cannot be translated, because of an error.
pub open spec fn field_fails(
    metadata: Metadata,
    name: Seq<char>,
    field: FieldView,
    error: ErrorView,
) -> bool {
    match field {
        FieldView::Relationship { .. } => false,
        FieldView::Column { column, fields } => if !known_columns(metadata, name).contains(column) {
            error == ErrorView::ColumnNotFoundInCollection(column, called(metadata, name))
        } else {
            let field_name = database_name(metadata, name, column);
            let data_type = type_of_column(metadata, name, column);
            match fields {
                None => match data_type {
                    Type::ScalarType(_) => false,
                    Type::CompositeType(composite_type) => whole_fails(
                        metadata,
                        composite_type,
                        error,
                    ),
                    Type::ArrayType(element_type) => match *element_type {
                        Type::ScalarType(_) => false,
                        Type::CompositeType(composite_type) => whole_fails(
                            metadata,
                            composite_type,
                            error,
                        ),
                        Type::ArrayType(_) => error == (ErrorView::NestedArraysNotSupported {
                            field_name: column,
                        }),
                    },
                },
                Some(NestedFieldView::Object(inner)) => match data_type {
                    Type::CompositeType(composite_type) => inner_fields_fail(
                        metadata,
                        composite_type,
                        inner,
                        error,
                    ),
                    actual_type => error == (ErrorView::NestedFieldNotOfCompositeType {
                        field_name,
                        actual_type,
                    }),
                },
                Some(NestedFieldView::Array(elements)) => match *elements {
                    NestedFieldView::Array(_) => error == (ErrorView::NestedArraysNotSupported {
                        field_name,
                    }),
                    NestedFieldView::Object(inner) => match data_type {
                        Type::ArrayType(element_type) => match *element_type {
                            Type::CompositeType(composite_type) => inner_fields_fail(
                                metadata,
                                composite_type,
                                inner,
                                error,
                            ),
                            actual_type => error == (ErrorView::NestedFieldNotOfCompositeType {
                                field_name,
                                actual_type,
                            }),
                        },
                        actual_type => error == (ErrorView::NestedFieldNotOfArrayType {
                            field_name,
                            actual_type,
                        }),
                    },
                },
            }
        },
    }
}

////// Every field is answered

/// The meaning of one field in the translation of a list.
proof fn meaning_in_list(
    metadata: Metadata,
    depth: nat,
    trace: Trace,
    fields: Seq<(Seq<char>, FieldView)>,
    n: nat,
    i: int,
    table: TableView,
    info: FieldsView,
) -> (part: (Trace, Trace, Columns))
    requires
        0 <= i < n <= fields.len(),
        list_meaning(metadata, depth, trace, fields, n, table, info) matches Some((_, Ok(_))),
    ensures
        ({
            let (after, result) = list_meaning(
                metadata,
                depth,
                trace,
                fields,
                n,
                table,
                info,
            )->Some_0;
            let columns = result->Ok_0;
            &&& field_meaning(
                metadata,
                depth,
                part.0,
                fields[i].0,
                fields[i].1,
                table,
                info,
            ) == Some((part.1, Ok::<Columns, ErrorView>(part.2)))
            &&& columns.columns.len() == n
            &&& part.2.columns == seq![columns.columns[i]]
            &&& forall|k: int|
                0 <= k < part.2.joins.len() ==> columns.joins.contains(#[trigger] part.2.joins[k])
            &&& trace.relationships.is_prefix_of(part.0.relationships)
            &&& part.0.relationships.is_prefix_of(part.1.relationships)
            &&& part.1.relationships.is_prefix_of(after.relationships)
        }),
    decreases n,
{
    let (between, so_far) = list_meaning(
        metadata,
        depth,
        trace,
        fields,
        (n - 1) as nat,
        table,
        info,
    )->Some_0;
    let last = field_meaning(
        metadata,
        depth,
        between,
        fields[n - 1].0,
        fields[n - 1].1,
        table,
        info,
    )->Some_0;
    crate::translation::query::selection::lemma_list_grows(
        metadata,
        depth,
        trace,
        fields,
        (n - 1) as nat,
        n,
        table,
        info,
    );
    let before = so_far->Ok_0;
    let more = last.1->Ok_0;
    assert(more.columns.len() == 1);
    let earlier = if n > 1 {
        meaning_in_list(
            metadata,
            depth,
            trace,
            fields,
            (n - 1) as nat,
            if i < n - 1 {
                i
            } else {
                0
            },
            table,
            info,
        )
    } else {
        (between, last.0, more)
    };
    if i < n - 1 {
        assert((before.columns + more.columns)[i] == before.columns[i]);
        assert forall|k: int| 0 <= k < earlier.2.joins.len() implies (before.joins
            + more.joins).contains(#[trigger] earlier.2.joins[k]) by {
            let place = choose|place: int|
                0 <= place < before.joins.len() && before.joins[place] == earlier.2.joins[k];
            assert((before.joins + more.joins)[place] == earlier.2.joins[k]);
        }
        earlier
    } else {
        assert(before.columns.len() == n - 1);
        assert(more.columns =~= seq![(before.columns + more.columns)[i]]);
        assert forall|k: int| 0 <= k < more.joins.len() implies (before.joins
            + more.joins).contains(#[trigger] more.joins[k]) by {
            assert((before.joins + more.joins)[before.joins.len() + k] == more.joins[k]);
        }
        (between, last.0, more)
    }
}

proof fn lemma_selection_computes(
    metadata: Metadata,
    depth: nat,
    trace: Trace,
    table: TableView,
    column: ColumnInfo,
    selection: NestedFieldView,
    name: CompositeTypeName,
    is_array: bool,
    fields: Seq<(Seq<char>, FieldView)>,
)
    requires
        ({
            ||| !is_array && selection == NestedFieldView::Object(fields) && column.data_type
                == Type::CompositeType(name)
            ||| is_array && selection == NestedFieldView::Array(
                Box::new(NestedFieldView::Object(fields)),
            ) && column.data_type == Type::ArrayType(Box::new(Type::CompositeType(name)))
        }),
    ensures
        selection_meaning(metadata, depth, trace, table, column, selection) matches Some(
            (_, Ok((join, reference))),
        ) ==> computes(
            metadata,
            trace,
            table.reference,
            column.name.0@,
            name,
            is_array,
            fields,
            join,
            ExpressionView::ColumnReference(reference),
        ),
        selection_meaning(metadata, depth, trace, table, column, selection) matches Some(
            (_, Err(error)),
        ) ==> inner_fields_fail(metadata, name, fields, error),
{
    if selection_meaning(metadata, depth, trace, table, column, selection) is Some {
        lemma_fields_translation(
            metadata,
            (depth - 1) as nat,
            Trace { index: trace.index + 2, relationships: trace.relationships },
            fields,
            TableView {
                name: name.0@,
                reference: TableReferenceView::AliasedTable(
                    TableAliasView {
                        unique_index: trace.index + 1,
                        name: "nested_field_binding"@,
                    },
                ),
            },
        );
        assert(trace.advanced().advanced() == Trace {
            index: trace.index + 2,
            relationships: trace.relationships,
        });
    }
}

proof fn lemma_field_is_answered(
    metadata: Metadata,
    depth: nat,
    trace: Trace,
    alias: Seq<char>,
    field: FieldView,
    table: TableView,
    info: FieldsView,
)
    requires
        fields_of(metadata, table.name) == Some(info),
    ensures
        field_meaning(metadata, depth, trace, alias, field, table, info) matches Some(
            (after, Ok(more)),
        ) ==> more.columns.len() == 1 && more.columns[0].0 == alias && answers_field(
            metadata,
            table,
            alias,
            field,
            more.columns[0].1,
            more.joins,
            after.relationships.skip(trace.relationships.len() as int),
        ) && more.joins.len() == (if needs_join(metadata, table.name, field) {
            1nat
        } else {
            0nat
        }),
        field_meaning(metadata, depth, trace, alias, field, table, info) matches Some(
            (_, Err(error)),
        ) ==> field_fails(metadata, table.name, field, error),
{
    lemma_lookup_finds_what_the_metadata_holds(metadata, table.name);
    match field {
        FieldView::Column { column, fields: None } => {
            assert(field_meaning(metadata, depth, trace, alias, field, table, info)
                == column_meaning(metadata, depth, trace, alias, column, table, info));
            if let Ok(column_info) = info.column(column) {
                match column_info.data_type {
                    Type::ScalarType(_) => {},
                    Type::CompositeType(name) => {
                        lemma_whole_is_computed(
                            metadata,
                            depth,
                            trace,
                            alias,
                            table,
                            column_info,
                            name,
                            false,
                        );
                    },
                    Type::ArrayType(element_type) => {
                        if let Type::CompositeType(name) = *element_type {
                            lemma_whole_is_computed(
                                metadata,
                                depth,
                                trace,
                                alias,
                                table,
                                column_info,
                                name,
                                true,
                            );
                        }
                    },
                }
            }
        },
        FieldView::Column { column, fields: Some(selection) } => {
            if let Ok(column_info) = info.column(column) {
                assert(field_meaning(metadata, depth, trace, alias, field, table, info)
                    == nested_meaning(
                    metadata,
                    depth,
                    trace,
                    alias,
                    table,
                    column_info,
                    selection,
                ));
                match selection {
                    NestedFieldView::Object(fields) => {
                        if let Type::CompositeType(name) = column_info.data_type {
                            lemma_selection_computes(
                                metadata,
                                depth,
                                trace,
                                table,
                                column_info,
                                selection,
                                name,
                                false,
                                fields,
                            );
                            lemma_computed_by_its_join(
                                metadata,
                                depth,
                                trace,
                                table,
                                column_info,
                                selection,
                                name,
                                false,
                                fields,
                            );
                        }
                    },
                    NestedFieldView::Array(elements) => {
                        if let NestedFieldView::Object(fields) = *elements {
                            if let Type::ArrayType(element_type) = column_info.data_type {
                                if let Type::CompositeType(name) = *element_type {
                                    lemma_selection_computes(
                                        metadata,
                                        depth,
                                        trace,
                                        table,
                                        column_info,
                                        selection,
                                        name,
                                        true,
                                        fields,
                                    );
                                    lemma_computed_by_its_join(
                                        metadata,
                                        depth,
                                        trace,
                                        table,
                                        column_info,
                                        selection,
                                        name,
                                        true,
                                        fields,
                                    );
                                }
                            }
                        }
                    },
                }
            }
        },
        FieldView::Relationship { query, relationship, arguments } => {
            if let Some((after, Ok(more))) = field_meaning(
                metadata,
                depth,
                trace,
                alias,
                field,
                table,
                info,
            ) {
                let collected = after.relationships.skip(trace.relationships.len() as int);
                assert(stands_for(
                    collected[0],
                    alias,
                    query,
                    relationship,
                    arguments,
                    more.columns[0].1,
                ));
            }
        },
    }
}

proof fn lemma_computed_by_its_join(
    metadata: Metadata,
    depth: nat,
    trace: Trace,
    table: TableView,
    column: ColumnInfo,
    selection: NestedFieldView,
    name: CompositeTypeName,
    is_array: bool,
    fields: Seq<(Seq<char>, FieldView)>,
)
    ensures
        selection_meaning(metadata, depth, trace, table, column, selection) matches Some(
            (_, Ok((join, reference))),
        ) ==> computes(
            metadata,
            trace,
            table.reference,
            column.name.0@,
            name,
            is_array,
            fields,
            join,
            ExpressionView::ColumnReference(reference),
        ) ==> is_computed(
            metadata,
            table.reference,
            column.name.0@,
            name,
            is_array,
            fields,
            seq![join],
            ExpressionView::ColumnReference(reference),
        ),
{
    if let Some((_, Ok((join, reference)))) = selection_meaning(
        metadata,
        depth,
        trace,
        table,
        column,
        selection,
    ) {
        let joins = seq![join];
        assert(joins[0] == join);
        if computes(
            metadata,
            trace,
            table.reference,
            column.name.0@,
            name,
            is_array,
            fields,
            joins[0],
            ExpressionView::ColumnReference(reference),
        ) {
        }
    }
}

proof fn lemma_whole_is_computed(
    metadata: Metadata,
    depth: nat,
    trace: Trace,
    alias: Seq<char>,
    table: TableView,
    column: ColumnInfo,
    name: CompositeTypeName,
    is_array: bool,
)
    requires
        column.data_type == if is_array {
            Type::ArrayType(Box::new(Type::CompositeType(name)))
        } else {
            Type::CompositeType(name)
        },
    ensures
        fields_of(metadata, name.0@) is Some <==> is_known(metadata, name.0@),
        fields_of(metadata, name.0@) matches Some(inner) ==> ({
            let selection = if is_array {
                NestedFieldView::Array(Box::new(NestedFieldView::Object(all_fields(inner))))
            } else {
                NestedFieldView::Object(all_fields(inner))
            };
            match selection_meaning(metadata, depth, trace, table, column, selection) {
                None => true,
                Some((_, Ok((join, reference)))) => is_computed_as_a_whole(
                    metadata,
                    table.reference,
                    column.name.0@,
                    name,
                    is_array,
                    seq![join],
                    ExpressionView::ColumnReference(reference),
                ),
                Some((_, Err(error))) => whole_fails(metadata, name, error),
            }
        }),
{
    lemma_lookup_finds_what_the_metadata_holds(metadata, name.0@);
    if let Some(inner) = fields_of(metadata, name.0@) {
        let fields = all_fields(inner);
        let selection = if is_array {
            NestedFieldView::Array(Box::new(NestedFieldView::Object(fields)))
        } else {
            NestedFieldView::Object(fields)
        };
        lemma_unpacked_type_has_all_its_fields(metadata, name.0@);
        lemma_selection_computes(
            metadata,
            depth,
            trace,
            table,
            column,
            selection,
            name,
            is_array,
            fields,
        );
        lemma_computed_by_its_join(
            metadata,
            depth,
            trace,
            table,
            column,
            selection,
            name,
            is_array,
            fields,
        );
    }
}

/// A field is computed by a join: it selects from a column, or is a composite column or a column of
/// composite arrays as a whole.
pub open spec fn needs_join(metadata: Metadata, name: Seq<char>, field: FieldView) -> bool {
    match field {
        FieldView::Relationship { .. } => false,
        FieldView::Column { column, fields: Some(_) } => true,
        FieldView::Column { column, fields: None } => match type_of_column(metadata, name, column) {
            Type::ScalarType(_) => false,
            Type::CompositeType(_) => true,
            Type::ArrayType(element_type) => *element_type is CompositeType,
        },
    }
}

/// How many of the first `n` fields are computed by a join.
pub open spec fn number_of_joins(
    metadata: Metadata,
    name: Seq<char>,
    fields: Seq<(Seq<char>, FieldView)>,
    n: nat,
) -> nat
    decreases n,
{
    if n == 0 {
        0
    } else {
        number_of_joins(metadata, name, fields, (n - 1) as nat) + if needs_join(
            metadata,
            name,
            fields[n - 1].1,
        ) {
            1nat
        } else {
            0nat
        }
    }
}

proof fn lemma_joins_of_list(
    metadata: Metadata,
    depth: nat,
    trace: Trace,
    fields: Seq<(Seq<char>, FieldView)>,
    n: nat,
    table: TableView,
    info: FieldsView,
)
    requires
        n <= fields.len(),
        fields_of(metadata, table.name) == Some(info),
    ensures
        list_meaning(metadata, depth, trace, fields, n, table, info) matches Some((_, Ok(columns)))
            ==> columns.joins.len() == number_of_joins(metadata, table.name, fields, n),
    decreases n,
{
    if n > 0 {
        lemma_joins_of_list(metadata, depth, trace, fields, (n - 1) as nat, table, info);
        if let Some((between, Ok(_))) = list_meaning(
            metadata,
            depth,
            trace,
            fields,
            (n - 1) as nat,
            table,
            info,
        ) {
            lemma_field_is_answered(
                metadata,
                depth,
                between,
                fields[n - 1].0,
                fields[n - 1].1,
                table,
                info,
            );
        }
    }
}

proof fn lemma_answered_among_more(
    metadata: Metadata,
    table: TableView,
    alias: Seq<char>,
    field: FieldView,
    expression: ExpressionView,
    joins: Seq<JoinView>,
    collected: Seq<JoinFieldView>,
    more_joins: Seq<JoinView>,
    more_collected: Seq<JoinFieldView>,
)
    requires
        answers_field(metadata, table, alias, field, expression, joins, collected),
        forall|k: int| 0 <= k < joins.len() ==> more_joins.contains(#[trigger] joins[k]),
        forall|k: int|
            0 <= k < collected.len() ==> more_collected.contains(#[trigger] collected[k]),
    ensures
        answers_field(metadata, table, alias, field, expression, more_joins, more_collected),
{
    assert forall|
        column: Seq<char>,
        composite_type: CompositeTypeName,
        is_array: bool,
        fields: Seq<(Seq<char>, FieldView)>,
    | #[trigger]
        is_computed(
            metadata,
            table.reference,
            column,
            composite_type,
            is_array,
            fields,
            joins,
            expression,
        ) implies is_computed(
        metadata,
        table.reference,
        column,
        composite_type,
        is_array,
        fields,
        more_joins,
        expression,
    ) by {
        let (k, start) = choose|k: int, start: Trace|
            0 <= k < joins.len() && #[trigger] computes(
                metadata,
                start,
                table.reference,
                column,
                composite_type,
                is_array,
                fields,
                joins[k],
                expression,
            );
        assert(more_joins.contains(joins[k]));
        let place = choose|place: int|
            0 <= place < more_joins.len() && more_joins[place] == joins[k];
        assert(computes(
            metadata,
            start,
            table.reference,
            column,
            composite_type,
            is_array,
            fields,
            more_joins[place],
            expression,
        ));
    }
    if let FieldView::Relationship { query, relationship, arguments } = field {
        let k = choose|k: int|
            0 <= k < collected.len() && stands_for(
                #[trigger] collected[k],
                alias,
                query,
                relationship,
                arguments,
                expression,
            );
        assert(more_collected.contains(collected[k]));
    }
}

proof fn lemma_field_in_list_is_answered(
    metadata: Metadata,
    depth: nat,
    trace: Trace,
    fields: Seq<(Seq<char>, FieldView)>,
    i: int,
    table: TableView,
    info: FieldsView,
)
    requires
        0 <= i < fields.len(),
        fields_of(metadata, table.name) == Some(info),
        list_meaning(metadata, depth, trace, fields, fields.len(), table, info) matches Some(
            (_, Ok(_)),
        ),
    ensures
        ({
            let (after, result) = list_meaning(
                metadata,
                depth,
                trace,
                fields,
                fields.len(),
                table,
                info,
            )->Some_0;
            let columns = result->Ok_0;
            &&& columns.columns.len() == fields.len()
            &&& columns.columns[i].0 == fields[i].0
            &&& answers_field(
                metadata,
                table,
                fields[i].0,
                fields[i].1,
                columns.columns[i].1,
                columns.joins,
                after.relationships.skip(trace.relationships.len() as int),
            )
        }),
{
    let (after, result) = list_meaning(
        metadata,
        depth,
        trace,
        fields,
        fields.len(),
        table,
        info,
    )->Some_0;
    let columns = result->Ok_0;
    let all = after.relationships.skip(trace.relationships.len() as int);
    let (before, behind, more) = meaning_in_list(
        metadata,
        depth,
        trace,
        fields,
        fields.len(),
        i,
        table,
        info,
    );
    lemma_field_is_answered(metadata, depth, before, fields[i].0, fields[i].1, table, info);
    assert(more.columns[0] == columns.columns[i]);
    let collected = behind.relationships.skip(before.relationships.len() as int);
    lemma_later_collected(trace, before, behind, after);
    lemma_answered_among_more(
        metadata,
        table,
        fields[i].0,
        fields[i].1,
        columns.columns[i].1,
        more.joins,
        collected,
        columns.joins,
        all,
    );
}

proof fn lemma_number_of_columns(
    metadata: Metadata,
    depth: nat,
    trace: Trace,
    fields: Seq<(Seq<char>, FieldView)>,
    n: nat,
    table: TableView,
    info: FieldsView,
)
    requires
        n <= fields.len(),
    ensures
        list_meaning(metadata, depth, trace, fields, n, table, info) matches Some((_, Ok(columns)))
            ==> columns.columns.len() == n,
{
    if n > 0 && list_meaning(metadata, depth, trace, fields, n, table, info) matches Some((_, Ok(_)))
    {
        let _ = meaning_in_list(metadata, depth, trace, fields, n, 0, table, info);
    }
}

proof fn lemma_later_collected(trace: Trace, before: Trace, behind: Trace, after: Trace)
    requires
        trace.relationships.is_prefix_of(before.relationships),
        behind.relationships.is_prefix_of(after.relationships),
    ensures
        ({
            let collected = behind.relationships.skip(before.relationships.len() as int);
            let all = after.relationships.skip(trace.relationships.len() as int);
            before.relationships.len() <= behind.relationships.len() ==> forall|k: int|
                0 <= k < collected.len() ==> all.contains(#[trigger] collected[k])
        }),
{
    let collected = behind.relationships.skip(before.relationships.len() as int);
    let all = after.relationships.skip(trace.relationships.len() as int);
    if before.relationships.len() <= behind.relationships.len() {
        assert forall|k: int| 0 <= k < collected.len() implies all.contains(
            #[trigger] collected[k],
        ) by {
            let place = before.relationships.len() + k;
            assert(after.relationships[place] == behind.relationships[place]);
            assert(all[place - trace.relationships.len()] == collected[k]);
        }
    }
}

/// Every requested field is answered: the select statement has a column for each field, in the order
/// of the fields and by their names, and the column is what the request and the metadata say that it
/// is. The statement has as many joins as there are fields to compute by one, and nothing else.
pub proof fn lemma_every_field_is_answered(
    metadata: Metadata,
    trace: Trace,
    fields: Seq<(Seq<char>, FieldView)>,
    table: TableView,
)
    ensures
        fields_translation(metadata, trace, fields, table) matches Some((after, Ok(select))) ==> {
            &&& is_known(metadata, table.name)
            &&& select.select_list matches SelectListView::SelectList(columns) && columns.len()
                == fields.len() && forall|i: int|
                0 <= i < fields.len() ==> (#[trigger] columns[i]).0 == fields[i].0 && answers_field(
                    metadata,
                    table,
                    fields[i].0,
                    fields[i].1,
                    columns[i].1,
                    select.joins,
                    after.relationships.skip(trace.relationships.len() as int),
                )
            &&& select.joins.len() == number_of_joins(metadata, table.name, fields, fields.len())
            &&& select == SelectView {
                joins: select.joins,
                ..plain_select(select.select_list, None)
            }
        },
{
    lemma_lookup_finds_what_the_metadata_holds(metadata, table.name);
    if let Some((after, Ok(select))) = fields_translation(metadata, trace, fields, table) {
        let info = fields_of(metadata, table.name)->Some_0;
        let depth = choose|depth: nat|
            fields_meaning(metadata, depth, trace, fields, table) is Some;
        let n = fields.len();
        let columns = list_meaning(
            metadata,
            depth,
            trace,
            fields,
            n,
            table,
            info,
        )->Some_0.1->Ok_0;
        lemma_joins_of_list(metadata, depth, trace, fields, n, table, info);
        assert forall|i: int| 0 <= i < n implies (#[trigger] columns.columns[i]).0 == fields[i].0
            && answers_field(
            metadata,
            table,
            fields[i].0,
            fields[i].1,
            columns.columns[i].1,
            columns.joins,
            after.relationships.skip(trace.relationships.len() as int),
        ) by {
            lemma_field_in_list_is_answered(metadata, depth, trace, fields, i, table, info);
        }
        lemma_number_of_columns(metadata, depth, trace, fields, n, table, info);
    }
}

////// Translations fail for a reason

proof fn lemma_prefix_of_list(
    metadata: Metadata,
    depth: nat,
    trace: Trace,
    fields: Seq<(Seq<char>, FieldView)>,
    i: nat,
    n: nat,
    table: TableView,
    info: FieldsView,
)
    requires
        n <= i <= fields.len(),
    ensures
        list_meaning(metadata, depth, trace, fields.take(i as int), n, table, info) == list_meaning(
            metadata,
            depth,
            trace,
            fields,
            n,
            table,
            info,
        ),
    decreases n,
{
    if n > 0 {
        lemma_prefix_of_list(metadata, depth, trace, fields, i, (n - 1) as nat, table, info);
        assert(fields.take(i as int)[n - 1] == fields[n - 1]);
    }
}

/// The place of the first field that cannot be translated.
proof fn first_failure(
    metadata: Metadata,
    depth: nat,
    trace: Trace,
    fields: Seq<(Seq<char>, FieldView)>,
    n: nat,
    table: TableView,
    info: FieldsView,
) -> (i: int)
    requires
        n <= fields.len(),
        fields_of(metadata, table.name) == Some(info),
        list_meaning(metadata, depth, trace, fields, n, table, info) matches Some((_, Err(_))),
    ensures
        0 <= i < n,
        field_fails(
            metadata,
            table.name,
            fields[i].1,
            list_meaning(metadata, depth, trace, fields, n, table, info)->Some_0.1->Err_0,
        ),
        list_meaning(metadata, depth, trace, fields, i as nat, table, info) matches Some(
            (_, Ok(_)),
        ),
    decreases n,
{
    match list_meaning(metadata, depth, trace, fields, (n - 1) as nat, table, info) {
        Some((between, Ok(_))) => {
            lemma_field_is_answered(
                metadata,
                depth,
                between,
                fields[n - 1].0,
                fields[n - 1].1,
                table,
                info,
            );
            n - 1
        },
        _ => first_failure(metadata, depth, trace, fields, (n - 1) as nat, table, info),
    }
}

/// A field is the first one that cannot be translated: those before it can be.
pub open spec fn fails_first(
    metadata: Metadata,
    trace: Trace,
    fields: Seq<(Seq<char>, FieldView)>,
    table: TableView,
    i: int,
    error: ErrorView,
) -> bool {
    &&& field_fails(metadata, table.name, fields[i].1, error)
    &&& fields_translation(metadata, trace, fields.take(i), table) matches Some((_, Ok(_)))
}

/// Fields are refused only for a reason: where they are fields of nothing that is known, or else
/// where a field cannot be translated. The error is that of the first such field.
pub proof fn lemma_fields_fail_for_a_reason(
    metadata: Metadata,
    trace: Trace,
    fields: Seq<(Seq<char>, FieldView)>,
    table: TableView,
)
    ensures
        !is_known(metadata, table.name) ==> fields_translation(metadata, trace, fields, table)
            == Some(
            (
                trace,
                Err::<SelectView, ErrorView>(ErrorView::CollectionNotFound(table.name)),
            ),
        ),
        is_known(metadata, table.name) ==> (fields_translation(
            metadata,
            trace,
            fields,
            table,
        ) matches Some((_, Err(error))) ==> exists|i: int|
            0 <= i < fields.len() && #[trigger] fails_first(
                metadata,
                trace,
                fields,
                table,
                i,
                error,
            )),
{
    lemma_lookup_finds_what_the_metadata_holds(metadata, table.name);
    if !is_known(metadata, table.name) {
        assert(fields_meaning(metadata, 0, trace, fields, table) is Some);
        lemma_fields_translation(metadata, 0, trace, fields, table);
    } else if let Some((_, Err(error))) = fields_translation(metadata, trace, fields, table) {
        let info = fields_of(metadata, table.name)->Some_0;
        let depth = choose|depth: nat|
            fields_meaning(metadata, depth, trace, fields, table) is Some;
        let i = first_failure(metadata, depth, trace, fields, fields.len(), table, info);
        lemma_prefix_of_list(metadata, depth, trace, fields, i as nat, i as nat, table, info);
        assert(fields_meaning(metadata, depth, trace, fields.take(i), table) is Some);
        lemma_fields_translation(metadata, depth, trace, fields.take(i), table);
        assert(fails_first(metadata, trace, fields, table, i, error));
    }
}

////// Relationships

/// A requested relationship: the alias, the relationship, its arguments, and the query.
pub type Requested = (
    Seq<char>,
    Seq<char>,
    Seq<(Seq<char>, RelationshipArgumentView)>,
    QueryView,
);

/// The relationships that the first `n` fields of a list request, in their order, also those in
/// selections from columns.
pub open spec fn requested_in_list(fields: Seq<(Seq<char>, FieldView)>, n: nat) -> Seq<Requested>
    decreases fields, n,
{
    if n == 0 || n > fields.len() {
        Seq::empty()
    } else {
        requested_in_list(fields, (n - 1) as nat) + requested_in_field(
            fields[n - 1].0,
            fields[n - 1].1,
        )
    }
}

/// The relationships that a field requests.
pub open spec fn requested_in_field(alias: Seq<char>, field: FieldView) -> Seq<Requested>
    decreases field,
{
    match field {
        FieldView::Relationship { query, relationship, arguments } => seq![
            (alias, relationship, arguments, query),
        ],
        FieldView::Column { column, fields: Some(selection) } => requested_in_selection(selection),
        FieldView::Column { column, fields: None } => Seq::empty(),
    }
}

/// The relationships that a selection from a column requests.
pub open spec fn requested_in_selection(selection: NestedFieldView) -> Seq<Requested>
    decreases selection,
{
    match selection {
        NestedFieldView::Object(fields) => requested_in_list(fields, fields.len()),
        NestedFieldView::Array(elements) => requested_in_selection(*elements),
    }
}

/// What relationship fields hold of the request.
pub open spec fn held(relationships: Seq<JoinFieldView>) -> Seq<Requested> {
    Seq::new(
        relationships.len(),
        |i: int|
            (
                relationships[i].column_alias,
                relationships[i].relationship_name,
                relationships[i].arguments,
                relationships[i].query,
            ),
    )
}

/// Between two points a translation collected exactly the requested relationships.
pub open spec fn collects(before: Trace, requested: Seq<Requested>, after: Trace) -> bool {
    &&& before.relationships.is_prefix_of(after.relationships)
    &&& held(after.relationships) == held(before.relationships) + requested
}

proof fn lemma_list_collects(
    metadata: Metadata,
    depth: nat,
    trace: Trace,
    fields: Seq<(Seq<char>, FieldView)>,
    n: nat,
    table: TableView,
    info: FieldsView,
)
    requires
        n <= fields.len(),
    ensures
        list_meaning(metadata, depth, trace, fields, n, table, info) matches Some((after, Ok(_)))
            ==> collects(trace, requested_in_list(fields, n), after),
    decreases depth, 4nat, n,
{
    if n == 0 {
        assert(held(trace.relationships) =~= held(trace.relationships) + Seq::<
            Requested,
        >::empty());
    } else {
        lemma_list_collects(metadata, depth, trace, fields, (n - 1) as nat, table, info);
        crate::translation::query::selection::lemma_list_grows(
            metadata,
            depth,
            trace,
            fields,
            (n - 1) as nat,
            n,
            table,
            info,
        );
        if let Some((between, Ok(_))) = list_meaning(
            metadata,
            depth,
            trace,
            fields,
            (n - 1) as nat,
            table,
            info,
        ) {
            let (alias, field) = fields[n - 1];
            lemma_field_collects(metadata, depth, between, alias, field, table, info);
            if let Some((after, Ok(_))) = field_meaning(
                metadata,
                depth,
                between,
                alias,
                field,
                table,
                info,
            ) {
                assert(requested_in_list(fields, n) == requested_in_list(fields, (n - 1) as nat)
                    + requested_in_field(alias, field));
                assert(held(after.relationships) =~= held(trace.relationships)
                    + requested_in_list(fields, n));
            }
        }
    }
}

proof fn lemma_field_collects(
    metadata: Metadata,
    depth: nat,
    trace: Trace,
    alias: Seq<char>,
    field: FieldView,
    table: TableView,
    info: FieldsView,
)
    ensures
        field_meaning(metadata, depth, trace, alias, field, table, info) matches Some((after, Ok(_)))
            ==> collects(trace, requested_in_field(alias, field), after),
    decreases depth, 3nat, 0nat,
{
    match field {
        FieldView::Column { column, fields: None } => {
            assert(field_meaning(metadata, depth, trace, alias, field, table, info)
                == column_meaning(metadata, depth, trace, alias, column, table, info));
            crate::translation::query::laws::lemma_whole_column_collects_no_relationship(
                metadata,
                depth,
                trace,
                alias,
                column,
                table,
                info,
            );
            assert(held(trace.relationships) =~= held(trace.relationships) + Seq::<
                Requested,
            >::empty());
        },
        FieldView::Column { column, fields: Some(selection) } => {
            if let Ok(column_info) = info.column(column) {
                lemma_selection_collects(metadata, depth, trace, table, column_info, selection);
            }
        },
        FieldView::Relationship { .. } => {
            if let Some((after, Ok(_))) = field_meaning(
                metadata,
                depth,
                trace,
                alias,
                field,
                table,
                info,
            ) {
                assert(held(after.relationships) =~= held(trace.relationships)
                    + requested_in_field(alias, field));
            }
        },
    }
}

proof fn lemma_selection_collects(
    metadata: Metadata,
    depth: nat,
    trace: Trace,
    table: TableView,
    column: ColumnInfo,
    selection: NestedFieldView,
)
    ensures
        selection_meaning(metadata, depth, trace, table, column, selection) matches Some(
            (after, Ok(_)),
        ) ==> collects(trace, requested_in_selection(selection), after),
    decreases depth, 0nat, 0nat,
{
    if let Some((after, Ok(_))) = selection_meaning(
        metadata,
        depth,
        trace,
        table,
        column,
        selection,
    ) {
        let binding = binding_of(table, column, trace.alias("nested_fields"@), selection)->Ok_0;
        reveal_with_fuel(requested_in_selection, 3);
        assert(requested_in_selection(selection) == requested_in_list(
            binding.fields,
            binding.fields.len(),
        ));
        let inner_table = TableView {
            name: binding.type_of_value,
            reference: TableReferenceView::AliasedTable(
                trace.advanced().alias("nested_field_binding"@),
            ),
        };
        let info = fields_of(metadata, binding.type_of_value)->Some_0;
        lemma_list_collects(
            metadata,
            (depth - 1) as nat,
            trace.advanced().advanced(),
            binding.fields,
            binding.fields.len(),
            inner_table,
            info,
        );
    }
}

/// The relationships that fields request are collected, each as it was requested and in the order of
/// the requests: the alias, the relationship, its arguments, and the whole of the query. Nothing
/// else is collected.
pub proof fn lemma_requested_relationships_are_collected(
    metadata: Metadata,
    trace: Trace,
    fields: Seq<(Seq<char>, FieldView)>,
    table: TableView,
)
    ensures
        fields_translation(metadata, trace, fields, table) matches Some((after, Ok(_)))
            ==> collects(trace, requested_in_list(fields, fields.len()), after),
{
    if let Some(info) = fields_of(metadata, table.name) {
        let depth = choose|depth: nat|
            fields_meaning(metadata, depth, trace, fields, table) is Some;
        lemma_list_collects(metadata, depth, trace, fields, fields.len(), table, info);
    }
}

////// Casts

/// Only big integers and decimals that are represented as strings are cast, and they are cast to
/// text, or to arrays of text where they are arrays. All other expressions are left as they are.
pub proof fn lemma_only_numbers_as_strings_are_cast(
    expression: ExpressionView,
    representation: Option<TypeRepresentation>,
    is_array: bool,
)
    ensures
        ({
            let as_string = representation == Some(TypeRepresentation::Int64AsString)
                || representation == Some(TypeRepresentation::BigDecimalAsString);
            &&& represented(expression, representation, is_array) == if as_string {
                ExpressionView::Cast {
                    expression: Box::new(expression),
                    scalar_type: ScalarTypeNameView {
                        schema_name: None,
                        name: "text"@,
                        is_array,
                    },
                }
            } else {
                expression
            }
            &&& representation matches Some(own) ==> cast_type(own) == if as_string {
                Some(ScalarTypeNameView { schema_name: None, name: "text"@, is_array: false })
            } else {
                None
            }
        }),
{
}

} // verus!
