//! What holds of every translation of fields.

use crate::metadata::{CompositeTypeName, Metadata, Type};
use crate::models::{FieldView, NestedFieldView};
use crate::sql::ast::{
    ColumnReferenceView, ExpressionView, FromView, JoinView, SelectListView, SelectView,
};
use crate::string_map::has_key;
use crate::translation::error::ErrorView;
use crate::translation::helpers::{fields_of, ColumnInfo, FieldsView, TableView};
use crate::translation::query::depth::{fields_translation, lemma_fields_translation};
use crate::translation::query::relationships::JoinFieldView;
use crate::translation::query::selection::{
    aliased, all_fields, binding_of, column_meaning, field_meaning, fields_meaning, grows,
    lemma_fields_grow, lemma_list_grows, list_meaning, selection_meaning, Columns, Trace,
};
use vstd::prelude::*;

verus! {

////// Columns

/// Where a field can be translated, it stands for one column, which has the name of the field.
proof fn lemma_field_is_one_column(
    metadata: Metadata,
    depth: nat,
    trace: Trace,
    alias: Seq<char>,
    field: FieldView,
    table: TableView,
    info: FieldsView,
)
    ensures
        field_meaning(metadata, depth, trace, alias, field, table, info) matches Some((_, Ok(more)))
            ==> more.columns.len() == 1 && more.columns[0].0 == alias && more.joins.len() <= 1,
{
}

proof fn lemma_list_columns(
    metadata: Metadata,
    depth: nat,
    trace: Trace,
    fields: Seq<(Seq<char>, FieldView)>,
    n: nat,
    table: TableView,
    info: FieldsView,
)
    requires
        n <= fields.len(),
    ensures
        list_meaning(metadata, depth, trace, fields, n, table, info) matches Some((_, Ok(columns)))
            ==> columns.columns.len() == n && forall|i: int|
            0 <= i < n ==> (#[trigger] columns.columns[i]).0 == fields[i].0,
    decreases n,
{
    if n > 0 {
        lemma_list_columns(metadata, depth, trace, fields, (n - 1) as nat, table, info);
        if let Some((after, Ok(_))) = list_meaning(
            metadata,
            depth,
            trace,
            fields,
            (n - 1) as nat,
            table,
            info,
        ) {
            lemma_field_is_one_column(
                metadata,
                depth,
                after,
                fields[n - 1].0,
                fields[n - 1].1,
                table,
                info,
            );
        }
    }
}

/// A select statement has one column for each requested field, in the order of the fields, and each
/// column has the name of its field.
pub proof fn lemma_columns_follow_fields(
    metadata: Metadata,
    trace: Trace,
    fields: Seq<(Seq<char>, FieldView)>,
    table: TableView,
)
    ensures
        fields_translation(metadata, trace, fields, table) matches Some((_, Ok(select))) ==> (
        select.select_list matches SelectListView::SelectList(columns) && columns.len()
            == fields.len() && forall|i: int|
            0 <= i < fields.len() ==> (#[trigger] columns[i]).0 == fields[i].0),
{
    if let Some(info) = fields_of(metadata, table.name) {
        let depth = choose|depth: nat|
            fields_meaning(metadata, depth, trace, fields, table) is Some;
        lemma_list_columns(metadata, depth, trace, fields, fields.len(), table, info);
    }
}

/// The selection of all fields of a composite type, or of the composite type of an array's elements.
pub open spec fn unpacked(metadata: Metadata, data_type: Type) -> Option<NestedFieldView> {
    match data_type {
        Type::ScalarType(_) => None,
        Type::CompositeType(name) => match fields_of(metadata, name.0@) {
            None => None,
            Some(inner) => Some(NestedFieldView::Object(all_fields(inner))),
        },
        Type::ArrayType(element_type) => match *element_type {
            Type::CompositeType(name) => match fields_of(metadata, name.0@) {
                None => None,
                Some(inner) => Some(
                    NestedFieldView::Array(Box::new(NestedFieldView::Object(all_fields(inner)))),
                ),
            },
            _ => None,
        },
    }
}

/// A column of a composite type, or of arrays of one, that is requested as a whole is translated
/// like the selection of all fields of that type. It comes to the error of that selection, or else
/// to the one join and the one column that the selection comes to.
pub proof fn lemma_whole_column_selects_all_fields(
    metadata: Metadata,
    depth: nat,
    trace: Trace,
    alias: Seq<char>,
    column: Seq<char>,
    table: TableView,
    info: FieldsView,
    selection: NestedFieldView,
)
    requires
        info.columns.contains_key(column),
        unpacked(metadata, info.columns[column].data_type) == Some(selection),
    ensures
        field_meaning(
            metadata,
            depth,
            trace,
            alias,
            FieldView::Column { column, fields: None },
            table,
            info,
        ) == field_meaning(
            metadata,
            depth,
            trace,
            alias,
            FieldView::Column { column, fields: Some(selection) },
            table,
            info,
        ),
        column_meaning(metadata, depth, trace, alias, column, table, info)
            == match selection_meaning(
            metadata,
            depth,
            trace,
            table,
            info.columns[column],
            selection,
        ) {
            None => None,
            Some((after, Err(error))) => Some((after, Err(error))),
            Some((after, Ok((join, reference)))) => Some(
                (
                    after,
                    Ok(
                        Columns {
                            columns: seq![(alias, ExpressionView::ColumnReference(reference))],
                            joins: seq![join],
                        },
                    ),
                ),
            ),
        },
{
}

proof fn lemma_list_with_selection(
    metadata: Metadata,
    depth: nat,
    trace: Trace,
    fields: Seq<(Seq<char>, FieldView)>,
    i: int,
    column: Seq<char>,
    selection: NestedFieldView,
    n: nat,
    table: TableView,
    info: FieldsView,
)
    requires
        0 <= i < fields.len(),
        n <= fields.len(),
        fields[i].1 == (FieldView::Column { column, fields: None }),
        info.columns.contains_key(column),
        unpacked(metadata, info.columns[column].data_type) == Some(selection),
    ensures
        list_meaning(metadata, depth, trace, fields, n, table, info) == list_meaning(
            metadata,
            depth,
            trace,
            with_selection(fields, i, column, selection),
            n,
            table,
            info,
        ),
    decreases n,
{
    if n > 0 {
        lemma_list_with_selection(
            metadata,
            depth,
            trace,
            fields,
            i,
            column,
            selection,
            (n - 1) as nat,
            table,
            info,
        );
        if i == n - 1 {
            if let Some((after, Ok(_))) = list_meaning(
                metadata,
                depth,
                trace,
                fields,
                (n - 1) as nat,
                table,
                info,
            ) {
                lemma_whole_column_selects_all_fields(
                    metadata,
                    depth,
                    after,
                    fields[i].0,
                    column,
                    table,
                    info,
                    selection,
                );
            }
        }
    }
}

/// Fields, of which the one at place `i` selects from a column.
pub open spec fn with_selection(
    fields: Seq<(Seq<char>, FieldView)>,
    i: int,
    column: Seq<char>,
    selection: NestedFieldView,
) -> Seq<(Seq<char>, FieldView)> {
    fields.update(i, (fields[i].0, FieldView::Column { column, fields: Some(selection) }))
}

/// Among the fields of a query, a composite column that is requested as a whole can be replaced by
/// the selection of all its fields: the translation of the fields is the same, and so are the table
/// aliases and the relationship fields that it comes to.
pub proof fn lemma_whole_column_can_be_unpacked(
    metadata: Metadata,
    trace: Trace,
    fields: Seq<(Seq<char>, FieldView)>,
    i: int,
    column: Seq<char>,
    selection: NestedFieldView,
    table: TableView,
)
    requires
        0 <= i < fields.len(),
        fields[i].1 == (FieldView::Column { column, fields: None }),
        fields_of(metadata, table.name) matches Some(info) && info.columns.contains_key(column)
            && unpacked(metadata, info.columns[column].data_type) == Some(selection),
    ensures
        fields_translation(metadata, trace, fields, table) == fields_translation(
            metadata,
            trace,
            with_selection(fields, i, column, selection),
            table,
        ),
{
    let info = fields_of(metadata, table.name)->Some_0;
    let explicit = with_selection(fields, i, column, selection);
    assert forall|depth: nat|
        #![trigger fields_meaning(metadata, depth, trace, fields, table)]
        #![trigger fields_meaning(metadata, depth, trace, explicit, table)]
        fields_meaning(metadata, depth, trace, fields, table) == fields_meaning(
            metadata,
            depth,
            trace,
            explicit,
            table,
        ) by {
        lemma_list_with_selection(
            metadata,
            depth,
            trace,
            fields,
            i,
            column,
            selection,
            fields.len(),
            table,
            info,
        );
    }
    if exists|depth: nat| fields_meaning(metadata, depth, trace, fields, table) is Some {
        let depth = choose|depth: nat|
            fields_meaning(metadata, depth, trace, fields, table) is Some;
        lemma_fields_translation(metadata, depth, trace, fields, table);
        lemma_fields_translation(metadata, depth, trace, explicit, table);
    }
}

/// A selection is translated by translating the selected fields, after two table aliases were made,
/// as fields of the second one. It comes to their error, or else to a join that selects from their
/// select statement, which differs only in its from clause, and to the relationship fields that they
/// come to.
pub proof fn lemma_selection_follows_its_fields(
    metadata: Metadata,
    depth: nat,
    trace: Trace,
    table: TableView,
    column: ColumnInfo,
    selection: NestedFieldView,
    name: CompositeTypeName,
    fields: Seq<(Seq<char>, FieldView)>,
)
    requires
        ({
            ||| selection == NestedFieldView::Object(fields) && column.data_type
                == Type::CompositeType(name)
            ||| selection == NestedFieldView::Array(Box::new(NestedFieldView::Object(fields)))
                && column.data_type == Type::ArrayType(Box::new(Type::CompositeType(name)))
        }),
        selection_meaning(metadata, depth, trace, table, column, selection) is Some,
    ensures
        ({
            let inner_table = TableView {
                name: name.0@,
                reference: aliased(trace.advanced().alias("nested_field_binding"@)),
            };
            let (after, result) = selection_meaning(
                metadata,
                depth,
                trace,
                table,
                column,
                selection,
            )->Some_0;
            fields_translation(metadata, trace.advanced().advanced(), fields, inner_table) matches Some(
                (inner_after, inner_result),
            ) && match inner_result {
                Err(error) => after == inner_after && result == Err::<
                    (JoinView, ColumnReferenceView),
                    ErrorView,
                >(error),
                Ok(select) => {
                    &&& after == inner_after.advanced()
                    &&& result matches Ok((join, _)) && selected_by(join) == Some(
                        SelectView { from: selected_by(join)->Some_0.from, ..select },
                    )
                },
            }
        }),
{
    lemma_fields_translation(
        metadata,
        (depth - 1) as nat,
        trace.advanced().advanced(),
        fields,
        TableView {
            name: name.0@,
            reference: aliased(trace.advanced().alias("nested_field_binding"@)),
        },
    );
}

/// The select statement in the from clause of a join's select statement.
pub open spec fn selected_by(join: JoinView) -> Option<SelectView> {
    let select = match join {
        JoinView::LeftOuterJoinLateral { select, alias } => *select,
        JoinView::InnerJoinLateral { select, alias } => *select,
    };
    match select.from {
        Some(FromView::Select { select, alias }) => Some(*select),
        _ => None,
    }
}

/// The first `n` fields of a list are columns, each as a whole.
pub open spec fn are_whole_columns(fields: Seq<(Seq<char>, FieldView)>, n: nat) -> bool {
    forall|i: int|
        0 <= i < n ==> ((#[trigger] fields[i]).1 matches FieldView::Column { column, fields: None })
}

proof fn lemma_whole_columns_collect_no_relationship(
    metadata: Metadata,
    depth: nat,
    trace: Trace,
    fields: Seq<(Seq<char>, FieldView)>,
    n: nat,
    table: TableView,
    info: FieldsView,
)
    requires
        are_whole_columns(fields, n),
    ensures
        list_meaning(metadata, depth, trace, fields, n, table, info) matches Some((after, _))
            ==> after.relationships == trace.relationships,
    decreases depth, 4nat, n,
{
    if n > 0 {
        lemma_whole_columns_collect_no_relationship(
            metadata,
            depth,
            trace,
            fields,
            (n - 1) as nat,
            table,
            info,
        );
        if let Some((after, Ok(_))) = list_meaning(
            metadata,
            depth,
            trace,
            fields,
            (n - 1) as nat,
            table,
            info,
        ) {
            let column = fields[n - 1].1->column;
            assert(fields[n - 1].1 == (FieldView::Column { column, fields: None }));
            assert(field_meaning(
                metadata,
                depth,
                after,
                fields[n - 1].0,
                fields[n - 1].1,
                table,
                info,
            ) == column_meaning(metadata, depth, after, fields[n - 1].0, column, table, info));
            lemma_whole_column_collects_no_relationship(
                metadata,
                depth,
                after,
                fields[n - 1].0,
                column,
                table,
                info,
            );
        }
    }
}

/// A column that is requested as a whole collects no relationship field, however deep it is
/// unpacked. Where it can be translated, it comes to one column, under the given alias, and to at
/// most one join.
pub proof fn lemma_whole_column_collects_no_relationship(
    metadata: Metadata,
    depth: nat,
    trace: Trace,
    alias: Seq<char>,
    column: Seq<char>,
    table: TableView,
    info: FieldsView,
)
    ensures
        column_meaning(metadata, depth, trace, alias, column, table, info) matches Some(
            (after, result),
        ) ==> after.relationships == trace.relationships && (result matches Ok(more)
            ==> more.columns.len() == 1 && more.columns[0].0 == alias && more.joins.len() <= 1),
    decreases depth, 2nat, 0nat,
{
    if let Ok(column_info) = info.column(column) {
        if let Some(selection) = unpacked(metadata, column_info.data_type) {
            if let Ok(binding) = binding_of(
                table,
                column_info,
                trace.alias("nested_fields"@),
                selection,
            ) {
                if depth > 0 {
                    if let Some(inner) = fields_of(metadata, binding.type_of_value) {
                        lemma_whole_columns_collect_no_relationship(
                            metadata,
                            (depth - 1) as nat,
                            trace.advanced().advanced(),
                            binding.fields,
                            binding.fields.len(),
                            TableView {
                                name: binding.type_of_value,
                                reference: aliased(
                                    trace.advanced().alias("nested_field_binding"@),
                                ),
                            },
                            inner,
                        );
                    }
                }
            }
        }
    }
}

/// All fields of what the metadata names can be looked up: selecting them never asks for a column
/// that is missing.
pub proof fn lemma_all_fields_are_found(metadata: Metadata, name: Seq<char>, i: int)
    requires
        fields_of(metadata, name) matches Some(info) && 0 <= i < all_fields(info).len(),
    ensures
        ({
            let info = fields_of(metadata, name)->Some_0;
            all_fields(info)[i].1 matches FieldView::Column { column, fields: None } && info.column(
                column,
            ) is Ok
        }),
{
    if metadata.tables.0@.contains_key(name) {
        let columns = metadata.tables.0@[name].columns;
        assert(has_key(columns.entries(), columns.entries()[i].0@));
    } else if metadata.native_queries.0@.contains_key(name) {
        let columns = metadata.native_queries.0@[name].columns;
        assert(has_key(columns.entries(), columns.entries()[i].0@));
    } else {
        let fields = metadata.composite_types.0@[name].fields;
        assert(has_key(fields.entries(), fields.entries()[i].0@));
    }
}

////// Table aliases

/// The indexes of the table aliases that a select statement binds, in its from clause and in its
/// joins.
pub open spec fn select_indexes(select: SelectView) -> Seq<nat>
    decreases select, 0nat,
{
    (match select.from {
        None => Seq::empty(),
        Some(from) => from_indexes(from),
    }) + joins_indexes(select.joins, select.joins.len())
}

/// The indexes of the table aliases that a from clause binds.
pub open spec fn from_indexes(from: FromView) -> Seq<nat>
    decreases from, 0nat,
{
    match from {
        FromView::Table { reference, alias } => seq![alias.unique_index],
        FromView::Select { select, alias } => seq![alias.unique_index] + select_indexes(*select),
        FromView::Variables { alias } => seq![alias.unique_index],
    }
}

/// The indexes of the table aliases that a join binds.
pub open spec fn join_indexes(join: JoinView) -> Seq<nat>
    decreases join, 0nat,
{
    match join {
        JoinView::LeftOuterJoinLateral { select, alias } => seq![alias.unique_index]
            + select_indexes(*select),
        JoinView::InnerJoinLateral { select, alias } => seq![alias.unique_index] + select_indexes(
            *select,
        ),
    }
}

/// The indexes of the table aliases that the first `n` joins of a list bind.
pub open spec fn joins_indexes(joins: Seq<JoinView>, n: nat) -> Seq<nat>
    decreases joins, n,
{
    if n == 0 || n > joins.len() {
        Seq::empty()
    } else {
        joins_indexes(joins, (n - 1) as nat) + join_indexes(joins[n - 1])
    }
}

/// The indexes of the table aliases of relationship fields.
pub open spec fn relationship_indexes(relationships: Seq<JoinFieldView>) -> Seq<nat> {
    Seq::new(relationships.len(), |i: int| relationships[i].table_alias.unique_index)
}

/// Of the indexes from `first` up to `last`, each is used at most once: by one list or by the other.
pub open spec fn used_once(bound: Seq<nat>, collected: Seq<nat>, first: nat, last: nat) -> bool {
    &&& forall|i: int| 0 <= i < bound.len() ==> first <= #[trigger] bound[i] < last
    &&& forall|i: int| 0 <= i < collected.len() ==> first <= #[trigger] collected[i] < last
    &&& bound.no_duplicates()
    &&& collected.no_duplicates()
    &&& forall|i: int, j: int|
        0 <= i < bound.len() && 0 <= j < collected.len() ==> #[trigger] bound[i]
            != #[trigger] collected[j]
}

/// The joins of a translation bind, and the relationship fields that it collects take, different
/// table aliases, which were all made by the translation.
pub open spec fn aliases_are_unique(before: Trace, joins: Seq<JoinView>, after: Trace) -> bool {
    used_once(
        joins_indexes(joins, joins.len()),
        relationship_indexes(
            after.relationships.skip(before.relationships.len() as int),
        ),
        before.index,
        after.index,
    )
}

/// A list of joins binds what its parts bind.
proof fn lemma_joins_indexes_of_parts(a: Seq<JoinView>, b: Seq<JoinView>, n: nat)
    requires
        n <= b.len(),
    ensures
        joins_indexes(a + b, a.len() + n) == joins_indexes(a, a.len()) + joins_indexes(b, n),
    decreases n,
{
    if n == 0 {
        lemma_joins_indexes_of_prefix(a, b, a.len());
        assert(joins_indexes(a + b, a.len()) =~= joins_indexes(a, a.len()) + joins_indexes(b, 0));
    } else {
        lemma_joins_indexes_of_parts(a, b, (n - 1) as nat);
        assert((a + b)[a.len() + n - 1] == b[n - 1]);
        assert(joins_indexes(a + b, a.len() + n) =~= joins_indexes(a, a.len()) + joins_indexes(b, n));
    }
}

proof fn lemma_joins_indexes_of_prefix(a: Seq<JoinView>, b: Seq<JoinView>, n: nat)
    requires
        n <= a.len(),
    ensures
        joins_indexes(a + b, n) == joins_indexes(a, n),
    decreases n,
{
    if n > 0 {
        lemma_joins_indexes_of_prefix(a, b, (n - 1) as nat);
        assert((a + b)[n - 1] == a[n - 1]);
    }
}

/// What is translated one after the other takes different table aliases.
proof fn lemma_unique_in_sequence(
    before: Trace,
    first_joins: Seq<JoinView>,
    between: Trace,
    second_joins: Seq<JoinView>,
    after: Trace,
)
    requires
        grows(before, between),
        grows(between, after),
        aliases_are_unique(before, first_joins, between),
        aliases_are_unique(between, second_joins, after),
    ensures
        aliases_are_unique(before, first_joins + second_joins, after),
{
    lemma_joins_indexes_of_parts(first_joins, second_joins, second_joins.len());
    let first = relationship_indexes(
        between.relationships.skip(before.relationships.len() as int),
    );
    let second = relationship_indexes(
        after.relationships.skip(between.relationships.len() as int),
    );
    let both = relationship_indexes(after.relationships.skip(before.relationships.len() as int));
    assert(both =~= first + second);
    let a = joins_indexes(first_joins, first_joins.len());
    let b = joins_indexes(second_joins, second_joins.len());
    assert((a + b).no_duplicates());
    assert((first + second).no_duplicates());
}

proof fn lemma_list_aliases(
    metadata: Metadata,
    depth: nat,
    trace: Trace,
    fields: Seq<(Seq<char>, FieldView)>,
    n: nat,
    table: TableView,
    info: FieldsView,
)
    ensures
        list_meaning(metadata, depth, trace, fields, n, table, info) matches Some(
            (after, Ok(columns)),
        ) ==> aliases_are_unique(trace, columns.joins, after),
    decreases depth, 4nat, n,
{
    if n > 0 {
        lemma_list_aliases(metadata, depth, trace, fields, (n - 1) as nat, table, info);
        lemma_list_grows(metadata, depth, trace, fields, (n - 1) as nat, n, table, info);
        if let Some((between, Ok(columns))) = list_meaning(
            metadata,
            depth,
            trace,
            fields,
            (n - 1) as nat,
            table,
            info,
        ) {
            let alias = fields[n - 1].0;
            let field = fields[n - 1].1;
            lemma_field_aliases(metadata, depth, between, alias, field, table, info);
            if let Some((after, Ok(more))) = field_meaning(
                metadata,
                depth,
                between,
                alias,
                field,
                table,
                info,
            ) {
                lemma_unique_in_sequence(trace, columns.joins, between, more.joins, after);
            }
        }
    }
}

proof fn lemma_field_aliases(
    metadata: Metadata,
    depth: nat,
    trace: Trace,
    alias: Seq<char>,
    field: FieldView,
    table: TableView,
    info: FieldsView,
)
    ensures
        field_meaning(metadata, depth, trace, alias, field, table, info) matches Some(
            (after, Ok(more)),
        ) ==> aliases_are_unique(trace, more.joins, after),
    decreases depth, 3nat, 0nat,
{
    match field {
        FieldView::Column { column, fields: None } => if let Ok(column_info) = info.column(column) {
            match column_info.data_type {
                Type::ScalarType(_) => {},
                Type::CompositeType(name) => if let Some(inner) = fields_of(metadata, name.0@) {
                    lemma_selection_aliases(
                        metadata,
                        depth,
                        trace,
                        table,
                        column_info,
                        NestedFieldView::Object(all_fields(inner)),
                    );
                },
                Type::ArrayType(element_type) => if let Type::CompositeType(name) = *element_type {
                    if let Some(inner) = fields_of(metadata, name.0@) {
                        lemma_selection_aliases(
                            metadata,
                            depth,
                            trace,
                            table,
                            column_info,
                            NestedFieldView::Array(
                                Box::new(NestedFieldView::Object(all_fields(inner))),
                            ),
                        );
                    }
                },
            }
        },
        FieldView::Column { column, fields: Some(selection) } => {
            if let Ok(column_info) = info.column(column) {
                lemma_selection_aliases(metadata, depth, trace, table, column_info, selection);
            }
        },
        FieldView::Relationship { .. } => {},
    }
}

proof fn lemma_selection_aliases(
    metadata: Metadata,
    depth: nat,
    trace: Trace,
    table: TableView,
    column: ColumnInfo,
    selection: NestedFieldView,
)
    ensures
        selection_meaning(metadata, depth, trace, table, column, selection) matches Some(
            (after, Ok((join, _))),
        ) ==> aliases_are_unique(trace, seq![join], after),
    decreases depth, 0nat, 0nat,
{
    if let Some((after, Ok((join, _)))) = selection_meaning(
        metadata,
        depth,
        trace,
        table,
        column,
        selection,
    ) {
        let binding = binding_of(
            table,
            column,
            trace.alias("nested_fields"@),
            selection,
        )->Ok_0;
        let inner_trace = trace.advanced().advanced();
        let inner_table = TableView {
            name: binding.type_of_value,
            reference: aliased(trace.advanced().alias("nested_field_binding"@)),
        };
        let inner_depth = (depth - 1) as nat;
        let (inner_after, result) = fields_meaning(
            metadata,
            inner_depth,
            inner_trace,
            binding.fields,
            inner_table,
        )->Some_0;
        let fields = result->Ok_0;
        let info = fields_of(metadata, inner_table.name)->Some_0;
        lemma_fields_grow(metadata, inner_depth, inner_trace, binding.fields, inner_table);
        lemma_list_aliases(
            metadata,
            inner_depth,
            inner_trace,
            binding.fields,
            binding.fields.len(),
            inner_table,
            info,
        );
        let inner = joins_indexes(fields.joins, fields.joins.len());
        let collecting = *join->LeftOuterJoinLateral_select;
        let selecting = *collecting.from->Some_0->Select_select;
        let binding_select = *selecting.from->Some_0->Select_select;
        reveal_with_fuel(joins_indexes, 2);
        assert(select_indexes(binding_select) =~= Seq::empty());
        assert(from_indexes(selecting.from->Some_0) =~= seq![trace.index + 1]);
        assert(select_indexes(selecting) =~= seq![trace.index + 1] + inner);
        assert(from_indexes(collecting.from->Some_0) =~= seq![trace.index, trace.index + 1] + inner);
        assert(select_indexes(collecting) =~= seq![trace.index, trace.index + 1] + inner);
        assert(join_indexes(join) =~= seq![inner_after.index, trace.index, trace.index + 1] + inner);
        assert(joins_indexes(seq![join], 1) =~= seq![
            inner_after.index,
            trace.index,
            trace.index + 1,
        ] + inner);
        assert(after.relationships == inner_after.relationships);
    }
}

/// Table aliases are unique: in the translation of fields, no two joins, however deeply nested,
/// share the index of a table alias, nor do they share it with a relationship field.
pub proof fn lemma_aliases_of_fields_are_unique(
    metadata: Metadata,
    trace: Trace,
    fields: Seq<(Seq<char>, FieldView)>,
    table: TableView,
)
    ensures
        fields_translation(metadata, trace, fields, table) matches Some((after, Ok(select)))
            ==> aliases_are_unique(trace, select.joins, after),
{
    if let Some(info) = fields_of(metadata, table.name) {
        let depth = choose|depth: nat|
            fields_meaning(metadata, depth, trace, fields, table) is Some;
        lemma_list_aliases(metadata, depth, trace, fields, fields.len(), table, info);
    }
}

} // verus!
