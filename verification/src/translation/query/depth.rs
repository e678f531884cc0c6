//! How deep the translation of fields goes.

use crate::metadata::{Metadata, Type};
use crate::models::{FieldView, NestedFieldView};
use crate::sql::ast::SelectView;
use crate::translation::error::ErrorView;
use crate::translation::helpers::{fields_of, ColumnInfo, FieldsView, TableView};
use crate::translation::query::selection::{
    aliased, all_fields, binding_of, column_meaning, field_meaning, fields_meaning,
    lemma_fields_grow, lemma_list_grows, list_meaning, selection_meaning, Trace,
};
use vstd::prelude::*;

verus! {

////// Following a translation further down than it goes makes no difference

/// A translation has come to an end at a depth, and goes no further down than another depth: that
/// one is greater, or there are no more levels than the table aliases that were made.
pub open spec fn reaches<T>(
    depth: nat,
    deeper: nat,
    trace: Trace,
    meaning: Option<(Trace, T)>,
) -> bool {
    meaning matches Some((after, _)) && (depth <= deeper || after.index <= trace.index + deeper)
}

/// A translation that has come to an end is the same at any depth that it reaches.
pub proof fn lemma_fields_deeper(
    metadata: Metadata,
    depth: nat,
    deeper: nat,
    trace: Trace,
    fields: Seq<(Seq<char>, FieldView)>,
    table: TableView,
)
    requires
        reaches(depth, deeper, trace, fields_meaning(metadata, depth, trace, fields, table)),
    ensures
        fields_meaning(metadata, deeper, trace, fields, table) == fields_meaning(
            metadata,
            depth,
            trace,
            fields,
            table,
        ),
    decreases depth, 5nat, 0nat,
{
    if let Some(info) = fields_of(metadata, table.name) {
        lemma_list_deeper(metadata, depth, deeper, trace, fields, fields.len(), table, info);
    }
}

proof fn lemma_list_deeper(
    metadata: Metadata,
    depth: nat,
    deeper: nat,
    trace: Trace,
    fields: Seq<(Seq<char>, FieldView)>,
    n: nat,
    table: TableView,
    info: FieldsView,
)
    requires
        reaches(depth, deeper, trace, list_meaning(metadata, depth, trace, fields, n, table, info)),
    ensures
        list_meaning(metadata, deeper, trace, fields, n, table, info) == list_meaning(
            metadata,
            depth,
            trace,
            fields,
            n,
            table,
            info,
        ),
    decreases depth, 4nat, n,
{
    if n > 0 {
        lemma_list_grows(metadata, depth, trace, fields, (n - 1) as nat, n, table, info);
        lemma_list_deeper(metadata, depth, deeper, trace, fields, (n - 1) as nat, table, info);
        if let Some((after, Ok(_))) = list_meaning(
            metadata,
            depth,
            trace,
            fields,
            (n - 1) as nat,
            table,
            info,
        ) {
            lemma_field_deeper(
                metadata,
                depth,
                deeper,
                after,
                fields[n - 1].0,
                fields[n - 1].1,
                table,
                info,
            );
        }
    }
}

proof fn lemma_field_deeper(
    metadata: Metadata,
    depth: nat,
    deeper: nat,
    trace: Trace,
    alias: Seq<char>,
    field: FieldView,
    table: TableView,
    info: FieldsView,
)
    requires
        reaches(depth, deeper, trace, field_meaning(metadata, depth, trace, alias, field, table, info)),
    ensures
        field_meaning(metadata, deeper, trace, alias, field, table, info) == field_meaning(
            metadata,
            depth,
            trace,
            alias,
            field,
            table,
            info,
        ),
    decreases depth, 3nat, 0nat,
{
    match field {
        FieldView::Column { column, fields: None } => {
            lemma_column_deeper(metadata, depth, deeper, trace, alias, column, table, info);
        },
        FieldView::Column { column, fields: Some(selection) } => {
            if let Ok(column_info) = info.column(column) {
                lemma_selection_deeper(
                    metadata,
                    depth,
                    deeper,
                    trace,
                    table,
                    column_info,
                    selection,
                );
            }
        },
        FieldView::Relationship { .. } => {},
    }
}

proof fn lemma_column_deeper(
    metadata: Metadata,
    depth: nat,
    deeper: nat,
    trace: Trace,
    alias: Seq<char>,
    column: Seq<char>,
    table: TableView,
    info: FieldsView,
)
    requires
        reaches(depth, deeper, trace, column_meaning(metadata, depth, trace, alias, column, table, info)),
    ensures
        column_meaning(metadata, deeper, trace, alias, column, table, info) == column_meaning(
            metadata,
            depth,
            trace,
            alias,
            column,
            table,
            info,
        ),
    decreases depth, 2nat, 0nat,
{
    if let Ok(column_info) = info.column(column) {
        match column_info.data_type {
            Type::ScalarType(_) => {},
            Type::CompositeType(name) => if let Some(inner) = fields_of(metadata, name.0@) {
                lemma_selection_deeper(
                    metadata,
                    depth,
                    deeper,
                    trace,
                    table,
                    column_info,
                    NestedFieldView::Object(all_fields(inner)),
                );
            },
            Type::ArrayType(element_type) => if let Type::CompositeType(name) = *element_type {
                if let Some(inner) = fields_of(metadata, name.0@) {
                    lemma_selection_deeper(
                        metadata,
                        depth,
                        deeper,
                        trace,
                        table,
                        column_info,
                        NestedFieldView::Array(
                            Box::new(NestedFieldView::Object(all_fields(inner))),
                        ),
                    );
                }
            },
        }
    }
}

proof fn lemma_selection_deeper(
    metadata: Metadata,
    depth: nat,
    deeper: nat,
    trace: Trace,
    table: TableView,
    column: ColumnInfo,
    selection: NestedFieldView,
)
    requires
        reaches(depth, deeper, trace, selection_meaning(metadata, depth, trace, table, column, selection)),
    ensures
        selection_meaning(metadata, deeper, trace, table, column, selection) == selection_meaning(
            metadata,
            depth,
            trace,
            table,
            column,
            selection,
        ),
    decreases depth, 0nat, 0nat,
{
    if let Ok(binding) = binding_of(table, column, trace.alias("nested_fields"@), selection) {
        lemma_fields_grow(
            metadata,
            (depth - 1) as nat,
            trace.advanced().advanced(),
            binding.fields,
            TableView {
                name: binding.type_of_value,
                reference: aliased(trace.advanced().alias("nested_field_binding"@)),
            },
        );
        lemma_fields_deeper(
            metadata,
            (depth - 1) as nat,
            (deeper - 1) as nat,
            trace.advanced().advanced(),
            binding.fields,
            TableView {
                name: binding.type_of_value,
                reference: aliased(trace.advanced().alias("nested_field_binding"@)),
            },
        );
    }
}

////// The translation of fields, to whatever depth it goes

/// The translation of a list of fields of a table: how far it comes, and the select statement or
/// the error that it ends with. There is none where the translation goes on without end.
pub open spec fn fields_translation(
    metadata: Metadata,
    trace: Trace,
    fields: Seq<(Seq<char>, FieldView)>,
    table: TableView,
) -> Option<(Trace, Result<SelectView, ErrorView>)> {
    if exists|depth: nat| fields_meaning(metadata, depth, trace, fields, table) is Some {
        let depth = choose|depth: nat|
            fields_meaning(metadata, depth, trace, fields, table) is Some;
        fields_meaning(metadata, depth, trace, fields, table)
    } else {
        None
    }
}

/// At any depth at which the translation of fields has come to an end, it is the translation.
pub proof fn lemma_fields_translation(
    metadata: Metadata,
    depth: nat,
    trace: Trace,
    fields: Seq<(Seq<char>, FieldView)>,
    table: TableView,
)
    requires
        fields_meaning(metadata, depth, trace, fields, table) is Some,
    ensures
        fields_translation(metadata, trace, fields, table) == fields_meaning(
            metadata,
            depth,
            trace,
            fields,
            table,
        ),
{
    let chosen = choose|depth: nat| fields_meaning(metadata, depth, trace, fields, table) is Some;
    if depth <= chosen {
        lemma_fields_deeper(metadata, depth, chosen, trace, fields, table);
    } else {
        lemma_fields_deeper(metadata, chosen, depth, trace, fields, table);
    }
}

/// A translation of fields that ends with an index for each table alias goes down fewer levels than
/// there are indexes.
pub proof fn lemma_all_levels_suffice(
    metadata: Metadata,
    trace: Trace,
    fields: Seq<(Seq<char>, FieldView)>,
    table: TableView,
)
    ensures
        fields_translation(metadata, trace, fields, table) matches Some((after, _)) && after.index
            <= u64::MAX ==> fields_meaning(metadata, u64::MAX as nat, trace, fields, table)
            == fields_translation(metadata, trace, fields, table),
{
    if let Some((after, _)) = fields_translation(metadata, trace, fields, table) {
        let depth = choose|depth: nat|
            fields_meaning(metadata, depth, trace, fields, table) is Some;
        if after.index <= u64::MAX {
            lemma_fields_deeper(metadata, depth, u64::MAX as nat, trace, fields, table);
        }
    }
}

////// Where no composite type contains itself, every translation ends

/// The name of the composite type that values of a type hold, where they are composite or arrays
/// of composite values.
pub open spec fn composite_part(data_type: Type) -> Option<Seq<char>> {
    match data_type {
        Type::ScalarType(_) => None,
        Type::CompositeType(name) => Some(name.0@),
        Type::ArrayType(element_type) => match *element_type {
            Type::CompositeType(name) => Some(name.0@),
            _ => None,
        },
    }
}

/// Each composite type that a column or field holds ranks below what the column or field is of.
pub open spec fn ranks_types(metadata: Metadata, rank: spec_fn(Seq<char>) -> nat) -> bool {
    forall|owner: Seq<char>, column: Seq<char>|
        #![trigger fields_of(metadata, owner)->Some_0.columns[column]]
        fields_of(metadata, owner) is Some && fields_of(
            metadata,
            owner,
        )->Some_0.columns.contains_key(column) ==> (composite_part(
            fields_of(metadata, owner)->Some_0.columns[column].data_type,
        ) matches Some(inner) ==> rank(inner) < rank(owner))
}

/// No composite type contains itself, neither directly nor through other types.
pub open spec fn no_type_contains_itself(metadata: Metadata) -> bool {
    exists|rank: spec_fn(Seq<char>) -> nat| ranks_types(metadata, rank)
}

/// The nesting of the selections in a field.
spec fn field_height(field: FieldView) -> nat
    decreases field,
{
    match field {
        FieldView::Column { column, fields: Some(selection) } => 1 + selection_height(selection),
        _ => 0,
    }
}

spec fn selection_height(selection: NestedFieldView) -> nat
    decreases selection,
{
    match selection {
        NestedFieldView::Object(fields) => list_height(fields, fields.len()),
        NestedFieldView::Array(elements) => selection_height(*elements),
    }
}

/// The greatest nesting of the selections in the first `n` fields of a list.
spec fn list_height(fields: Seq<(Seq<char>, FieldView)>, n: nat) -> nat
    decreases fields, n,
{
    if n == 0 || n > fields.len() {
        0
    } else {
        let last = field_height(fields[n - 1].1);
        let rest = list_height(fields, (n - 1) as nat);
        if last > rest {
            last
        } else {
            rest
        }
    }
}

proof fn lemma_list_height(fields: Seq<(Seq<char>, FieldView)>, i: int, n: nat)
    requires
        0 <= i < n <= fields.len(),
    ensures
        field_height(fields[i].1) <= list_height(fields, n),
    decreases n,
{
    if i < n - 1 {
        lemma_list_height(fields, i, (n - 1) as nat);
    }
}

proof fn lemma_all_fields_height(info: FieldsView, n: nat)
    requires
        n <= all_fields(info).len(),
    ensures
        list_height(all_fields(info), n) == 0,
    decreases n,
{
    if n > 0 {
        lemma_all_fields_height(info, (n - 1) as nat);
        assert(field_height(all_fields(info)[n - 1].1) == 0);
    }
}

/// The depth that suffices for a list of fields of what `name` names.
proof fn depth_of_fields(
    metadata: Metadata,
    rank: spec_fn(Seq<char>) -> nat,
    fields: Seq<(Seq<char>, FieldView)>,
    name: Seq<char>,
) -> (depth: nat)
    requires
        ranks_types(metadata, rank),
    ensures
        forall|trace: Trace, table: TableView|
            table.name == name ==> (#[trigger] fields_meaning(
                metadata,
                depth,
                trace,
                fields,
                table,
            )) is Some,
    decreases list_height(fields, fields.len()), rank(name), 2nat, 0nat,
{
    match fields_of(metadata, name) {
        None => 0,
        Some(info) => {
            let depth = depth_of_list(metadata, rank, fields, fields.len(), name, info);
            assert forall|trace: Trace, table: TableView| table.name == name implies (
            #[trigger] fields_meaning(metadata, depth, trace, fields, table)) is Some by {
                assert(list_meaning(metadata, depth, trace, fields, fields.len(), table, info)
                    is Some);
            }
            depth
        },
    }
}

proof fn depth_of_list(
    metadata: Metadata,
    rank: spec_fn(Seq<char>) -> nat,
    fields: Seq<(Seq<char>, FieldView)>,
    n: nat,
    name: Seq<char>,
    info: FieldsView,
) -> (depth: nat)
    requires
        ranks_types(metadata, rank),
        fields_of(metadata, name) == Some(info),
        n <= fields.len(),
    ensures
        forall|trace: Trace, table: TableView|
            (#[trigger] list_meaning(metadata, depth, trace, fields, n, table, info)) is Some,
    decreases list_height(fields, fields.len()), rank(name), 1nat, n,
{
    if n == 0 {
        0
    } else {
        let first = depth_of_list(metadata, rank, fields, (n - 1) as nat, name, info);
        lemma_list_height(fields, n - 1, fields.len());
        let second = depth_of_field(
            metadata,
            rank,
            list_height(fields, fields.len()),
            fields[n - 1].0,
            fields[n - 1].1,
            name,
            info,
        );
        let depth = if first > second {
            first
        } else {
            second
        };
        assert forall|trace: Trace, table: TableView|
            (#[trigger] list_meaning(metadata, depth, trace, fields, n, table, info)) is Some by {
            assert(list_meaning(metadata, first, trace, fields, (n - 1) as nat, table, info)
                is Some);
            lemma_list_deeper(
                metadata,
                first,
                depth,
                trace,
                fields,
                (n - 1) as nat,
                table,
                info,
            );
            if let Some((after, Ok(_))) = list_meaning(
                metadata,
                depth,
                trace,
                fields,
                (n - 1) as nat,
                table,
                info,
            ) {
                assert(field_meaning(
                    metadata,
                    second,
                    after,
                    fields[n - 1].0,
                    fields[n - 1].1,
                    table,
                    info,
                ) is Some);
                lemma_field_deeper(
                    metadata,
                    second,
                    depth,
                    after,
                    fields[n - 1].0,
                    fields[n - 1].1,
                    table,
                    info,
                );
            }
        }
        depth
    }
}

proof fn depth_of_field(
    metadata: Metadata,
    rank: spec_fn(Seq<char>) -> nat,
    height: nat,
    alias: Seq<char>,
    field: FieldView,
    name: Seq<char>,
    info: FieldsView,
) -> (depth: nat)
    requires
        ranks_types(metadata, rank),
        fields_of(metadata, name) == Some(info),
        field_height(field) <= height,
    ensures
        forall|trace: Trace, table: TableView|
            (#[trigger] field_meaning(metadata, depth, trace, alias, field, table, info)) is Some,
    decreases height, rank(name), 0nat, 0nat,
{
    let depth = match field {
        FieldView::Relationship { .. } => 0,
        FieldView::Column { column, fields } => match info.column(column) {
            Err(_) => 0,
            Ok(column_info) => match composite_part(column_info.data_type) {
                None => 0,
                Some(inner_name) => match fields {
                    None => match fields_of(metadata, inner_name) {
                        None => 0,
                        Some(inner) => {
                            lemma_all_fields_height(inner, all_fields(inner).len());
                            assert(rank(inner_name) < rank(name)) by {
                                assert(fields_of(metadata, name)->Some_0.columns[column]
                                    == column_info);
                            }
                            depth_of_fields(metadata, rank, all_fields(inner), inner_name) + 1
                        },
                    },
                    Some(selection) => {
                        reveal_with_fuel(selection_height, 3);
                        depth_of_fields(metadata, rank, selected_fields(selection), inner_name) + 1
                    },
                },
            },
        },
    };
    assert forall|trace: Trace, table: TableView|
        (#[trigger] field_meaning(metadata, depth, trace, alias, field, table, info)) is Some by {
        match field {
            FieldView::Relationship { .. } => {},
            FieldView::Column { column, fields } => if let Ok(column_info) = info.column(column) {
                match fields {
                    None => match column_info.data_type {
                        Type::ScalarType(_) => {},
                        Type::CompositeType(inner_name) => {
                            if let Some(inner) = fields_of(metadata, inner_name.0@) {
                                lemma_selection_ends(
                                    metadata,
                                    depth,
                                    trace,
                                    table,
                                    column_info,
                                    NestedFieldView::Object(all_fields(inner)),
                                );
                            }
                        },
                        Type::ArrayType(element_type) => {
                            if let Type::CompositeType(inner_name) = *element_type {
                                if let Some(inner) = fields_of(metadata, inner_name.0@) {
                                    lemma_selection_ends(
                                        metadata,
                                        depth,
                                        trace,
                                        table,
                                        column_info,
                                        NestedFieldView::Array(
                                            Box::new(NestedFieldView::Object(all_fields(inner))),
                                        ),
                                    );
                                }
                            }
                        },
                    },
                    Some(selection) => {
                        lemma_selection_ends(
                            metadata,
                            depth,
                            trace,
                            table,
                            column_info,
                            selection,
                        );
                    },
                }
            },
        }
    }
    depth
}

/// The fields that a selection selects.
spec fn selected_fields(selection: NestedFieldView) -> Seq<(Seq<char>, FieldView)> {
    match selection {
        NestedFieldView::Object(fields) => fields,
        NestedFieldView::Array(elements) => match *elements {
            NestedFieldView::Object(fields) => fields,
            NestedFieldView::Array(_) => Seq::empty(),
        },
    }
}

proof fn lemma_selection_ends(
    metadata: Metadata,
    depth: nat,
    trace: Trace,
    table: TableView,
    column: ColumnInfo,
    selection: NestedFieldView,
)
    requires
        composite_part(column.data_type) matches Some(inner_name) ==> depth > 0 && (forall|
            trace: Trace,
            table: TableView,
        |
            table.name == inner_name ==> (#[trigger] fields_meaning(
                metadata,
                (depth - 1) as nat,
                trace,
                selected_fields(selection),
                table,
            )) is Some),
    ensures
        selection_meaning(metadata, depth, trace, table, column, selection) is Some,
{
    if let Ok(binding) = binding_of(table, column, trace.alias("nested_fields"@), selection) {
        assert(composite_part(column.data_type) == Some(binding.type_of_value));
        assert(binding.fields == selected_fields(selection));
        let inner_table = TableView {
            name: binding.type_of_value,
            reference: aliased(trace.advanced().alias("nested_field_binding"@)),
        };
        assert(fields_meaning(
            metadata,
            (depth - 1) as nat,
            trace.advanced().advanced(),
            selected_fields(selection),
            inner_table,
        ) is Some);
    }
}

/// The translation of fields ends, whatever the fields and the table, where no composite type of the
/// metadata contains itself.
pub proof fn lemma_translation_ends(
    metadata: Metadata,
    trace: Trace,
    fields: Seq<(Seq<char>, FieldView)>,
    table: TableView,
)
    requires
        no_type_contains_itself(metadata),
    ensures
        fields_translation(metadata, trace, fields, table) is Some,
{
    let rank = choose|rank: spec_fn(Seq<char>) -> nat| ranks_types(metadata, rank);
    let depth = depth_of_fields(metadata, rank, fields, table.name);
    assert(fields_meaning(metadata, depth, trace, fields, table) is Some);
    lemma_fields_translation(metadata, depth, trace, fields, table);
}

} // verus!
