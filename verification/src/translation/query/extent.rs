//! How far the translation of fields goes, found out without translating them.
//!
//! A translation makes one table alias after the other, and goes one level deeper for each
//! selection from a composite type. Whether it ends within a number of levels, and whether there is
//! an index for each of its aliases, can be told from the fields and the metadata.

use crate::metadata::Type;
use crate::models::{
    clone_fields, fields_view, Field, NestedArray, NestedField, NestedObject, Query,
};
use crate::sql::ast::{From, Select, TableAliasView};
use crate::translation::error::{Error, ErrorView};
use crate::translation::helpers::{
    ColumnInfo, CompositeTypeInfo, Env, State, TableNameAndReference, TableView,
};
use crate::translation::query::depth::lemma_fields_translation;
use crate::translation::query::fields::{
    ends_in_range, select_result, trace_of, translate_fields, unpack_composite_type,
};
use crate::translation::query::relationships::JoinFieldInfo;
use crate::translation::query::root::{
    requested_fields, start_of, translate_rows_query, translates_rows, ReturnsFields,
};
use crate::translation::query::selection::{
    aliased, binding_of, column_meaning, field_meaning, fields_meaning, lemma_fields_grow,
    lemma_first_error_ends_the_list, lemma_list_grows, lemma_selection_grows, list_meaning,
    selection_meaning, Trace,
};
use crate::translation::translators::Translators;
use vstd::prelude::*;

verus! {

/// `extent` is how far a translation goes: the index that it leaves to the next table alias, and
/// whether it succeeds. There is none where the translation does not end, or has a table alias
/// without an index.
pub open spec fn is_extent<T>(
    extent: Option<(u64, bool)>,
    meaning: Option<(Trace, Result<T, ErrorView>)>,
) -> bool {
    match extent {
        None => !ends_in_range(meaning),
        Some((index, succeeds)) => meaning matches Some((after, result)) && after.index == index
            && succeeds == (result is Ok),
    }
}

/// The extent of the translation of fields, down to a number of levels.
fn fields_extent(
    levels: u64,
    env: &Env<'_>,
    index: u64,
    fields: &Vec<(String, Field)>,
    name: &str,
    Ghost(trace): Ghost<Trace>,
    Ghost(table): Ghost<TableView>,
) -> (r: Option<(u64, bool)>)
    requires
        trace.index == index,
        table.name == name@,
    ensures
        is_extent(
            r,
            fields_meaning(env.spec_metadata(), levels as nat, trace, fields_view(fields@), table),
        ),
    decreases levels, 5nat,
{
    match env.lookup_composite_type(name) {
        Ok(fields_info) => list_extent(
            levels,
            env,
            index,
            fields,
            &fields_info,
            Ghost(trace),
            Ghost(table),
        ),
        Err(_) => Some((index, false)),
    }
}

fn list_extent(
    levels: u64,
    env: &Env<'_>,
    index: u64,
    fields: &Vec<(String, Field)>,
    fields_info: &CompositeTypeInfo<'_>,
    Ghost(trace): Ghost<Trace>,
    Ghost(table): Ghost<TableView>,
) -> (r: Option<(u64, bool)>)
    requires
        trace.index == index,
    ensures
        is_extent(
            r,
            list_meaning(
                env.spec_metadata(),
                levels as nat,
                trace,
                fields_view(fields@),
                fields@.len(),
                table,
                fields_info.described(),
            ),
        ),
    decreases levels, 4nat,
{
    let ghost metadata = env.spec_metadata();
    let ghost info = fields_info.described();
    let ghost requested = fields_view(fields@);
    let ghost mut here = trace;
    let mut next: u64 = index;
    let mut i: usize = 0;
    while i < fields.len()
        invariant
            i <= fields@.len(),
            metadata == env.spec_metadata(),
            info == fields_info.described(),
            requested == fields_view(fields@),
            here.index == next,
            list_meaning(metadata, levels as nat, trace, requested, i as nat, table, info) matches Some(
                (after, Ok(_)),
            ) && after == here,
        decreases fields@.len() - i,
    {
        let ghost meaning = field_meaning(
            metadata,
            levels as nat,
            here,
            requested[i as int].0,
            requested[i as int].1,
            table,
            info,
        );
        let extent = field_extent(
            levels,
            env,
            next,
            &fields[i].1,
            fields_info,
            Ghost(here),
            Ghost(fields@[i as int].0@),
            Ghost(table),
        );
        proof {
            assert(requested[i as int] == (fields@[i as int].0@, fields@[i as int].1@));
            lemma_list_grows(
                metadata,
                levels as nat,
                trace,
                requested,
                (i + 1) as nat,
                requested.len(),
                table,
                info,
            );
        }
        match extent {
            None => {
                return None;
            },
            Some((after, false)) => {
                proof {
                    lemma_first_error_ends_the_list(
                        metadata,
                        levels as nat,
                        trace,
                        requested,
                        (i + 1) as nat,
                        requested.len(),
                        table,
                        info,
                    );
                }
                return Some((after, false));
            },
            Some((after, true)) => {
                next = after;
                proof {
                    here = meaning->Some_0.0;
                }
            },
        }
        i = i + 1;
    }
    Some((next, true))
}

fn field_extent(
    levels: u64,
    env: &Env<'_>,
    index: u64,
    field: &Field,
    fields_info: &CompositeTypeInfo<'_>,
    Ghost(trace): Ghost<Trace>,
    Ghost(alias): Ghost<Seq<char>>,
    Ghost(table): Ghost<TableView>,
) -> (r: Option<(u64, bool)>)
    requires
        trace.index == index,
    ensures
        is_extent(
            r,
            field_meaning(
                env.spec_metadata(),
                levels as nat,
                trace,
                alias,
                field@,
                table,
                fields_info.described(),
            ),
        ),
    decreases levels, 3nat,
{
    match field {
        Field::Column { column, fields: None } => column_extent(
            levels,
            env,
            index,
            column.as_str(),
            fields_info,
            Ghost(trace),
            Ghost(alias),
            Ghost(table),
        ),
        Field::Column { column, fields: Some(selection) } => {
            match fields_info.lookup_column(column.as_str()) {
                Err(_) => Some((index, false)),
                Ok(column_info) => selection_extent(
                    levels,
                    env,
                    index,
                    &column_info,
                    selection,
                    Ghost(trace),
                    Ghost(table),
                ),
            }
        },
        Field::Relationship { .. } => if index == u64::MAX {
            None
        } else {
            Some((index + 1, true))
        },
    }
}

fn column_extent(
    levels: u64,
    env: &Env<'_>,
    index: u64,
    column: &str,
    fields_info: &CompositeTypeInfo<'_>,
    Ghost(trace): Ghost<Trace>,
    Ghost(alias): Ghost<Seq<char>>,
    Ghost(table): Ghost<TableView>,
) -> (r: Option<(u64, bool)>)
    requires
        trace.index == index,
    ensures
        is_extent(
            r,
            column_meaning(
                env.spec_metadata(),
                levels as nat,
                trace,
                alias,
                column@,
                table,
                fields_info.described(),
            ),
        ),
    decreases levels, 2nat,
{
    let column_info: ColumnInfo = match fields_info.lookup_column(column) {
        Ok(info) => info,
        Err(_) => {
            return Some((index, false));
        },
    };
    match &column_info.data_type {
        Type::ScalarType(_) => Some((index, true)),
        Type::CompositeType(composite_type) => match unpack_composite_type(env, composite_type) {
            Err(_) => Some((index, false)),
            Ok(selection) => selection_extent(
                levels,
                env,
                index,
                &column_info,
                &selection,
                Ghost(trace),
                Ghost(table),
            ),
        },
        Type::ArrayType(element_type) => match &**element_type {
            Type::ArrayType(_) => Some((index, false)),
            Type::ScalarType(_) => Some((index, true)),
            Type::CompositeType(composite_type) => match unpack_composite_type(
                env,
                composite_type,
            ) {
                Err(_) => Some((index, false)),
                Ok(fields) => selection_extent(
                    levels,
                    env,
                    index,
                    &column_info,
                    &NestedField::Array(NestedArray { fields: Box::new(fields) }),
                    Ghost(trace),
                    Ghost(table),
                ),
            },
        },
    }
}

fn selection_extent(
    levels: u64,
    env: &Env<'_>,
    index: u64,
    column: &ColumnInfo,
    selection: &NestedField,
    Ghost(trace): Ghost<Trace>,
    Ghost(table): Ghost<TableView>,
) -> (r: Option<(u64, bool)>)
    requires
        trace.index == index,
    ensures
        is_extent(
            r,
            selection_meaning(
                env.spec_metadata(),
                levels as nat,
                trace,
                table,
                *column,
                selection@,
            ),
        ),
    decreases levels, 0nat,
{
    let ghost metadata = env.spec_metadata();
    proof {
        lemma_selection_grows(metadata, levels as nat, trace, table, *column, selection@);
    }
    if index == u64::MAX {
        return None;
    }
    let ghost bound = binding_of(table, *column, trace.alias("nested_fields"@), selection@);
    match selected_fields(
        column,
        selection,
        Ghost(table),
        Ghost(trace.alias("nested_fields"@)),
    ) {
        None => Some((index + 1, false)),
        Some((name, fields)) => {
            if levels == 0 {
                return None;
            }
            let ghost inner_table = TableView {
                name: bound->Ok_0.type_of_value,
                reference: aliased(trace.advanced().alias("nested_field_binding"@)),
            };
            let ghost inner_trace = trace.advanced().advanced();
            proof {
                lemma_fields_grow(
                    metadata,
                    (levels - 1) as nat,
                    inner_trace,
                    bound->Ok_0.fields,
                    inner_table,
                );
            }
            if index + 1 == u64::MAX {
                return None;
            }
            match fields_extent(
                levels - 1,
                env,
                index + 2,
                fields,
                name.as_str(),
                Ghost(inner_trace),
                Ghost(inner_table),
            ) {
                None => None,
                Some((after, false)) => Some((after, false)),
                Some((after, true)) => if after == u64::MAX {
                    None
                } else {
                    Some((after + 1, true))
                },
            }
        },
    }
}

/// The composite type that a selection from a column selects from, and the fields that it selects,
/// where the column has the type for it.
fn selected_fields<'a>(
    column: &'a ColumnInfo,
    selection: &'a NestedField,
    Ghost(table): Ghost<TableView>,
    Ghost(alias): Ghost<TableAliasView>,
) -> (r: Option<(&'a String, &'a Vec<(String, Field)>)>)
    ensures
        match r {
            None => binding_of(table, *column, alias, selection@) is Err,
            Some((name, fields)) => binding_of(table, *column, alias, selection@) matches Ok(binding)
                && binding.type_of_value == name@ && binding.fields == fields_view(fields@),
        },
{
    proof {
        reveal_with_fuel(NestedField::view, 2);
    }
    match selection {
        NestedField::Object(NestedObject { fields }) => match &column.data_type {
            Type::CompositeType(name) => Some((&name.0, fields)),
            _ => None,
        },
        NestedField::Array(NestedArray { fields }) => match &**fields {
            NestedField::Array(_) => None,
            NestedField::Object(NestedObject { fields }) => match &column.data_type {
                Type::ArrayType(element_type) => match &**element_type {
                    Type::CompositeType(name) => Some((&name.0, fields)),
                    _ => None,
                },
                _ => None,
            },
        },
    }
}

////// Translations that are only made where they end

/// Whether the translation of fields ends within a number of levels, with an index for each table
/// alias that it makes.
pub fn fields_end_within(
    levels: u64,
    env: &Env<'_>,
    state: &State,
    fields: &Vec<(String, Field)>,
    current_table: &TableNameAndReference,
    join_relationship_fields: &Vec<JoinFieldInfo>,
) -> (r: bool)
    ensures
        r == ends_in_range(
            fields_meaning(
                env.spec_metadata(),
                levels as nat,
                trace_of(*state, join_relationship_fields@),
                fields_view(fields@),
                current_table@,
            ),
        ),
{
    fields_extent(
        levels,
        env,
        state.current_table_index().0,
        fields,
        current_table.name.as_str(),
        Ghost(trace_of(*state, join_relationship_fields@)),
        Ghost(current_table@),
    ).is_some()
}

/// Translate the field-selection of a query to SQL, where the translation ends within a number of
/// levels, with an index for each table alias that it makes. Where it does not, nothing is
/// translated.
pub fn translate_fields_within(
    levels: u64,
    env: &Env<'_>,
    state: &mut State,
    fields: Vec<(String, Field)>,
    current_table: &TableNameAndReference,
    join_relationship_fields: &mut Vec<JoinFieldInfo>,
) -> (r: Option<Result<Select, Error>>)
    ensures
        ({
            let meaning = fields_meaning(
                env.spec_metadata(),
                levels as nat,
                trace_of(*old(state), old(join_relationship_fields)@),
                fields_view(fields@),
                current_table@,
            );
            match r {
                None => {
                    &&& !ends_in_range(meaning)
                    &&& *final(state) == *old(state)
                    &&& *final(join_relationship_fields) == *old(join_relationship_fields)
                },
                Some(result) => {
                    &&& ends_in_range(meaning)
                    &&& meaning == Some(
                        (
                            trace_of(*final(state), final(join_relationship_fields)@),
                            select_result(result),
                        ),
                    )
                    &&& final(state).native_queries() == old(state).native_queries()
                    &&& old(join_relationship_fields)@.is_prefix_of(
                        final(join_relationship_fields)@,
                    )
                },
            }
        }),
{
    if !fields_end_within(
        levels,
        env,
        state,
        &fields,
        current_table,
        join_relationship_fields,
    ) {
        return None;
    }
    proof {
        lemma_fields_translation(
            env.spec_metadata(),
            levels as nat,
            trace_of(*state, join_relationship_fields@),
            fields_view(fields@),
            current_table@,
        );
    }
    Some(translate_fields(env, state, fields, current_table, join_relationship_fields))
}

/// Translate rows part of query to sql ast, where the translation of its fields ends within a number
/// of levels, with an index for each table alias that it makes. Where it does not, nothing is
/// translated.
pub fn translate_rows_query_within<T: Translators>(
    levels: u64,
    translators: &T,
    env: &Env<'_>,
    state: &mut State,
    current_table: &TableNameAndReference,
    from_clause: &From,
    query: &Query,
) -> (r: Option<Result<(ReturnsFields, Select), Error>>)
    ensures
        r is Some <==> ends_in_range(
            fields_meaning(
                env.spec_metadata(),
                levels as nat,
                start_of(*old(state)),
                requested_fields(*query),
                current_table@,
            ),
        ),
        match r {
            None => *final(state) == *old(state),
            Some(result) => translates_rows(
                *translators,
                *env,
                *old(state),
                *current_table,
                *from_clause,
                *query,
                *final(state),
                result,
            ),
        },
{
    let fields: Vec<(String, Field)> = match &query.fields {
        Some(fields) => clone_fields(fields),
        None => Vec::new(),
    };
    assert(fields_view(fields@) =~= requested_fields(*query));
    let no_join_fields: Vec<JoinFieldInfo> = Vec::new();
    assert(trace_of(*state, no_join_fields@).relationships =~= start_of(*state).relationships);
    if !fields_end_within(levels, env, state, &fields, current_table, &no_join_fields) {
        return None;
    }
    proof {
        lemma_fields_translation(
            env.spec_metadata(),
            levels as nat,
            start_of(*state),
            requested_fields(*query),
            current_table@,
        );
    }
    Some(translate_rows_query(translators, env, state, current_table, from_clause, query))
}

} // verus!
