//! Handle 'rows' and 'aggregates' translation.

use crate::metadata::{CompositeTypeName, Type, TypeRepresentation};
use crate::models::{fields_view, Field, NestedArray, NestedField, NestedFieldView, NestedObject};
use crate::sql;
use crate::sql::ast::{
    columns_view, joins_view, ColumnAlias, ColumnReference, ColumnReferenceView, Expression, From,
    Function, Join, JoinView, LeftOuterJoinLateral, ScalarTypeName, Select, SelectView, TableAlias,
    TableReference,
};
use crate::translation::error::{Error, ErrorView};
use crate::translation::helpers::{
    fields_of, ColumnInfo, CompositeTypeInfo, Env, State, TableNameAndReference,
};
use crate::translation::query::answers::{
    is_known, lemma_lookup_finds_what_the_metadata_holds, lemma_unpacked_type_has_all_its_fields,
    selects_everything,
};
use crate::translation::query::depth::fields_translation;
use crate::translation::query::field_map::{
    field_map_entries, insert_field, into_fields, new_field_map,
};
use crate::translation::query::laws::lemma_whole_column_collects_no_relationship;
use crate::translation::query::relationships::{join_fields_view, JoinFieldInfo};
use crate::translation::query::selection::{
    all_fields, binding_of, cast_type, Binding, column_meaning, field_meaning, fields_meaning,
    lemma_fields_grow, lemma_list_grows, lemma_selection_grows, list_meaning, represented,
    selection_meaning, Columns, Trace,
};
use indexmap::IndexMap;
use vstd::prelude::*;

verus! {

/// This type collects the salient parts of joined-on subqueries that compute the result of a
/// nested field selection.
pub struct JoinNestedFieldInfo {
    pub select: Select,
    pub alias: TableAlias,
}

/// The lateral join that a nested field join stands for.
pub open spec fn nested_field_join(join: JoinNestedFieldInfo) -> JoinView {
    JoinView::LeftOuterJoinLateral { select: Box::new(join.select@), alias: join.alias@ }
}

/// The lateral joins that nested field joins stand for.
pub open spec fn nested_field_joins_view(joins: Seq<JoinNestedFieldInfo>) -> Seq<JoinView> {
    Seq::new(joins.len(), |i: int| nested_field_join(joins[i]))
}

/// Translate a list of nested field joins into lateral joins.
pub fn translate_nested_field_joins(joins: Vec<JoinNestedFieldInfo>) -> (r: Vec<Join>)
    ensures
        joins_view(r@) == nested_field_joins_view(joins@),
{
    let ghost given = joins@;
    let mut translated: Vec<Join> = Vec::new();
    for join in iter: joins
        invariant
            iter.seq() == given,
            translated@.len() == iter.index(),
            forall|i: int|
                0 <= i < translated@.len() ==> (#[trigger] translated@[i])@ == nested_field_join(
                    given[i],
                ),
    {
        let JoinNestedFieldInfo { select, alias } = join;
        translated.push(
            Join::LeftOuterJoinLateral(LeftOuterJoinLateral { select: Box::new(select), alias }),
        );
    }
    assert(joins_view(translated@) =~= nested_field_joins_view(given));
    translated
}

/// If a type representation requires a cast, return the scalar type name.
pub fn get_type_representation_cast_type(type_representation: &TypeRepresentation) -> (r: Option<
    ScalarTypeName,
>)
    ensures
        match r {
            Some(scalar_type) => cast_type(*type_representation) == Some(scalar_type@),
            None => cast_type(*type_representation) is None,
        },
{
    match type_representation {
        // In these situations, we expect to cast the expression according
        // to the type representation.
        TypeRepresentation::Int64AsString => Some(ScalarTypeName::new_unqualified("text")),
        TypeRepresentation::BigDecimalAsString => Some(ScalarTypeName::new_unqualified("text")),
        // In these situations the type representation should be the same as
        // the expression, so we don't cast it.
        TypeRepresentation::Boolean
        | TypeRepresentation::String
        | TypeRepresentation::Float32
        | TypeRepresentation::Float64
        | TypeRepresentation::Int16
        | TypeRepresentation::Int32
        | TypeRepresentation::Int64
        | TypeRepresentation::BigDecimal
        | TypeRepresentation::Timestamp
        | TypeRepresentation::Timestamptz
        | TypeRepresentation::Time
        | TypeRepresentation::Timetz
        | TypeRepresentation::Date
        | TypeRepresentation::UUID
        | TypeRepresentation::Geography
        | TypeRepresentation::Geometry
        | TypeRepresentation::Json
        | TypeRepresentation::Enum(_) => None,
    }
}

/// What an optional reference refers to.
pub open spec fn referred<T>(reference: Option<&T>) -> Option<T> {
    match reference {
        Some(value) => Some(*value),
        None => None,
    }
}

/// Certain type representations require that we provide a different json representation
/// than what postgres will return.
/// For array columns of those type representation, we wrap the result in a cast.
pub fn wrap_array_in_type_representation(
    expression: Expression,
    column_type_representation: Option<&TypeRepresentation>,
) -> (r: Expression)
    ensures
        r@ == represented(expression@, referred(column_type_representation), true),
{
    match column_type_representation {
        None => expression,
        Some(type_rep) => {
            if let Some(cast_type) = get_type_representation_cast_type(type_rep) {
                let mut cast_type = cast_type;
                // make it an array of cast type
                cast_type.is_array = true;
                Expression::Cast { expression: Box::new(expression), scalar_type: cast_type }
            } else {
                expression
            }
        },
    }
}

/// Certain type representations require that we provide a different json representation
/// than what postgres will return.
/// For columns of those type representation, we wrap the result in a cast.
pub fn wrap_in_type_representation(
    expression: Expression,
    column_type_representation: Option<&TypeRepresentation>,
) -> (r: Expression)
    ensures
        r@ == represented(expression@, referred(column_type_representation), false),
{
    match column_type_representation {
        None => expression,
        Some(type_rep) => {
            if let Some(cast_type) = get_type_representation_cast_type(type_rep) {
                Expression::Cast { expression: Box::new(expression), scalar_type: cast_type }
            } else {
                expression
            }
        },
    }
}

/// Create an explicit NestedField that selects all fields (1 level) of a composite type.
pub fn unpack_composite_type(env: &Env<'_>, composite_type: &CompositeTypeName) -> (r: Result<
    NestedField,
    Error,
>)
    ensures
        r is Ok <==> is_known(env.spec_metadata(), composite_type.0@),
        r matches Ok(selection) ==> (selection@ matches NestedFieldView::Object(fields)
            && selects_everything(env.spec_metadata(), composite_type.0@, fields)),
        match r {
            Ok(selection) => fields_of(env.spec_metadata(), composite_type.0@) matches Some(info)
                && selection@ == NestedFieldView::Object(all_fields(info)),
            Err(error) => fields_of(env.spec_metadata(), composite_type.0@) is None && error@
                == ErrorView::CollectionNotFound(composite_type.0@),
        },
{
    proof {
        lemma_lookup_finds_what_the_metadata_holds(env.spec_metadata(), composite_type.0@);
        if is_known(env.spec_metadata(), composite_type.0@) {
            lemma_unpacked_type_has_all_its_fields(env.spec_metadata(), composite_type.0@);
        }
    }
    let info: CompositeTypeInfo<'_> = match env.lookup_composite_type(composite_type.0.as_str()) {
        Ok(info) => info,
        Err(error) => {
            return Err(error);
        },
    };
    let names: Vec<(String, String)> = info.fields();
    let mut fields: IndexMap<String, Field> = new_field_map();
    let mut i: usize = 0;
    while i < names.len()
        invariant
            i <= names@.len(),
            names@.len() == info.described().names.len(),
            forall|j: int|
                0 <= j < names@.len() ==> (#[trigger] names@[j]).0@ == info.described().names[j] && names@[j].1
                    == names@[j].0,
            forall|j: int, k: int|
                0 <= j < k < info.described().names.len() ==> crate::string_map::string_before(
                    #[trigger] info.described().names[j],
                    #[trigger] info.described().names[k],
                ),
            field_map_entries(fields).len() == i,
            forall|j: int|
                0 <= j < i ==> (#[trigger] field_map_entries(fields)[j]).0 == names@[j].0
                    && field_map_entries(fields)[j].1 == (Field::Column {
                    column: names@[j].0,
                    fields: None,
                }),
        decreases names@.len() - i,
    {
        proof {
            crate::string_map::lemma_before_irreflexive(info.described().names[i as int]);
            assert forall|j: int| 0 <= j < i implies (#[trigger] field_map_entries(fields)[j]).0@
                != names@[i as int].0@ by {
                assert(names@[j].0@ == info.described().names[j]);
                assert(names@[i as int].0@ == info.described().names[i as int]);
            }
        }
        let _ = insert_field(
            &mut fields,
            names[i].0.clone(),
            Field::Column { column: names[i].1.clone(), fields: None },
        );
        i = i + 1;
    }
    let fields = into_fields(fields);
    proof {
        assert forall|j: int| 0 <= j < fields@.len() implies (#[trigger] fields_view(fields@)[j])
            == all_fields(info.described())[j] by {
            assert(fields@[j].0@ == info.described().names[j]);
        }
        assert(fields_view(fields@) =~= all_fields(info.described()));
    }
    Ok(NestedField::Object(NestedObject { fields }))
}

/// How far a translation has come.
pub open spec fn trace_of(state: State, join_relationship_fields: Seq<JoinFieldInfo>) -> Trace {
    Trace {
        index: state.table_index(),
        relationships: join_fields_view(join_relationship_fields),
    }
}

/// What the translation of fields returned.
pub open spec fn select_result(r: Result<Select, Error>) -> Result<SelectView, ErrorView> {
    match r {
        Ok(select) => Ok(select@),
        Err(error) => Err(error@),
    }
}

/// What the translation of a selection returned.
pub open spec fn nested_result(
    r: Result<(JoinNestedFieldInfo, ColumnReference), Error>,
) -> Result<(JoinView, ColumnReferenceView), ErrorView> {
    match r {
        Ok((join, reference)) => Ok((nested_field_join(join), reference@)),
        Err(error) => Err(error@),
    }
}

/// What the translation of a column returned, and the joins that it added.
pub open spec fn column_and_joins(
    r: Result<(ColumnAlias, Expression), Error>,
    joins: Seq<JoinView>,
) -> Result<Columns, ErrorView> {
    match r {
        Ok((alias, expression)) => Ok(
            Columns { columns: seq![(alias.name@, expression@)], joins },
        ),
        Err(error) => Err(error@),
    }
}

/// A relationship field holds a relationship as it was requested: the very query, relationship and
/// arguments, under the very alias.
pub open spec fn keeps_request(alias: String, field: Field, collected: JoinFieldInfo) -> bool {
    &&& field matches Field::Relationship { query, relationship, arguments }
        && collected.query == *query && collected.relationship_name == relationship
        && collected.arguments == arguments
    &&& collected.column_alias.name == alias
}

/// A relationship that was requested is held by one of the relationship fields from a place on.
pub open spec fn is_kept(
    alias: String,
    field: Field,
    collected: Seq<JoinFieldInfo>,
    start: int,
) -> bool {
    exists|k: int|
        start <= k < collected.len() && keeps_request(alias, field, #[trigger] collected[k])
}

/// A translation has come to an end, and the table aliases that it made have an index.
pub open spec fn ends_in_range<T>(meaning: Option<(Trace, T)>) -> bool {
    meaning matches Some((after, _)) && after.index <= u64::MAX
}

/// Translate the field-selection of a query to SQL.
///
/// The translation follows the columns of composite types down to their scalars, so it ends only
/// where no composite type that it meets contains itself.
pub fn translate_fields(
    env: &Env<'_>,
    state: &mut State,
    fields: Vec<(String, Field)>,
    current_table: &TableNameAndReference,
    join_relationship_fields: &mut Vec<JoinFieldInfo>,
) -> (r: Result<Select, Error>)
    requires
        ends_in_range(
            fields_translation(
                env.spec_metadata(),
                trace_of(*old(state), old(join_relationship_fields)@),
                fields_view(fields@),
                current_table@,
            ),
        ),
    ensures
        fields_translation(
            env.spec_metadata(),
            Trace {
                index: old(state).table_index(),
                relationships: join_fields_view(old(join_relationship_fields)@),
            },
            fields_view(fields@),
            current_table@,
        ) == Some(
            (
                Trace {
                    index: final(state).table_index(),
                    relationships: join_fields_view(final(join_relationship_fields)@),
                },
                match r {
                    Ok(select) => Ok::<SelectView, ErrorView>(select@),
                    Err(error) => Err::<SelectView, ErrorView>(error@),
                },
            ),
        ),
        r is Ok ==> forall|i: int|
            0 <= i < fields@.len() && (#[trigger] fields@[i]).1 is Relationship ==> is_kept(
                fields@[i].0,
                fields@[i].1,
                final(join_relationship_fields)@,
                old(join_relationship_fields)@.len() as int,
            ),
        old(join_relationship_fields)@.is_prefix_of(final(join_relationship_fields)@),
        fields_translation(
            env.spec_metadata(),
            trace_of(*old(state), old(join_relationship_fields)@),
            fields_view(fields@),
            current_table@,
        ) == Some((trace_of(*final(state), final(join_relationship_fields)@), select_result(r))),
        final(state).native_queries() == old(state).native_queries(),
{
    let ghost before = trace_of(*state, join_relationship_fields@);
    let ghost depth = choose|depth: nat|
        fields_meaning(
            env.spec_metadata(),
            depth,
            before,
            fields_view(fields@),
            current_table@,
        ) is Some;
    translate_fields_to_depth(
        Ghost(depth),
        env,
        state,
        fields,
        current_table,
        join_relationship_fields,
    )
}

/// Translate the field-selection of a query to SQL, given the depth that the translation goes to.
/// Because field selection may be nested this function is mutually recursive with
/// 'translate_nested_field'.
fn translate_fields_to_depth(
    Ghost(depth): Ghost<nat>,
    env: &Env<'_>,
    state: &mut State,
    fields: Vec<(String, Field)>,
    current_table: &TableNameAndReference,
    join_relationship_fields: &mut Vec<JoinFieldInfo>,
) -> (r: Result<Select, Error>)
    requires
        ends_in_range(
            fields_meaning(
                env.spec_metadata(),
                depth,
                trace_of(*old(state), old(join_relationship_fields)@),
                fields_view(fields@),
                current_table@,
            ),
        ),
    ensures
        r is Ok ==> forall|i: int|
            0 <= i < fields@.len() && (#[trigger] fields@[i]).1 is Relationship ==> is_kept(
                fields@[i].0,
                fields@[i].1,
                final(join_relationship_fields)@,
                old(join_relationship_fields)@.len() as int,
            ),
        old(join_relationship_fields)@.is_prefix_of(final(join_relationship_fields)@),
        fields_meaning(
            env.spec_metadata(),
            depth,
            trace_of(*old(state), old(join_relationship_fields)@),
            fields_view(fields@),
            current_table@,
        ) == Some((trace_of(*final(state), final(join_relationship_fields)@), select_result(r))),
        final(state).native_queries() == old(state).native_queries(),
    decreases depth, 5nat,
{
    let ghost before = trace_of(*state, join_relationship_fields@);
    let ghost metadata = env.spec_metadata();
    let ghost table = current_table@;
    let ghost given = fields@;
    let ghost requested = fields_view(given);

    // find the table according to the metadata.
    let fields_info: CompositeTypeInfo<'_> = match env.lookup_composite_type(
        current_table.name.as_str(),
    ) {
        Ok(info) => info,
        Err(error) => {
            return Err(error);
        },
    };
    let ghost info = fields_info.described();

    // Each nested field is computed in one joined-on sub query.
    let mut nested_field_joins: Vec<JoinNestedFieldInfo> = Vec::new();
    let mut columns: Vec<(ColumnAlias, Expression)> = Vec::new();

    assert(columns_view(columns@) =~= Seq::empty());
    assert(nested_field_joins_view(nested_field_joins@) =~= Seq::empty());

    for (alias, field) in iter: fields
        invariant
            iter.seq() == given,
            requested == fields_view(given),
            metadata == env.spec_metadata(),
            table == current_table@,
            info == fields_info.described(),
            fields_of(metadata, table.name) == Some(info),
            before == trace_of(*old(state), old(join_relationship_fields)@),
            old(state).native_queries() == state.native_queries(),
            old(join_relationship_fields)@.is_prefix_of(join_relationship_fields@),
            forall|i: int|
                0 <= i < iter.index() && (#[trigger] given[i]).1 is Relationship ==> is_kept(
                    given[i].0,
                    given[i].1,
                    join_relationship_fields@,
                    old(join_relationship_fields)@.len() as int,
                ),
            ends_in_range(
                list_meaning(metadata, depth, before, requested, requested.len(), table, info),
            ),
            list_meaning(metadata, depth, before, requested, iter.index() as nat, table, info)
                == Some(
                (
                    trace_of(*state, join_relationship_fields@),
                    Ok::<Columns, ErrorView>(
                        Columns {
                            columns: columns_view(columns@),
                            joins: nested_field_joins_view(nested_field_joins@),
                        },
                    ),
                ),
            ),
    {
        let ghost n = iter.index() as nat;
        let ghost collected_before = join_relationship_fields@;
        let ghost here = trace_of(*state, join_relationship_fields@);
        let ghost columns_before = columns@;
        let ghost joins_before = nested_field_joins@;
        let ghost requested_alias = alias@;
        let ghost requested_field = field@;
        proof {
            assert(requested[n as int] == (requested_alias, requested_field));
            lemma_list_grows(
                metadata,
                depth,
                before,
                requested,
                n + 1,
                requested.len(),
                table,
                info,
            );
            assert(list_meaning(metadata, depth, before, requested, n + 1, table, info) is Some);
            assert(ends_in_range(
                field_meaning(
                    metadata,
                    depth,
                    here,
                    requested_alias,
                    requested_field,
                    table,
                    info,
                ),
            ));
        }
        let translated: Result<(ColumnAlias, Expression), Error> = translate_field(
            Ghost(depth),
            env,
            state,
            alias,
            field,
            current_table,
            &fields_info,
            join_relationship_fields,
            &mut nested_field_joins,
        );
        let ghost added = nested_field_joins_view(
            nested_field_joins@.skip(joins_before.len() as int),
        );
        assert(nested_field_joins_view(nested_field_joins@) =~= nested_field_joins_view(joins_before)
            + added);
        match translated {
            Err(error) => {
                proof {
                    lemma_list_grows(
                        metadata,
                        depth,
                        before,
                        requested,
                        n + 1,
                        requested.len(),
                        table,
                        info,
                    );
                }
                return Err(error);
            },
            Ok(column) => {
                proof {
                    let start = old(join_relationship_fields)@.len() as int;
                    let collected = join_relationship_fields@;
                    assert forall|i: int|
                        0 <= i <= n && (#[trigger] given[i]).1 is Relationship implies is_kept(
                        given[i].0,
                        given[i].1,
                        collected,
                        start,
                    ) by {
                        if i < n {
                            let k = choose|k: int|
                                start <= k < collected_before.len() && keeps_request(
                                    given[i].0,
                                    given[i].1,
                                    #[trigger] collected_before[k],
                                );
                            assert(collected[k] == collected_before[k]);
                        } else {
                            let k = collected.len() - 1;
                            assert(keeps_request(given[i].0, given[i].1, collected[k]));
                        }
                    }
                }
                columns.push(column);
                assert(columns_view(columns@) =~= columns_view(columns_before) + seq![
                    (column.0.name@, column.1@),
                ]);
            },
        }
    }
    let mut select = sql::helpers::simple_select(columns);
    let mut joins = translate_nested_field_joins(nested_field_joins);
    let ghost translated_joins = joins@;
    select.joins.append(&mut joins);
    assert(select.joins@ =~= translated_joins);
    Ok(select)
}

/// Translate one field of a query to a column. Where the field is nested, this adds the join that
/// computes it.
fn translate_field(
    Ghost(depth): Ghost<nat>,
    env: &Env<'_>,
    state: &mut State,
    alias: String,
    field: Field,
    current_table: &TableNameAndReference,
    fields_info: &CompositeTypeInfo<'_>,
    join_relationship_fields: &mut Vec<JoinFieldInfo>,
    nested_field_joins: &mut Vec<JoinNestedFieldInfo>,
) -> (r: Result<(ColumnAlias, Expression), Error>)
    requires
        ends_in_range(
            field_meaning(
                env.spec_metadata(),
                depth,
                trace_of(*old(state), old(join_relationship_fields)@),
                alias@,
                field@,
                current_table@,
                fields_info.described(),
            ),
        ),
    ensures
        field is Relationship ==> {
            &&& r is Ok
            &&& final(join_relationship_fields)@.len() == old(join_relationship_fields)@.len() + 1
            &&& keeps_request(alias, field, final(join_relationship_fields)@.last())
        },
        old(join_relationship_fields)@.is_prefix_of(final(join_relationship_fields)@),
        old(nested_field_joins)@.is_prefix_of(final(nested_field_joins)@),
        field_meaning(
            env.spec_metadata(),
            depth,
            trace_of(*old(state), old(join_relationship_fields)@),
            alias@,
            field@,
            current_table@,
            fields_info.described(),
        ) == Some(
            (
                trace_of(*final(state), final(join_relationship_fields)@),
                column_and_joins(
                    r,
                    nested_field_joins_view(
                        final(nested_field_joins)@.skip(old(nested_field_joins)@.len() as int),
                    ),
                ),
            ),
        ),
        final(state).native_queries() == old(state).native_queries(),
    decreases depth, 3nat,
{
    let ghost joins_before = nested_field_joins@;
    assert(nested_field_joins_view(joins_before.skip(joins_before.len() as int)) =~= Seq::empty());
    match field {
        Field::Column { column, fields: None } => unpack_and_wrap_fields(
            Ghost(depth),
            env,
            state,
            current_table,
            join_relationship_fields,
            column.as_str(),
            sql::helpers::make_column_alias(alias),
            fields_info,
            nested_field_joins,
        ),
        Field::Column { column, fields: Some(nested_field) } => {
            match fields_info.lookup_column(column.as_str()) {
                Err(error) => Err(error),
                Ok(column_info) => match translate_nested_field(
                    Ghost(depth),
                    env,
                    state,
                    current_table,
                    &column_info,
                    nested_field,
                    join_relationship_fields,
                ) {
                    Err(error) => Err(error),
                    Ok((nested_field_join, nested_column_reference)) => {
                        let ghost join_view = crate::translation::query::fields::nested_field_join(
                            nested_field_join,
                        );
                        nested_field_joins.push(nested_field_join);
                        assert(nested_field_joins_view(
                            nested_field_joins@.skip(joins_before.len() as int),
                        ) =~= seq![join_view]);
                        Ok(
                            (
                                sql::helpers::make_column_alias(alias),
                                Expression::ColumnReference(nested_column_reference),
                            ),
                        )
                    },
                },
            }
        },
        Field::Relationship { query, relationship, arguments } => {
            let table_alias = state.make_relationship_table_alias(alias.as_str());
            let column_alias = sql::helpers::make_column_alias(alias);
            let column_name = ColumnReference::AliasedColumn {
                table: TableReference::AliasedTable(table_alias.clone()),
                column: column_alias.clone(),
            };
            let ghost pushed_onto = join_relationship_fields@;
            join_relationship_fields.push(
                JoinFieldInfo {
                    table_alias,
                    column_alias: column_alias.clone(),
                    relationship_name: relationship,
                    arguments,
                    query: *query,
                },
            );
            assert(join_fields_view(join_relationship_fields@) =~= join_fields_view(
                pushed_onto,
            ).push(join_relationship_fields@.last()@));
            Ok((column_alias, Expression::ColumnReference(column_name)))
        },
    }
}

/// Translate a nested field selection.
///
/// Nested fields are different from relationships in that the value of a nested field is already
/// available on the current table as a column of composite type.
///
/// A nested field selection translates to a JOIN clause in the form of:
///
///   LEFT OUTER JOIN LATERAL (
///     SELECT
///       <collect_expression> AS "collected"
///     FROM
///       (
///         < select of translate_fields(fields, nested_field_binding_alias, ... )
///           which includes joins from recursive calls>
///         FROM
///           (
///             SELECT
///               (<field_binding_expression>).*
///           ) AS <nested_field_binding> ON ('true')
///       ) AS <nested_fields>
///   ) AS <nested_fields_collect> ON ('true')
///
/// Alongside the column reference `<nested_fields_collect>."collected"`
///
/// When the nested field is an object:
///   - <collect_expression> is `row_to_json(<nested_fields>)`
///   - <field_binding_expression> is `<current_table>.<current_column>`
///
/// When the nested field is an array:
///   - <collect_expression> is `json_agg(row_to_json(<nested_fields>))`
///   - <field_binding_expression> is `unnest(<current_table>.<current_column>)`
///
/// # Arguments
///
/// * `current_table` - the table reference the column lives on
/// * `current_column` - the column to extract nested fields from
fn translate_nested_field(
    Ghost(depth): Ghost<nat>,
    env: &Env<'_>,
    state: &mut State,
    current_table: &TableNameAndReference,
    current_column: &ColumnInfo,
    field: NestedField,
    join_relationship_fields: &mut Vec<JoinFieldInfo>,
) -> (r: Result<(JoinNestedFieldInfo, ColumnReference), Error>)
    requires
        ends_in_range(
            selection_meaning(
                env.spec_metadata(),
                depth,
                trace_of(*old(state), old(join_relationship_fields)@),
                current_table@,
                *current_column,
                field@,
            ),
        ),
    ensures
        old(join_relationship_fields)@.is_prefix_of(final(join_relationship_fields)@),
        selection_meaning(
            env.spec_metadata(),
            depth,
            trace_of(*old(state), old(join_relationship_fields)@),
            current_table@,
            *current_column,
            field@,
        ) == Some((trace_of(*final(state), final(join_relationship_fields)@), nested_result(r))),
        final(state).native_queries() == old(state).native_queries(),
    decreases depth, 0nat,
{
    let ghost before = trace_of(*state, join_relationship_fields@);
    let ghost metadata = env.spec_metadata();
    let ghost selection = field@;
    proof {
        lemma_selection_grows(
            metadata,
            depth,
            before,
            current_table@,
            *current_column,
            selection,
        );
    }
    let nested_field_column_collect_alias = ColumnAlias { name: "collected".to_string() };
    let nested_fields_alias = state.make_table_alias("nested_fields".to_string());

    // How we project and collect nested fields depend on whether the nested value is an object or
    // an array.
    let binding: Result<(Expression, Expression, String, Vec<(String, Field)>), Error> =
        nested_field_binding(current_table, current_column, &nested_fields_alias, field);
    let (collect_expression, field_binding_expression, nested_field_type, fields) = match binding {
        Ok(binding) => binding,
        Err(error) => {
            return Err(error);
        },
    };
    let ghost bound = binding_of(
        current_table@,
        *current_column,
        before.alias("nested_fields"@),
        selection,
    )->Ok_0;
    let ghost binding_alias = before.advanced().alias("nested_field_binding"@);
    let ghost inner_table = crate::translation::helpers::TableView {
        name: bound.type_of_value,
        reference: crate::translation::query::selection::aliased(binding_alias),
    };
    proof {
        lemma_fields_grow(
            metadata,
            (depth - 1) as nat,
            before.advanced().advanced(),
            bound.fields,
            inner_table,
        );
    }

    // The FROM-clause to use for the next layer of fields returned by `translate_fields` below,
    // which brings each nested field into scope as separate columns in a sub query.
    let nested_field_binding_alias = state.make_table_alias("nested_field_binding".to_string());
    let nested_field_from = From::Select {
        select: Box::new(sql::helpers::select_composite(field_binding_expression)),
        alias: nested_field_binding_alias.clone(),
    };

    // The recursive call to the next layer of fields
    let nested_field_table_reference = TableNameAndReference {
        name: nested_field_type,
        reference: TableReference::AliasedTable(nested_field_binding_alias),
    };
    assert(trace_of(*state, join_relationship_fields@) == before.advanced().advanced());
    let mut fields_select = match translate_fields_to_depth(
        Ghost((depth - 1) as nat),
        env,
        state,
        fields,
        &nested_field_table_reference,
        join_relationship_fields,
    ) {
        Ok(select) => select,
        Err(error) => {
            return Err(error);
        },
    };
    let ghost inner = fields_select@;

    fields_select.from = Some(nested_field_from);

    // The top-level select statement which collects the fields at the next level of nesting into a
    // single json object.
    let mut collected: Vec<(ColumnAlias, Expression)> = Vec::new();
    collected.push((nested_field_column_collect_alias.clone(), collect_expression));
    assert(columns_view(collected@) =~= seq![("collected"@, bound.collect)]);
    let mut collect_select = sql::helpers::simple_select(collected);

    collect_select.from = Some(
        From::Select { select: Box::new(fields_select), alias: nested_fields_alias },
    );

    // The JOIN clause plus alias that our caller will use to query and select the composite field
    // json value this function produced.
    let nested_field_table_collect_alias = state.make_table_alias(
        "nested_fields_collect".to_string(),
    );

    let nested_field_join = JoinNestedFieldInfo {
        select: collect_select,
        alias: nested_field_table_collect_alias.clone(),
    };

    proof {
        reveal_with_fuel(Select::view, 3);
        reveal_with_fuel(From::view, 3);
    }
    Ok(
        (
            nested_field_join,
            ColumnReference::AliasedColumn {
                table: TableReference::AliasedTable(nested_field_table_collect_alias),
                column: nested_field_column_collect_alias,
            },
        ),
    )
}

/// How a selection from a column is computed: the expression that collects the selected fields into
/// one value, the expression whose fields are selected from, the name of its composite type, and the
/// selected fields.
fn nested_field_binding(
    current_table: &TableNameAndReference,
    current_column: &ColumnInfo,
    nested_fields_alias: &TableAlias,
    field: NestedField,
) -> (r: Result<(Expression, Expression, String, Vec<(String, Field)>), Error>)
    ensures
        match r {
            Ok((collect, value, name, fields)) => binding_of(
                current_table@,
                *current_column,
                nested_fields_alias@,
                field@,
            ) == Ok::<Binding, ErrorView>(
                Binding {
                    collect: collect@,
                    value: value@,
                    type_of_value: name@,
                    fields: fields_view(fields@),
                },
            ),
            Err(error) => binding_of(
                current_table@,
                *current_column,
                nested_fields_alias@,
                field@,
            ) == Err::<Binding, ErrorView>(error@),
        },
{
    proof {
        reveal_with_fuel(NestedField::view, 2);
        reveal_with_fuel(Expression::view, 2);
    }
    let row = Expression::RowToJson(TableReference::AliasedTable(nested_fields_alias.clone()));
    let value = Expression::ColumnReference(
        ColumnReference::AliasedColumn {
            table: current_table.reference.clone(),
            column: ColumnAlias { name: current_column.name.0.clone() },
        },
    );
    match field {
        NestedField::Object(NestedObject { fields }) => {
            // SELECT row_to_json(nested_fields.*)
            //
            // In order to bring the nested fields into scope for sub selections
            // we need to unpack them as selected columns of a bound relation.
            //
            // This becomes the SQL
            // ```
            //   SELECT
            //     ("%0_<current table>"."<composite column>").*
            // ```
            match &current_column.data_type {
                Type::CompositeType(name) => Ok((row, value, name.0.clone(), fields)),
                actual_type => Err(
                    Error::NestedFieldNotOfCompositeType {
                        field_name: current_column.name.0.clone(),
                        actual_type: actual_type.clone(),
                    },
                ),
            }
        },
        NestedField::Array(NestedArray { fields }) => match *fields {
            NestedField::Array(_) => Err(
                Error::NestedArraysNotSupported { field_name: current_column.name.0.clone() },
            ),
            NestedField::Object(NestedObject { fields }) => {
                // SELECT json_agg(row_to_json(nested_fields.*))
                let ghost row_view = row@;
                let mut collect_args: Vec<Expression> = Vec::new();
                collect_args.push(row);
                let collect_expression = Expression::FunctionCall {
                    function: Function::JsonAgg,
                    args: collect_args,
                };
                assert(collect_expression@->args =~= seq![row_view]);

                // In order to bring the nested fields into scope for sub selections
                // we need to unpack them as selected columns of a bound relation.
                //
                // This becomes the SQL
                // ```
                //   SELECT
                //     (unnest("%0_<current table>"."<composite column>")).*
                // ```
                let ghost value_view = value@;
                let mut binding_args: Vec<Expression> = Vec::new();
                binding_args.push(value);
                let field_binding_expression = Expression::FunctionCall {
                    function: Function::Unnest,
                    args: binding_args,
                };
                assert(field_binding_expression@->args =~= seq![value_view]);

                match &current_column.data_type {
                    Type::ArrayType(element_type) => match &**element_type {
                        Type::CompositeType(name) => Ok(
                            (
                                collect_expression,
                                field_binding_expression,
                                name.0.clone(),
                                fields,
                            ),
                        ),
                        actual_type => Err(
                            Error::NestedFieldNotOfCompositeType {
                                field_name: current_column.name.0.clone(),
                                actual_type: actual_type.clone(),
                            },
                        ),
                    },
                    actual_type => Err(
                        Error::NestedFieldNotOfArrayType {
                            field_name: current_column.name.0.clone(),
                            actual_type: actual_type.clone(),
                        },
                    ),
                }
            },
        },
    }
}

/// In order to return the expected type representation for each column,
/// we need to wrap columns in type representation cast, and unpack composite types
/// so we can wrap them.
fn unpack_and_wrap_fields(
    Ghost(depth): Ghost<nat>,
    env: &Env<'_>,
    state: &mut State,
    current_table: &TableNameAndReference,
    join_relationship_fields: &mut Vec<JoinFieldInfo>,
    column: &str,
    alias: ColumnAlias,
    fields_info: &CompositeTypeInfo<'_>,
    nested_field_joins: &mut Vec<JoinNestedFieldInfo>,
) -> (r: Result<(ColumnAlias, Expression), Error>)
    requires
        ends_in_range(
            column_meaning(
                env.spec_metadata(),
                depth,
                trace_of(*old(state), old(join_relationship_fields)@),
                alias.name@,
                column@,
                current_table@,
                fields_info.described(),
            ),
        ),
    ensures
        old(nested_field_joins)@.is_prefix_of(final(nested_field_joins)@),
        column_meaning(
            env.spec_metadata(),
            depth,
            trace_of(*old(state), old(join_relationship_fields)@),
            alias.name@,
            column@,
            current_table@,
            fields_info.described(),
        ) == Some(
            (
                trace_of(*final(state), final(join_relationship_fields)@),
                column_and_joins(
                    r,
                    nested_field_joins_view(
                        final(nested_field_joins)@.skip(old(nested_field_joins)@.len() as int),
                    ),
                ),
            ),
        ),
        final(join_relationship_fields)@ == old(join_relationship_fields)@,
        r matches Ok((returned, _)) ==> returned == alias,
        r is Err ==> final(nested_field_joins)@ == old(nested_field_joins)@,
        final(state).native_queries() == old(state).native_queries(),
    decreases depth, 2nat,
{
    let ghost joins_before = nested_field_joins@;
    let ghost relationships_before = join_relationship_fields@;
    proof {
        lemma_whole_column_collects_no_relationship(
            env.spec_metadata(),
            depth,
            trace_of(*state, join_relationship_fields@),
            alias.name@,
            column@,
            current_table@,
            fields_info.described(),
        );
    }
    assert(nested_field_joins_view(joins_before.skip(joins_before.len() as int)) =~= Seq::empty());
    let column_info: ColumnInfo = match fields_info.lookup_column(column) {
        Ok(info) => info,
        Err(error) => {
            return Err(error);
        },
    };

    // Different kinds of types have different strategy for converting to their
    // type representation.
    match &column_info.data_type {
        // Scalar types can just be wrapped in a cast.
        Type::ScalarType(scalar_type) => {
            let column_type_representation = env.lookup_type_representation(scalar_type);
            let (alias, expression) = sql::helpers::make_column(
                current_table.reference.clone(),
                column_info.name.clone(),
                alias,
            );
            Ok((alias, wrap_in_type_representation(expression, column_type_representation)))
        },
        // Composite types are a more involved case because we cannot just "cast"
        // a composite type, we need to unpack it and cast the individual fields.
        // In this case, we unpack a single composite column selection to an explicit
        // selection of all fields.
        Type::CompositeType(composite_type) => {
            // build a nested field selection of all fields.
            let nested_field = match unpack_composite_type(env, composite_type) {
                Ok(nested_field) => nested_field,
                Err(error) => {
                    return Err(error);
                },
            };

            // translate this as if it is a nested field selection.
            let translated = translate_nested_field(
                Ghost(depth),
                env,
                state,
                current_table,
                &column_info,
                nested_field,
                join_relationship_fields,
            );
            assert(join_fields_view(join_relationship_fields@).len() == join_fields_view(
                relationships_before,
            ).len());
            assert(join_relationship_fields@ =~= relationships_before);
            match translated {
                Err(error) => Err(error),
                Ok((nested_field_join, nested_column_reference)) => {
                    nested_field_joins.push(nested_field_join);
                    assert(nested_field_joins_view(
                        nested_field_joins@.skip(joins_before.len() as int),
                    ) =~= seq![crate::translation::query::fields::nested_field_join(nested_field_join)]);
                    Ok((alias, Expression::ColumnReference(nested_column_reference)))
                },
            }
        },
        Type::ArrayType(element_type) => match &**element_type {
            Type::ArrayType(_) => Err(
                Error::NestedArraysNotSupported { field_name: column.to_string() },
            ),
            Type::CompositeType(composite_type) => {
                // build a nested field selection of all fields.
                let nested_field = match unpack_composite_type(env, composite_type) {
                    Ok(fields) => NestedField::Array(NestedArray { fields: Box::new(fields) }),
                    Err(error) => {
                        return Err(error);
                    },
                };

                let translated = translate_nested_field(
                    Ghost(depth),
                    env,
                    state,
                    current_table,
                    &column_info,
                    nested_field,
                    join_relationship_fields,
                );
                assert(join_fields_view(join_relationship_fields@).len() == join_fields_view(
                    relationships_before,
                ).len());
                assert(join_relationship_fields@ =~= relationships_before);
                match translated {
                    Err(error) => Err(error),
                    Ok((nested_field_join, nested_column_reference)) => {
                        nested_field_joins.push(nested_field_join);
                        assert(nested_field_joins_view(
                            nested_field_joins@.skip(joins_before.len() as int),
                        ) =~= seq![
                            crate::translation::query::fields::nested_field_join(nested_field_join),
                        ]);
                        Ok((alias, Expression::ColumnReference(nested_column_reference)))
                    },
                }
            },
            Type::ScalarType(scalar_type) => {
                let inner_column_type_representation = env.lookup_type_representation(scalar_type);
                let (alias, expression) = sql::helpers::make_column(
                    current_table.reference.clone(),
                    column_info.name.clone(),
                    alias,
                );
                Ok(
                    (
                        alias,
                        wrap_array_in_type_representation(
                            expression,
                            inner_column_type_representation,
                        ),
                    ),
                )
            },
        },
    }
}

} // verus!
