//! The tables that the translation of fields refers to.

use crate::metadata::{Metadata, Type};
use crate::models::{FieldView, NestedFieldView};
use crate::sql::ast::{
    ColumnReferenceView, ExpressionView, FromView, JoinView, SelectListView, SelectView,
    TableReferenceView,
};
use crate::translation::helpers::{fields_of, ColumnInfo, FieldsView, TableView};
use crate::translation::query::depth::fields_translation;
use crate::translation::query::selection::{
    aliased, all_fields, binding_of, field_meaning, fields_meaning, lemma_list_grows, list_meaning,
    nested_meaning, selection_meaning, Columns, Trace,
};
use vstd::prelude::*;

verus! {

////// Scopes

/// An expression refers only to these tables.
pub open spec fn refers_within(
    expression: ExpressionView,
    tables: Set<TableReferenceView>,
) -> bool
    decreases expression,
{
    match expression {
        ExpressionView::And { left, right } => refers_within(*left, tables) && refers_within(
            *right,
            tables,
        ),
        ExpressionView::Or { left, right } => refers_within(*left, tables) && refers_within(
            *right,
            tables,
        ),
        ExpressionView::Not(negated) => refers_within(*negated, tables),
        ExpressionView::BinaryOperation { left, operator, right } => refers_within(*left, tables)
            && refers_within(*right, tables),
        ExpressionView::FunctionCall { function, args } => forall|i: int|
            0 <= i < args.len() ==> refers_within(#[trigger] args[i], tables),
        ExpressionView::Cast { expression, scalar_type } => refers_within(*expression, tables),
        ExpressionView::RowToJson(table) => tables.contains(table),
        ExpressionView::ColumnReference(ColumnReferenceView::TableColumn { table, name }) => {
            tables.contains(table)
        },
        ExpressionView::ColumnReference(ColumnReferenceView::AliasedColumn { table, column }) => {
            tables.contains(table)
        },
        ExpressionView::Value(_) => true,
    }
}

/// A select list refers only to these tables.
pub open spec fn list_refers_within(
    list: SelectListView,
    tables: Set<TableReferenceView>,
) -> bool
    decreases list,
{
    match list {
        SelectListView::SelectList(columns) => forall|i: int|
            0 <= i < columns.len() ==> refers_within((#[trigger] columns[i]).1, tables),
        SelectListView::SelectStar => true,
        SelectListView::SelectStarComposite(expression) => refers_within(expression, tables),
        SelectListView::SelectListComposite(first, second) => list_refers_within(*first, tables)
            && list_refers_within(*second, tables),
    }
}

/// The tables that a from clause brings into scope.
pub open spec fn from_tables(from: Option<FromView>) -> Set<TableReferenceView> {
    match from {
        None => Set::empty(),
        Some(FromView::Table { reference, alias }) => set![aliased(alias)],
        Some(FromView::Select { select, alias }) => set![aliased(alias)],
        Some(FromView::Variables { alias }) => set![aliased(alias)],
    }
}

/// The table that a join brings into scope.
pub open spec fn join_table(join: JoinView) -> TableReferenceView {
    match join {
        JoinView::LeftOuterJoinLateral { select, alias } => aliased(alias),
        JoinView::InnerJoinLateral { select, alias } => aliased(alias),
    }
}

/// The tables that joins bring into scope.
pub open spec fn join_tables(joins: Seq<JoinView>) -> Set<TableReferenceView> {
    Set::new(
        |table: TableReferenceView|
            exists|i: int| 0 <= i < joins.len() && join_table(#[trigger] joins[i]) == table,
    )
}

/// Each part of a select statement refers only to tables that are in scope there: those around the
/// statement, that of its from clause, and those of its joins, of which a join sees those before it.
pub open spec fn is_in_scope(select: SelectView, around: Set<TableReferenceView>) -> bool
    decreases select, 0nat,
{
    let from = around.union(from_tables(select.from));
    let all = from.union(join_tables(select.joins));
    &&& select.from matches Some(FromView::Select { select: inner, alias }) ==> is_in_scope(
        *inner,
        around,
    )
    &&& joins_are_in_scope(select.joins, select.joins.len(), from)
    &&& list_refers_within(select.select_list, all)
    &&& refers_within(select.where_, all)
    &&& forall|i: int|
        0 <= i < select.order_by.len() ==> refers_within(
            (#[trigger] select.order_by[i]).target,
            all,
        )
}

/// Each of the first `n` joins refers only to these tables and to those of the joins before it.
pub open spec fn joins_are_in_scope(
    joins: Seq<JoinView>,
    n: nat,
    around: Set<TableReferenceView>,
) -> bool
    decreases joins, n,
{
    if n == 0 || n > joins.len() {
        true
    } else {
        &&& joins_are_in_scope(joins, (n - 1) as nat, around)
        &&& join_is_in_scope(joins[n - 1], around.union(join_tables(joins.take(n - 1))))
    }
}

/// A join refers only to these tables.
pub open spec fn join_is_in_scope(join: JoinView, around: Set<TableReferenceView>) -> bool
    decreases join, 0nat,
{
    match join {
        JoinView::LeftOuterJoinLateral { select, alias } => is_in_scope(*select, around),
        JoinView::InnerJoinLateral { select, alias } => is_in_scope(*select, around),
    }
}

/// The tables of the relationship fields that a translation has collected are among these.
pub open spec fn holds_relationships(tables: Set<TableReferenceView>, trace: Trace) -> bool {
    forall|i: int|
        0 <= i < trace.relationships.len() ==> tables.contains(
            aliased((#[trigger] trace.relationships[i]).table_alias),
        )
}

/// Columns and the joins that compute them refer only to these tables and to those of the joins.
pub open spec fn columns_are_in_scope(columns: Columns, around: Set<TableReferenceView>) -> bool {
    &&& joins_are_in_scope(columns.joins, columns.joins.len(), around)
    &&& forall|i: int|
        0 <= i < columns.columns.len() ==> refers_within(
            (#[trigger] columns.columns[i]).1,
            around.union(join_tables(columns.joins)),
        )
}

////// Proofs

proof fn lemma_more_tables(
    expression: ExpressionView,
    tables: Set<TableReferenceView>,
    more: Set<TableReferenceView>,
)
    requires
        refers_within(expression, tables),
        tables.subset_of(more),
    ensures
        refers_within(expression, more),
    decreases expression,
{
    match expression {
        ExpressionView::And { left, right } => {
            lemma_more_tables(*left, tables, more);
            lemma_more_tables(*right, tables, more);
        },
        ExpressionView::Or { left, right } => {
            lemma_more_tables(*left, tables, more);
            lemma_more_tables(*right, tables, more);
        },
        ExpressionView::Not(negated) => {
            lemma_more_tables(*negated, tables, more);
        },
        ExpressionView::BinaryOperation { left, operator, right } => {
            lemma_more_tables(*left, tables, more);
            lemma_more_tables(*right, tables, more);
        },
        ExpressionView::FunctionCall { function, args } => {
            assert forall|i: int| 0 <= i < args.len() implies refers_within(
                #[trigger] args[i],
                more,
            ) by {
                lemma_more_tables(args[i], tables, more);
            }
        },
        ExpressionView::Cast { expression, scalar_type } => {
            lemma_more_tables(*expression, tables, more);
        },
        _ => {},
    }
}

proof fn lemma_joins_of_prefix(
    a: Seq<JoinView>,
    b: Seq<JoinView>,
    n: nat,
    around: Set<TableReferenceView>,
)
    requires
        n <= a.len(),
        joins_are_in_scope(a, n, around),
    ensures
        joins_are_in_scope(a + b, n, around),
    decreases n,
{
    if n > 0 {
        lemma_joins_of_prefix(a, b, (n - 1) as nat, around);
        assert((a + b).take(n - 1) =~= a.take(n - 1));
        assert((a + b)[n - 1] == a[n - 1]);
    }
}

proof fn lemma_joins_in_sequence(
    a: Seq<JoinView>,
    b: Seq<JoinView>,
    n: nat,
    around: Set<TableReferenceView>,
)
    requires
        n <= b.len(),
        joins_are_in_scope(a, a.len(), around),
        joins_are_in_scope(b, n, around.union(join_tables(a))),
    ensures
        joins_are_in_scope(a + b, a.len() + n, around),
    decreases n,
{
    if n == 0 {
        lemma_joins_of_prefix(a, b, a.len(), around);
    } else {
        lemma_joins_in_sequence(a, b, (n - 1) as nat, around);
        let m = a.len() + n - 1;
        lemma_tables_in_sequence(a, b.take(n - 1), around);
        assert((a + b).take(m) =~= a + b.take(n - 1));
        assert((a + b)[m] == b[n - 1]);
    }
}

proof fn lemma_tables_in_sequence(
    a: Seq<JoinView>,
    b: Seq<JoinView>,
    around: Set<TableReferenceView>,
)
    ensures
        around.union(join_tables(a + b)) == around.union(join_tables(a)).union(join_tables(b)),
{
    assert forall|table: TableReferenceView|
        #[trigger] join_tables(a + b).contains(table) <==> join_tables(a).contains(table)
            || join_tables(b).contains(table) by {
        if join_tables(a).contains(table) {
            let i = choose|i: int| 0 <= i < a.len() && join_table(#[trigger] a[i]) == table;
            assert((a + b)[i] == a[i]);
        }
        if join_tables(b).contains(table) {
            let i = choose|i: int| 0 <= i < b.len() && join_table(#[trigger] b[i]) == table;
            assert((a + b)[a.len() + i] == b[i]);
        }
        if join_tables(a + b).contains(table) {
            let i = choose|i: int|
                0 <= i < (a + b).len() && join_table(#[trigger] (a + b)[i]) == table;
            if i < a.len() {
                assert((a + b)[i] == a[i]);
            } else {
                assert((a + b)[i] == b[i - a.len()]);
            }
        }
    }
    assert(around.union(join_tables(a + b)) =~= around.union(join_tables(a)).union(join_tables(b)));
}

proof fn lemma_list_in_scope(
    metadata: Metadata,
    depth: nat,
    trace: Trace,
    fields: Seq<(Seq<char>, FieldView)>,
    n: nat,
    table: TableView,
    info: FieldsView,
    around: Set<TableReferenceView>,
)
    requires
        around.contains(table.reference),
    ensures
        list_meaning(metadata, depth, trace, fields, n, table, info) matches Some(
            (after, Ok(columns)),
        ) ==> holds_relationships(around, after) ==> columns_are_in_scope(columns, around),
    decreases depth, 4nat, n,
{
    if n > 0 {
        lemma_list_grows(metadata, depth, trace, fields, (n - 1) as nat, n, table, info);
        lemma_list_in_scope(metadata, depth, trace, fields, (n - 1) as nat, table, info, around);
        if let Some((after, Ok(all))) = list_meaning(
            metadata,
            depth,
            trace,
            fields,
            n,
            table,
            info,
        ) {
            if holds_relationships(around, after) {
                let (between, columns) = (
                    list_meaning(
                        metadata,
                        depth,
                        trace,
                        fields,
                        (n - 1) as nat,
                        table,
                        info,
                    )->Some_0.0,
                    list_meaning(
                        metadata,
                        depth,
                        trace,
                        fields,
                        (n - 1) as nat,
                        table,
                        info,
                    )->Some_0.1->Ok_0,
                );
                assert(holds_relationships(around, between)) by {
                    assert forall|i: int| 0 <= i < between.relationships.len() implies around.contains(
                        aliased((#[trigger] between.relationships[i]).table_alias),
                    ) by {
                        assert(after.relationships[i] == between.relationships[i]);
                    }
                }
                let more = field_meaning(
                    metadata,
                    depth,
                    between,
                    fields[n - 1].0,
                    fields[n - 1].1,
                    table,
                    info,
                )->Some_0.1->Ok_0;
                let inner = around.union(join_tables(columns.joins));
                assert(holds_relationships(inner, after));
                lemma_field_in_scope(
                    metadata,
                    depth,
                    between,
                    fields[n - 1].0,
                    fields[n - 1].1,
                    table,
                    info,
                    inner,
                );
                lemma_joins_in_sequence(columns.joins, more.joins, more.joins.len(), around);
                lemma_tables_in_sequence(columns.joins, more.joins, around);
                let everything = around.union(join_tables(all.joins));
                assert forall|i: int| 0 <= i < all.columns.len() implies refers_within(
                    (#[trigger] all.columns[i]).1,
                    everything,
                ) by {
                    if i < columns.columns.len() {
                        assert(all.columns[i] == columns.columns[i]);
                        lemma_more_tables(columns.columns[i].1, inner, everything);
                    } else {
                        assert(all.columns[i] == more.columns[i - columns.columns.len()]);
                    }
                }
            }
        }
    }
}

proof fn lemma_field_in_scope(
    metadata: Metadata,
    depth: nat,
    trace: Trace,
    alias: Seq<char>,
    field: FieldView,
    table: TableView,
    info: FieldsView,
    around: Set<TableReferenceView>,
)
    requires
        around.contains(table.reference),
    ensures
        field_meaning(metadata, depth, trace, alias, field, table, info) matches Some(
            (after, Ok(more)),
        ) ==> holds_relationships(around, after) ==> columns_are_in_scope(more, around),
    decreases depth, 3nat, 0nat,
{
    reveal_with_fuel(refers_within, 2);
    match field {
        FieldView::Column { column, fields: None } => if let Ok(column_info) = info.column(column) {
            match column_info.data_type {
                Type::ScalarType(_) => {},
                Type::CompositeType(name) => if let Some(inner) = fields_of(metadata, name.0@) {
                    lemma_nested_in_scope(
                        metadata,
                        depth,
                        trace,
                        alias,
                        table,
                        column_info,
                        NestedFieldView::Object(all_fields(inner)),
                        around,
                    );
                },
                Type::ArrayType(element_type) => if let Type::CompositeType(name) = *element_type {
                    if let Some(inner) = fields_of(metadata, name.0@) {
                        lemma_nested_in_scope(
                            metadata,
                            depth,
                            trace,
                            alias,
                            table,
                            column_info,
                            NestedFieldView::Array(
                                Box::new(NestedFieldView::Object(all_fields(inner))),
                            ),
                            around,
                        );
                    }
                },
            }
        },
        FieldView::Column { column, fields: Some(selection) } => {
            if let Ok(column_info) = info.column(column) {
                lemma_nested_in_scope(
                    metadata,
                    depth,
                    trace,
                    alias,
                    table,
                    column_info,
                    selection,
                    around,
                );
            }
        },
        FieldView::Relationship { .. } => {
            if let Some((after, Ok(more))) = field_meaning(
                metadata,
                depth,
                trace,
                alias,
                field,
                table,
                info,
            ) {
                assert(after.relationships.last() == after.relationships[after.relationships.len()
                    - 1]);
            }
        },
    }
}

proof fn lemma_nested_in_scope(
    metadata: Metadata,
    depth: nat,
    trace: Trace,
    alias: Seq<char>,
    table: TableView,
    column: ColumnInfo,
    selection: NestedFieldView,
    around: Set<TableReferenceView>,
)
    requires
        around.contains(table.reference),
    ensures
        nested_meaning(metadata, depth, trace, alias, table, column, selection) matches Some(
            (after, Ok(more)),
        ) ==> holds_relationships(around, after) ==> columns_are_in_scope(more, around),
    decreases depth, 1nat, 0nat,
{
    if let Some((after, Ok((join, reference)))) = selection_meaning(
        metadata,
        depth,
        trace,
        table,
        column,
        selection,
    ) {
        if holds_relationships(around, after) {
            lemma_selection_in_scope(metadata, depth, trace, table, column, selection, around);
            let joins = seq![join];
            reveal_with_fuel(joins_are_in_scope, 2);
            assert(around.union(join_tables(joins.take(0))) =~= around);
            assert(join_table(joins[0]) == aliased(join->LeftOuterJoinLateral_alias));
        }
    }
}

proof fn lemma_selection_in_scope(
    metadata: Metadata,
    depth: nat,
    trace: Trace,
    table: TableView,
    column: ColumnInfo,
    selection: NestedFieldView,
    around: Set<TableReferenceView>,
)
    requires
        around.contains(table.reference),
    ensures
        selection_meaning(metadata, depth, trace, table, column, selection) matches Some(
            (after, Ok((join, _))),
        ) ==> holds_relationships(around, after) ==> join_is_in_scope(join, around),
    decreases depth, 0nat, 0nat,
{
    if let Some((after, Ok((join, _)))) = selection_meaning(
        metadata,
        depth,
        trace,
        table,
        column,
        selection,
    ) {
        if holds_relationships(around, after) {
            let binding = binding_of(
                table,
                column,
                trace.alias("nested_fields"@),
                selection,
            )->Ok_0;
            let inner_trace = trace.advanced().advanced();
            let inner_table = TableView {
                name: binding.type_of_value,
                reference: aliased(trace.advanced().alias("nested_field_binding"@)),
            };
            let inner_depth = (depth - 1) as nat;
            let (inner_after, result) = fields_meaning(
                metadata,
                inner_depth,
                inner_trace,
                binding.fields,
                inner_table,
            )->Some_0;
            let fields = result->Ok_0;
            let info = fields_of(metadata, inner_table.name)->Some_0;
            let inner = around.union(set![inner_table.reference]);
            assert(holds_relationships(inner, inner_after));
            lemma_list_in_scope(
                metadata,
                inner_depth,
                inner_trace,
                binding.fields,
                binding.fields.len(),
                inner_table,
                info,
                inner,
            );
            let collecting = *join->LeftOuterJoinLateral_select;
            let selecting = *collecting.from->Some_0->Select_select;
            let binding_select = *selecting.from->Some_0->Select_select;
            reveal_with_fuel(refers_within, 3);
            let fields_table = aliased(trace.alias("nested_fields"@));
            assert(joins_are_in_scope(Seq::empty(), 0, around.union(Set::empty())));
            assert(is_in_scope(binding_select, around));
            assert(is_in_scope(selecting, around));
            assert(joins_are_in_scope(Seq::empty(), 0, around.union(set![fields_table])));
            assert(is_in_scope(collecting, around));
        }
    }
}

/// The translation of fields refers only to tables that are in scope: the table of the fields, the
/// tables of the relationship fields, and what the joins and from clauses of the translation itself
/// bring into scope.
pub proof fn lemma_fields_are_in_scope(
    metadata: Metadata,
    trace: Trace,
    fields: Seq<(Seq<char>, FieldView)>,
    table: TableView,
    around: Set<TableReferenceView>,
)
    requires
        around.contains(table.reference),
    ensures
        fields_translation(metadata, trace, fields, table) matches Some((after, Ok(select)))
            ==> holds_relationships(around, after) ==> is_in_scope(select, around),
{
    if let Some(info) = fields_of(metadata, table.name) {
        let depth = choose|depth: nat|
            fields_meaning(metadata, depth, trace, fields, table) is Some;
        lemma_list_in_scope(metadata, depth, trace, fields, fields.len(), table, info, around);
        assert(around.union(Set::empty()) =~= around);
    }
}

} // verus!
