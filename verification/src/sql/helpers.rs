//! Ways to build SQL statements.

use crate::sql::ast::{
    columns_view, ColumnAlias, ColumnName, ColumnReference, Expression, ExpressionView, From,
    JoinView, Limit, OrderBy, OrderByElementView, ScalarTypeName, ScalarTypeNameView, Select,
    SelectList, SelectListView, SelectView, TableAlias, TableReference, Value, ValueView, Where,
};
use vstd::prelude::*;

verus! {

/// The name under which an insert statement returns whether the inserted row satisfies the
/// constraint.
pub const CHECK_CONSTRAINT_FIELD: &'static str = "%check__constraint";

/// The alias of a column.
pub fn make_column_alias(name: String) -> (r: ColumnAlias)
    ensures
        r.name == name,
{
    ColumnAlias { name }
}

/// A column of a table, under an alias.
pub fn make_column(table: TableReference, name: ColumnName, alias: ColumnAlias) -> (r: (
    ColumnAlias,
    Expression,
))
    ensures
        r.0 == alias,
        r.1 == Expression::ColumnReference(ColumnReference::TableColumn { table, name }),
{
    (alias, Expression::ColumnReference(ColumnReference::TableColumn { table, name }))
}

/// The expression that always holds.
pub open spec fn spec_true_expr() -> Expression {
    Expression::Value(Value::Bool(true))
}

/// The expression that always holds.
pub fn true_expr() -> (r: Expression)
    ensures
        r == spec_true_expr(),
{
    Expression::Value(Value::Bool(true))
}

/// No order.
pub fn empty_order_by() -> (r: OrderBy)
    ensures
        r@ == Seq::<OrderByElementView>::empty(),
{
    let r = OrderBy { elements: Vec::new() };
    assert(r@ =~= Seq::<OrderByElementView>::empty());
    r
}

/// No limit.
pub open spec fn spec_empty_limit() -> Limit {
    Limit { limit: None, offset: None }
}

/// A statement that selects `select_list` and nothing else.
pub open spec fn bare_select(select_list: SelectListView) -> SelectView {
    SelectView {
        select_list,
        from: None,
        joins: Seq::empty(),
        where_: ExpressionView::Value(ValueView::Bool(true)),
        order_by: Seq::empty(),
        limit: spec_empty_limit(),
    }
}

/// A statement that selects `select_list` and nothing else.
fn make_bare_select(select_list: SelectList) -> (r: Select)
    ensures
        r@ == bare_select(select_list@),
        r.select_list == select_list,
        r.from is None,
        r.joins@.len() == 0,
        r.limit == spec_empty_limit(),
{
    let r = Select {
        select_list,
        from: None,
        joins: Vec::new(),
        where_: Where(true_expr()),
        order_by: empty_order_by(),
        limit: Limit { limit: None, offset: None },
    };
    assert(r@.joins =~= Seq::<JoinView>::empty());
    r
}

/// A select statement with the given columns, and nothing else.
pub fn simple_select(select_list: Vec<(ColumnAlias, Expression)>) -> (r: Select)
    ensures
        r@ == bare_select(SelectListView::SelectList(columns_view(select_list@))),
        r.select_list == SelectList::SelectList(select_list),
        r.from is None,
        r.joins@.len() == 0,
        r.limit == spec_empty_limit(),
{
    make_bare_select(SelectList::SelectList(select_list))
}

/// `SELECT (<expression>).*`
pub fn select_composite(expression: Expression) -> (r: Select)
    ensures
        r@ == bare_select(SelectListView::SelectStarComposite(expression@)),
{
    make_bare_select(SelectList::SelectStarComposite(expression))
}

/// The table of the variables of the request, under an alias.
pub fn from_variables(alias: TableAlias) -> (r: From)
    ensures
        r == (From::Variables { alias }),
{
    From::Variables { alias }
}

impl ScalarTypeName {
    /// The scalar type of the given name, in no particular schema.
    pub fn new_unqualified(name: &str) -> (r: ScalarTypeName)
        ensures
            r@ == (ScalarTypeNameView { schema_name: None, name: name@, is_array: false }),
    {
        ScalarTypeName {
            schema_name: None,
            name: String::from_str(name),
            is_array: false,
        }
    }
}

} // verus!
