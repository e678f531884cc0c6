//! The parts of the translation that the user of this library supplies.

use crate::json;
use crate::metadata::Type;
use crate::models;
use crate::sql::ast::{ColumnAlias, Expression, Join, OrderBy, TableReference};
use crate::sql::helpers::spec_true_expr;
use crate::translation::error::Error;
use crate::translation::helpers::{Env, RootAndCurrentTables, State};
use crate::translation::query::relationships::JoinFieldInfo;
use vstd::prelude::*;

verus! {

/// Translations of the parts of a request that this library passes on as they are. A translation
/// that makes table aliases or native query calls takes the state and hands it back.
pub trait Translators {
    /// Translates the order of the rows of the current table, which may need joins.
    fn translate_order_by(
        &self,
        env: &Env<'_>,
        state: State,
        tables: &RootAndCurrentTables,
        order_by: &Option<models::OrderBy>,
    ) -> (State, Result<(OrderBy, Vec<Join>), Error>);

    /// Translates a predicate on the rows of the current table, which may need joins.
    fn translate_expression(
        &self,
        env: &Env<'_>,
        state: State,
        tables: &RootAndCurrentTables,
        predicate: &models::Expression,
    ) -> (State, Result<(Expression, Vec<Join>), Error>);

    /// Translates the relationships that the fields of the current table follow.
    fn translate_joins(
        &self,
        env: &Env<'_>,
        state: State,
        tables: &RootAndCurrentTables,
        join_fields: Vec<JoinFieldInfo>,
    ) -> (State, Result<Vec<Join>, Error>);

    /// Translates the aggregates of a table.
    fn translate_aggregates(
        &self,
        table: &TableReference,
        aggregates: &Vec<(String, models::Aggregate)>,
    ) -> Result<Vec<(ColumnAlias, Expression)>, Error>;

    /// Translates a value of a type.
    fn translate_json_value(
        &self,
        env: &Env<'_>,
        state: State,
        value: &json::Value,
        data_type: &Type,
    ) -> (State, Result<Expression, Error>);

    /// Reads a predicate, where the document states one.
    fn read_expression(&self, document: &json::Value) -> Option<models::Expression>;

    /// Translates a predicate that inserted rows are held to, which needs no joins.
    fn translate_constraint(
        &self,
        env: &Env<'_>,
        state: State,
        tables: &RootAndCurrentTables,
        predicate: &models::Expression,
    ) -> (State, Result<Expression, Error>);
}

/// The order of the rows can be translated to `r`, which takes the state from `before` to `after`.
pub open spec fn orders<T: Translators>(
    translators: T,
    env: Env<'_>,
    before: State,
    tables: RootAndCurrentTables,
    order_by: Option<models::OrderBy>,
    after: State,
    r: Result<(OrderBy, Vec<Join>), Error>,
) -> bool {
    call_ensures(T::translate_order_by, (&translators, &env, before, &tables, &order_by), (after, r))
}

/// The predicate can be translated to `r`, which takes the state from `before` to `after`. Where
/// there is none, all rows are kept.
pub open spec fn filters<T: Translators>(
    translators: T,
    env: Env<'_>,
    before: State,
    tables: RootAndCurrentTables,
    predicate: Option<models::Expression>,
    after: State,
    r: Result<(Expression, Vec<Join>), Error>,
) -> bool {
    match predicate {
        None => {
            &&& after == before
            &&& r matches Ok((filter, joins)) && filter == spec_true_expr() && joins@
                == Seq::<Join>::empty()
        },
        Some(predicate) => call_ensures(
            T::translate_expression,
            (&translators, &env, before, &tables, &predicate),
            (after, r),
        ),
    }
}

/// The relationships can be translated to `r`, which takes the state from `before` to `after`.
pub open spec fn follows<T: Translators>(
    translators: T,
    env: Env<'_>,
    before: State,
    tables: RootAndCurrentTables,
    join_fields: Vec<JoinFieldInfo>,
    after: State,
    r: Result<Vec<Join>, Error>,
) -> bool {
    call_ensures(T::translate_joins, (&translators, &env, before, &tables, join_fields), (after, r))
}

/// The aggregates can be translated to `r`.
pub open spec fn aggregates<T: Translators>(
    translators: T,
    table: TableReference,
    aggregates: Vec<(String, models::Aggregate)>,
    r: Result<Vec<(ColumnAlias, Expression)>, Error>,
) -> bool {
    call_ensures(T::translate_aggregates, (&translators, &table, &aggregates), r)
}

/// The value can be translated to `r`, which takes the state from `before` to `after`.
pub open spec fn writes_value<T: Translators>(
    translators: T,
    env: Env<'_>,
    before: State,
    value: json::Value,
    data_type: Type,
    after: State,
    r: Result<Expression, Error>,
) -> bool {
    call_ensures(
        T::translate_json_value,
        (&translators, &env, before, &value, &data_type),
        (after, r),
    )
}

/// The document can be read as `r`.
pub open spec fn reads_expression<T: Translators>(
    translators: T,
    document: json::Value,
    r: Option<models::Expression>,
) -> bool {
    call_ensures(T::read_expression, (&translators, &document), r)
}

/// The predicate on inserted rows can be translated to `r`, which takes the state from `before` to
/// `after`.
pub open spec fn constrains<T: Translators>(
    translators: T,
    env: Env<'_>,
    before: State,
    tables: RootAndCurrentTables,
    predicate: models::Expression,
    after: State,
    r: Result<Expression, Error>,
) -> bool {
    call_ensures(
        T::translate_constraint,
        (&translators, &env, before, &tables, &predicate),
        (after, r),
    )
}

} // verus!
