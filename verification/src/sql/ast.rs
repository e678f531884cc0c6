//! The structure of SQL statements.
//!
//! Beside each type that holds strings or lists stands a type, named after it, of what its values
//! hold.

use vstd::prelude::*;

verus! {

/// The name of a schema.
#[derive(Debug, PartialEq, Eq)]
pub struct SchemaName(pub String);

/// The name of a table in the database.
#[derive(Debug, PartialEq, Eq)]
pub struct TableName(pub String);

/// The name of a column in the database.
#[derive(Debug, PartialEq, Eq)]
pub struct ColumnName(pub String);

/// A name that a statement gives to a column.
#[derive(Debug, PartialEq, Eq)]
pub struct ColumnAlias {
    pub name: String,
}

/// A name that a statement gives to a table. The index tells aliases of the same name apart.
#[derive(Debug, PartialEq, Eq)]
pub struct TableAlias {
    pub unique_index: u64,
    pub name: String,
}

/// A table in the database, or one that the statement has named.
#[derive(Debug, PartialEq, Eq)]
pub enum TableReference {
    DBTable { schema: SchemaName, table: TableName },
    AliasedTable(TableAlias),
}

/// A column of a table, by its name in the database or by its alias.
#[derive(Debug, PartialEq, Eq)]
pub enum ColumnReference {
    TableColumn { table: TableReference, name: ColumnName },
    AliasedColumn { table: TableReference, column: ColumnAlias },
}

/// The name of a scalar type, or of the array type over it.
#[derive(Debug, PartialEq, Eq)]
pub struct ScalarTypeName {
    pub schema_name: Option<SchemaName>,
    pub name: String,
    pub is_array: bool,
}

/// A function of the database.
#[derive(Debug, PartialEq, Eq)]
pub enum Function {
    JsonAgg,
    Unnest,
    Unknown(String),
}

/// The name of an operator with two operands.
#[derive(Debug, PartialEq, Eq)]
pub struct BinaryOperator(pub String);

/// A value in a statement.
#[derive(Debug, PartialEq, Eq)]
pub enum Value {
    Null,
    Bool(bool),
    String(String),
    Variable(String),
}

/// A scalar expression.
#[derive(Debug, PartialEq, Eq)]
pub enum Expression {
    And { left: Box<Expression>, right: Box<Expression> },
    Or { left: Box<Expression>, right: Box<Expression> },
    Not(Box<Expression>),
    BinaryOperation { left: Box<Expression>, operator: BinaryOperator, right: Box<Expression> },
    /// A call of a function.
    FunctionCall { function: Function, args: Vec<Expression> },
    /// `CAST(<expression> AS <type>)`
    Cast { expression: Box<Expression>, scalar_type: ScalarTypeName },
    /// `row_to_json(<table>)`
    RowToJson(TableReference),
    ColumnReference(ColumnReference),
    Value(Value),
}

/// What a `SELECT` selects.
#[derive(Debug, PartialEq, Eq)]
pub enum SelectList {
    /// Expressions, under the given names.
    SelectList(Vec<(ColumnAlias, Expression)>),
    /// `*`
    SelectStar,
    /// `(<expression>).*`
    SelectStarComposite(Expression),
    /// One list after another.
    SelectListComposite(Box<SelectList>, Box<SelectList>),
}

/// A `FROM` clause.
#[derive(Debug, PartialEq, Eq)]
pub enum From {
    Table { reference: TableReference, alias: TableAlias },
    Select { select: Box<Select>, alias: TableAlias },
    /// The table of the variables of the request.
    Variables { alias: TableAlias },
}

/// `LEFT OUTER JOIN LATERAL (<select>) AS <alias> ON ('true')`
#[derive(Debug, PartialEq, Eq)]
pub struct LeftOuterJoinLateral {
    pub select: Box<Select>,
    pub alias: TableAlias,
}

/// `INNER JOIN LATERAL (<select>) AS <alias> ON ('true')`
#[derive(Debug, PartialEq, Eq)]
pub struct InnerJoinLateral {
    pub select: Box<Select>,
    pub alias: TableAlias,
}

/// A `JOIN` clause.
#[derive(Debug, PartialEq, Eq)]
pub enum Join {
    LeftOuterJoinLateral(LeftOuterJoinLateral),
    InnerJoinLateral(InnerJoinLateral),
}

/// A `WHERE` clause.
#[derive(Debug, PartialEq, Eq)]
pub struct Where(pub Expression);

/// The direction of an order.
#[derive(Debug, Clone, Copy, PartialEq, Eq)]
pub enum OrderByDirection {
    Asc,
    Desc,
}

/// An expression to order by.
#[derive(Debug, PartialEq, Eq)]
pub struct OrderByElement {
    pub target: Expression,
    pub direction: OrderByDirection,
}

/// An `ORDER BY` clause.
#[derive(Debug, PartialEq, Eq)]
pub struct OrderBy {
    pub elements: Vec<OrderByElement>,
}

/// `LIMIT` and `OFFSET` clauses.
#[derive(Debug, Clone, Copy, PartialEq, Eq)]
pub struct Limit {
    pub limit: Option<u32>,
    pub offset: Option<u32>,
}

/// A `SELECT` statement.
#[derive(Debug, PartialEq, Eq)]
pub struct Select {
    pub select_list: SelectList,
    pub from: Option<From>,
    pub joins: Vec<Join>,
    pub where_: Where,
    pub order_by: OrderBy,
    pub limit: Limit,
}

/// A value to insert into a column.
#[derive(Debug, PartialEq, Eq)]
pub enum InsertExpression {
    Expression(Expression),
    /// The default value of the column.
    Default,
}

/// A `RETURNING` clause.
#[derive(Debug, PartialEq, Eq)]
pub enum Returning {
    Returning(SelectList),
}

/// An `INSERT` statement.
#[derive(Debug, PartialEq, Eq)]
pub struct Insert {
    pub schema: SchemaName,
    pub table: TableName,
    pub columns: Vec<ColumnName>,
    pub values: Vec<Vec<InsertExpression>>,
    pub returning: Returning,
}

////// What the values of these types hold

/// What a table alias holds.
pub struct TableAliasView {
    pub unique_index: nat,
    pub name: Seq<char>,
}

/// What a table reference holds.
pub enum TableReferenceView {
    DBTable { schema: Seq<char>, table: Seq<char> },
    AliasedTable(TableAliasView),
}

/// What a column reference holds.
pub enum ColumnReferenceView {
    TableColumn { table: TableReferenceView, name: Seq<char> },
    AliasedColumn { table: TableReferenceView, column: Seq<char> },
}

/// What the name of a scalar type holds.
pub struct ScalarTypeNameView {
    pub schema_name: Option<Seq<char>>,
    pub name: Seq<char>,
    pub is_array: bool,
}

/// What a function's name holds.
pub enum FunctionView {
    JsonAgg,
    Unnest,
    Unknown(Seq<char>),
}

/// What a value holds.
pub enum ValueView {
    Null,
    Bool(bool),
    String(Seq<char>),
    Variable(Seq<char>),
}

/// What an expression holds.
pub enum ExpressionView {
    And { left: Box<ExpressionView>, right: Box<ExpressionView> },
    Or { left: Box<ExpressionView>, right: Box<ExpressionView> },
    Not(Box<ExpressionView>),
    BinaryOperation {
        left: Box<ExpressionView>,
        operator: Seq<char>,
        right: Box<ExpressionView>,
    },
    FunctionCall { function: FunctionView, args: Seq<ExpressionView> },
    Cast { expression: Box<ExpressionView>, scalar_type: ScalarTypeNameView },
    RowToJson(TableReferenceView),
    ColumnReference(ColumnReferenceView),
    Value(ValueView),
}

/// What a select list holds.
pub enum SelectListView {
    SelectList(Seq<(Seq<char>, ExpressionView)>),
    SelectStar,
    SelectStarComposite(ExpressionView),
    SelectListComposite(Box<SelectListView>, Box<SelectListView>),
}

/// What a from clause holds.
pub enum FromView {
    Table { reference: TableReferenceView, alias: TableAliasView },
    Select { select: Box<SelectView>, alias: TableAliasView },
    Variables { alias: TableAliasView },
}

/// What a join holds.
pub enum JoinView {
    LeftOuterJoinLateral { select: Box<SelectView>, alias: TableAliasView },
    InnerJoinLateral { select: Box<SelectView>, alias: TableAliasView },
}

/// What an element of an order holds.
pub struct OrderByElementView {
    pub target: ExpressionView,
    pub direction: OrderByDirection,
}

/// What a select statement holds.
pub struct SelectView {
    pub select_list: SelectListView,
    pub from: Option<FromView>,
    pub joins: Seq<JoinView>,
    pub where_: ExpressionView,
    pub order_by: Seq<OrderByElementView>,
    pub limit: Limit,
}

impl View for TableAlias {
    type V = TableAliasView;

    open spec fn view(&self) -> TableAliasView {
        TableAliasView { unique_index: self.unique_index as nat, name: self.name@ }
    }
}

impl View for TableReference {
    type V = TableReferenceView;

    open spec fn view(&self) -> TableReferenceView {
        match *self {
            TableReference::DBTable { schema, table } => TableReferenceView::DBTable {
                schema: schema.0@,
                table: table.0@,
            },
            TableReference::AliasedTable(alias) => TableReferenceView::AliasedTable(alias@),
        }
    }
}

impl View for ColumnReference {
    type V = ColumnReferenceView;

    open spec fn view(&self) -> ColumnReferenceView {
        match *self {
            ColumnReference::TableColumn { table, name } => ColumnReferenceView::TableColumn {
                table: table@,
                name: name.0@,
            },
            ColumnReference::AliasedColumn { table, column } => {
                ColumnReferenceView::AliasedColumn { table: table@, column: column.name@ }
            },
        }
    }
}

impl View for ScalarTypeName {
    type V = ScalarTypeNameView;

    open spec fn view(&self) -> ScalarTypeNameView {
        ScalarTypeNameView {
            schema_name: match self.schema_name {
                Some(schema) => Some(schema.0@),
                None => None,
            },
            name: self.name@,
            is_array: self.is_array,
        }
    }
}

impl View for Function {
    type V = FunctionView;

    open spec fn view(&self) -> FunctionView {
        match *self {
            Function::JsonAgg => FunctionView::JsonAgg,
            Function::Unnest => FunctionView::Unnest,
            Function::Unknown(name) => FunctionView::Unknown(name@),
        }
    }
}

impl View for Value {
    type V = ValueView;

    open spec fn view(&self) -> ValueView {
        match *self {
            Value::Null => ValueView::Null,
            Value::Bool(b) => ValueView::Bool(b),
            Value::String(text) => ValueView::String(text@),
            Value::Variable(name) => ValueView::Variable(name@),
        }
    }
}

impl Expression {
    pub open spec fn view(&self) -> ExpressionView
        decreases self,
    {
        match *self {
            Expression::And { left, right } => ExpressionView::And {
                left: Box::new(left.view()),
                right: Box::new(right.view()),
            },
            Expression::Or { left, right } => ExpressionView::Or {
                left: Box::new(left.view()),
                right: Box::new(right.view()),
            },
            Expression::Not(expression) => ExpressionView::Not(Box::new(expression.view())),
            Expression::BinaryOperation { left, operator, right } => {
                ExpressionView::BinaryOperation {
                    left: Box::new(left.view()),
                    operator: operator.0@,
                    right: Box::new(right.view()),
                }
            },
            Expression::FunctionCall { function, args } => ExpressionView::FunctionCall {
                function: function@,
                args: Seq::new(
                    args@.len(),
                    |i: int|
                        if 0 <= i < args@.len() {
                            args@[i].view()
                        } else {
                            arbitrary()
                        },
                ),
            },
            Expression::Cast { expression, scalar_type } => ExpressionView::Cast {
                expression: Box::new(expression.view()),
                scalar_type: scalar_type@,
            },
            Expression::RowToJson(table) => ExpressionView::RowToJson(table@),
            Expression::ColumnReference(column) => ExpressionView::ColumnReference(column@),
            Expression::Value(value) => ExpressionView::Value(value@),
        }
    }
}

/// What a list of named expressions holds.
pub open spec fn columns_view(columns: Seq<(ColumnAlias, Expression)>) -> Seq<
    (Seq<char>, ExpressionView),
> {
    Seq::new(columns.len(), |i: int| (columns[i].0.name@, columns[i].1@))
}

impl SelectList {
    pub open spec fn view(&self) -> SelectListView
        decreases self,
    {
        match *self {
            SelectList::SelectList(columns) => SelectListView::SelectList(columns_view(columns@)),
            SelectList::SelectStar => SelectListView::SelectStar,
            SelectList::SelectStarComposite(expression) => SelectListView::SelectStarComposite(
                expression@,
            ),
            SelectList::SelectListComposite(first, second) => SelectListView::SelectListComposite(
                Box::new(first.view()),
                Box::new(second.view()),
            ),
        }
    }
}

impl From {
    pub open spec fn view(&self) -> FromView
        decreases self,
    {
        match *self {
            From::Table { reference, alias } => FromView::Table {
                reference: reference@,
                alias: alias@,
            },
            From::Select { select, alias } => FromView::Select {
                select: Box::new(select.view()),
                alias: alias@,
            },
            From::Variables { alias } => FromView::Variables { alias: alias@ },
        }
    }
}

impl Join {
    pub open spec fn view(&self) -> JoinView
        decreases self,
    {
        match *self {
            Join::LeftOuterJoinLateral(join) => JoinView::LeftOuterJoinLateral {
                select: Box::new(join.select.view()),
                alias: join.alias@,
            },
            Join::InnerJoinLateral(join) => JoinView::InnerJoinLateral {
                select: Box::new(join.select.view()),
                alias: join.alias@,
            },
        }
    }
}

/// What a list of joins holds.
pub open spec fn joins_view(joins: Seq<Join>) -> Seq<JoinView>
    decreases joins,
{
    Seq::new(
        joins.len(),
        |i: int|
            if 0 <= i < joins.len() {
                joins[i].view()
            } else {
                arbitrary()
            },
    )
}

impl View for OrderBy {
    type V = Seq<OrderByElementView>;

    open spec fn view(&self) -> Seq<OrderByElementView> {
        Seq::new(
            self.elements@.len(),
            |i: int|
                OrderByElementView {
                    target: self.elements@[i].target@,
                    direction: self.elements@[i].direction,
                },
        )
    }
}

impl Select {
    pub open spec fn view(&self) -> SelectView
        decreases self,
    {
        SelectView {
            select_list: self.select_list@,
            from: match self.from {
                Some(from) => Some(from.view()),
                None => None,
            },
            joins: joins_view(self.joins@),
            where_: self.where_.0@,
            order_by: self.order_by@,
            limit: self.limit,
        }
    }
}

////// Copies

impl Clone for SchemaName {
    fn clone(&self) -> (r: Self)
        ensures
            r == *self,
    {
        SchemaName(self.0.clone())
    }
}

impl Clone for TableName {
    fn clone(&self) -> (r: Self)
        ensures
            r == *self,
    {
        TableName(self.0.clone())
    }
}

impl Clone for ColumnName {
    fn clone(&self) -> (r: Self)
        ensures
            r == *self,
    {
        ColumnName(self.0.clone())
    }
}

impl Clone for ColumnAlias {
    fn clone(&self) -> (r: Self)
        ensures
            r == *self,
    {
        ColumnAlias { name: self.name.clone() }
    }
}

impl Clone for TableAlias {
    fn clone(&self) -> (r: Self)
        ensures
            r == *self,
    {
        TableAlias { unique_index: self.unique_index, name: self.name.clone() }
    }
}

impl Clone for TableReference {
    fn clone(&self) -> (r: Self)
        ensures
            r == *self,
    {
        match self {
            TableReference::DBTable { schema, table } => TableReference::DBTable {
                schema: schema.clone(),
                table: table.clone(),
            },
            TableReference::AliasedTable(alias) => TableReference::AliasedTable(alias.clone()),
        }
    }
}

impl Clone for ColumnReference {
    fn clone(&self) -> (r: Self)
        ensures
            r == *self,
    {
        match self {
            ColumnReference::TableColumn { table, name } => ColumnReference::TableColumn {
                table: table.clone(),
                name: name.clone(),
            },
            ColumnReference::AliasedColumn { table, column } => ColumnReference::AliasedColumn {
                table: table.clone(),
                column: column.clone(),
            },
        }
    }
}

impl Clone for ScalarTypeName {
    fn clone(&self) -> (r: Self)
        ensures
            r == *self,
    {
        ScalarTypeName {
            schema_name: match &self.schema_name {
                Some(schema) => Some(schema.clone()),
                None => None,
            },
            name: self.name.clone(),
            is_array: self.is_array,
        }
    }
}

impl Clone for Function {
    fn clone(&self) -> (r: Self)
        ensures
            r == *self,
    {
        match self {
            Function::JsonAgg => Function::JsonAgg,
            Function::Unnest => Function::Unnest,
            Function::Unknown(name) => Function::Unknown(name.clone()),
        }
    }
}

impl Clone for Value {
    fn clone(&self) -> (r: Self)
        ensures
            r == *self,
    {
        match self {
            Value::Null => Value::Null,
            Value::Bool(b) => Value::Bool(*b),
            Value::String(text) => Value::String(text.clone()),
            Value::Variable(name) => Value::Variable(name.clone()),
        }
    }
}

impl Clone for Expression {
    fn clone(&self) -> (r: Self)
        ensures
            r@ == self@,
        decreases self,
    {
        match self {
            Expression::And { left, right } => {
                let l: Expression = (&**left).clone();
                let r: Expression = (&**right).clone();
                Expression::And { left: Box::new(l), right: Box::new(r) }
            },
            Expression::Or { left, right } => {
                let l: Expression = (&**left).clone();
                let r: Expression = (&**right).clone();
                Expression::Or { left: Box::new(l), right: Box::new(r) }
            },
            Expression::Not(expression) => {
                let e: Expression = (&**expression).clone();
                Expression::Not(Box::new(e))
            },
            Expression::BinaryOperation { left, operator, right } => {
                let l: Expression = (&**left).clone();
                let r: Expression = (&**right).clone();
                Expression::BinaryOperation {
                    left: Box::new(l),
                    operator: BinaryOperator(operator.0.clone()),
                    right: Box::new(r),
                }
            },
            Expression::FunctionCall { function, args } => {
                let mut copies: Vec<Expression> = Vec::new();
                let mut i: usize = 0;
                while i < args.len()
                    invariant
                        i <= args@.len(),
                        copies@.len() == i,
                        *self == (Expression::FunctionCall { function: *function, args: *args }),
                        forall|j: int| 0 <= j < i ==> (#[trigger] copies@[j])@ == args@[j]@,
                    decreases args@.len() - i,
                {
                    assert(decreases_to!(*self => self->args@[i as int]));
                    copies.push(args[i].clone());
                    i = i + 1;
                }
                let r = Expression::FunctionCall { function: function.clone(), args: copies };
                assert(r@->args =~= self@->args);
                r
            },
            Expression::Cast { expression, scalar_type } => {
                let e: Expression = (&**expression).clone();
                Expression::Cast { expression: Box::new(e), scalar_type: scalar_type.clone() }
            },
            Expression::RowToJson(table) => Expression::RowToJson(table.clone()),
            Expression::ColumnReference(column) => Expression::ColumnReference(column.clone()),
            Expression::Value(value) => Expression::Value(value.clone()),
        }
    }
}

impl Clone for SelectList {
    fn clone(&self) -> (r: Self)
        ensures
            r@ == self@,
        decreases self,
    {
        match self {
            SelectList::SelectList(columns) => {
                let mut copies: Vec<(ColumnAlias, Expression)> = Vec::new();
                let mut i: usize = 0;
                while i < columns.len()
                    invariant
                        i <= columns@.len(),
                        copies@.len() == i,
                        forall|j: int|
                            0 <= j < i ==> (#[trigger] copies@[j]).0 == columns@[j].0
                                && copies@[j].1@ == columns@[j].1@,
                    decreases columns@.len() - i,
                {
                    copies.push((columns[i].0.clone(), columns[i].1.clone()));
                    i = i + 1;
                }
                assert(columns_view(copies@) =~= columns_view(columns@));
                SelectList::SelectList(copies)
            },
            SelectList::SelectStar => SelectList::SelectStar,
            SelectList::SelectStarComposite(expression) => SelectList::SelectStarComposite(
                expression.clone(),
            ),
            SelectList::SelectListComposite(first, second) => {
                let a: SelectList = (&**first).clone();
                let b: SelectList = (&**second).clone();
                SelectList::SelectListComposite(Box::new(a), Box::new(b))
            },
        }
    }
}

impl Clone for OrderBy {
    fn clone(&self) -> (r: Self)
        ensures
            r@ == self@,
    {
        let mut elements: Vec<OrderByElement> = Vec::new();
        let mut i: usize = 0;
        while i < self.elements.len()
            invariant
                i <= self.elements@.len(),
                elements@.len() == i,
                forall|j: int|
                    0 <= j < i ==> (#[trigger] elements@[j]).target@ == self.elements@[j].target@
                        && elements@[j].direction == self.elements@[j].direction,
            decreases self.elements@.len() - i,
        {
            elements.push(
                OrderByElement {
                    target: self.elements[i].target.clone(),
                    direction: self.elements[i].direction,
                },
            );
            i = i + 1;
        }
        let r = OrderBy { elements };
        assert(r@ =~= self@);
        r
    }
}

impl Clone for From {
    fn clone(&self) -> (r: Self)
        ensures
            r@ == self@,
        decreases self,
    {
        match self {
            From::Table { reference, alias } => From::Table {
                reference: reference.clone(),
                alias: alias.clone(),
            },
            From::Select { select, alias } => {
                let copy: Select = (&**select).clone();
                From::Select { select: Box::new(copy), alias: alias.clone() }
            },
            From::Variables { alias } => From::Variables { alias: alias.clone() },
        }
    }
}

impl Clone for Join {
    fn clone(&self) -> (r: Self)
        ensures
            r@ == self@,
        decreases self,
    {
        match self {
            Join::LeftOuterJoinLateral(join) => {
                let copy: Select = (&*join.select).clone();
                Join::LeftOuterJoinLateral(
                    LeftOuterJoinLateral { select: Box::new(copy), alias: join.alias.clone() },
                )
            },
            Join::InnerJoinLateral(join) => {
                let copy: Select = (&*join.select).clone();
                Join::InnerJoinLateral(
                    InnerJoinLateral { select: Box::new(copy), alias: join.alias.clone() },
                )
            },
        }
    }
}

impl Clone for Select {
    fn clone(&self) -> (r: Self)
        ensures
            r@ == self@,
        decreases self,
    {
        let mut joins: Vec<Join> = Vec::new();
        let mut i: usize = 0;
        while i < self.joins.len()
            invariant
                i <= self.joins@.len(),
                joins@.len() == i,
                forall|j: int| 0 <= j < i ==> (#[trigger] joins@[j])@ == self.joins@[j]@,
            decreases self.joins@.len() - i,
        {
            assert(decreases_to!(*self => self.joins@[i as int]));
            joins.push(self.joins[i].clone());
            i = i + 1;
        }
        assert(joins_view(joins@) =~= joins_view(self.joins@));
        Select {
            select_list: self.select_list.clone(),
            from: match &self.from {
                Some(from) => Some(from.clone()),
                None => None,
            },
            joins,
            where_: Where(self.where_.0.clone()),
            order_by: self.order_by.clone(),
            limit: self.limit,
        }
    }
}

////// Statements are told apart by what they hold

/// Table references that hold the same refer to the same table.
pub proof fn lemma_table_references_are_told_apart(a: TableReference, b: TableReference)
    requires
        a@ == b@,
    ensures
        match (a, b) {
            (
                TableReference::DBTable { schema: s, table: x },
                TableReference::DBTable { schema: t, table: y },
            ) => s.0@ == t.0@ && x.0@ == y.0@,
            (TableReference::AliasedTable(x), TableReference::AliasedTable(y)) => x.unique_index
                == y.unique_index && x.name@ == y.name@,
            _ => false,
        },
{
}

/// Column references that hold the same refer to the same column of the same table.
pub proof fn lemma_column_references_are_told_apart(a: ColumnReference, b: ColumnReference)
    requires
        a@ == b@,
    ensures
        match (a, b) {
            (
                ColumnReference::TableColumn { table: s, name: x },
                ColumnReference::TableColumn { table: t, name: y },
            ) => s@ == t@ && x.0@ == y.0@,
            (
                ColumnReference::AliasedColumn { table: s, column: x },
                ColumnReference::AliasedColumn { table: t, column: y },
            ) => s@ == t@ && x.name@ == y.name@,
            _ => false,
        },
{
}

/// Expressions that hold the same are of the same kind, and their parts hold the same.
pub proof fn lemma_expressions_are_told_apart(a: Expression, b: Expression)
    requires
        a@ == b@,
    ensures
        match (a, b) {
            (
                Expression::And { left: x, right: u },
                Expression::And { left: y, right: v },
            ) => x@ == y@ && u@ == v@,
            (
                Expression::Or { left: x, right: u },
                Expression::Or { left: y, right: v },
            ) => x@ == y@ && u@ == v@,
            (Expression::Not(x), Expression::Not(y)) => x@ == y@,
            (
                Expression::BinaryOperation { left: x, operator: o, right: u },
                Expression::BinaryOperation { left: y, operator: p, right: v },
            ) => x@ == y@ && o.0@ == p.0@ && u@ == v@,
            (
                Expression::FunctionCall { function: f, args: xs },
                Expression::FunctionCall { function: g, args: ys },
            ) => f@ == g@ && xs@.len() == ys@.len() && forall|i: int|
                0 <= i < xs@.len() ==> (#[trigger] xs@[i])@ == ys@[i]@,
            (
                Expression::Cast { expression: x, scalar_type: s },
                Expression::Cast { expression: y, scalar_type: t },
            ) => x@ == y@ && s.name@ == t.name@ && s.is_array == t.is_array && (
            s.schema_name is Some <==> t.schema_name is Some) && (s.schema_name is Some
                ==> s.schema_name->Some_0.0@ == t.schema_name->Some_0.0@),
            (Expression::RowToJson(x), Expression::RowToJson(y)) => x@ == y@,
            (Expression::ColumnReference(x), Expression::ColumnReference(y)) => x@ == y@,
            (Expression::Value(x), Expression::Value(y)) => x@ == y@,
            _ => false,
        },
{
    match (a, b) {
        (
            Expression::FunctionCall { function: f, args: xs },
            Expression::FunctionCall { function: g, args: ys },
        ) => {
            let (v, w) = (a@->args, b@->args);
            assert(v == w && v.len() == xs@.len() && w.len() == ys@.len());
            assert forall|i: int| 0 <= i < xs@.len() implies (#[trigger] xs@[i])@ == ys@[i]@ by {
                assert(v[i] == w[i]);
            }
        },
        (
            Expression::Cast { expression: x, scalar_type: s },
            Expression::Cast { expression: y, scalar_type: t },
        ) => {
            assert(s@ == t@);
            assert(s@.name == t@.name && s@.schema_name == t@.schema_name);
        },
        _ => {},
    }
}

/// Literals and functions that hold the same are the same.
pub proof fn lemma_literals_are_told_apart(a: Value, b: Value, f: Function, g: Function)
    requires
        a@ == b@,
        f@ == g@,
    ensures
        match (a, b) {
            (Value::Null, Value::Null) => true,
            (Value::Bool(x), Value::Bool(y)) => x == y,
            (Value::String(x), Value::String(y)) => x@ == y@,
            (Value::Variable(x), Value::Variable(y)) => x@ == y@,
            _ => false,
        },
        match (f, g) {
            (Function::JsonAgg, Function::JsonAgg) => true,
            (Function::Unnest, Function::Unnest) => true,
            (Function::Unknown(x), Function::Unknown(y)) => x@ == y@,
            _ => false,
        },
{
}

/// Lists hold what their elements hold, in the same order.
pub proof fn lemma_lists_hold_their_elements(
    columns: Seq<(ColumnAlias, Expression)>,
    joins: Seq<Join>,
    order_by: OrderBy,
)
    ensures
        columns_view(columns).len() == columns.len(),
        forall|i: int|
            0 <= i < columns.len() ==> (#[trigger] columns_view(columns)[i]) == (
                columns[i].0.name@,
                columns[i].1@,
            ),
        joins_view(joins).len() == joins.len(),
        forall|i: int| 0 <= i < joins.len() ==> (#[trigger] joins_view(joins)[i]) == joins[i]@,
        order_by@.len() == order_by.elements@.len(),
        forall|i: int|
            0 <= i < order_by.elements@.len() ==> (#[trigger] order_by@[i]).target
                == order_by.elements@[i].target@ && order_by@[i].direction
                == order_by.elements@[i].direction,
{
}

/// Select lists that hold the same are of the same kind, and select the same under the same names.
pub proof fn lemma_select_lists_are_told_apart(a: SelectList, b: SelectList)
    requires
        a@ == b@,
    ensures
        match (a, b) {
            (SelectList::SelectList(xs), SelectList::SelectList(ys)) => xs@.len() == ys@.len()
                && forall|i: int|
                0 <= i < xs@.len() ==> (#[trigger] xs@[i]).0.name@ == ys@[i].0.name@ && xs@[i].1@
                    == ys@[i].1@,
            (SelectList::SelectStar, SelectList::SelectStar) => true,
            (SelectList::SelectStarComposite(x), SelectList::SelectStarComposite(y)) => x@ == y@,
            (
                SelectList::SelectListComposite(x, u),
                SelectList::SelectListComposite(y, v),
            ) => x@ == y@ && u@ == v@,
            _ => false,
        },
{
    if let (SelectList::SelectList(xs), SelectList::SelectList(ys)) = (a, b) {
        let (v, w) = (columns_view(xs@), columns_view(ys@));
        assert(v == w && v.len() == xs@.len() && w.len() == ys@.len());
        assert forall|i: int| 0 <= i < xs@.len() implies (#[trigger] xs@[i]).0.name@
            == ys@[i].0.name@ && xs@[i].1@ == ys@[i].1@ by {
            assert(v[i] == w[i]);
        }
    }
}

/// From clauses that hold the same are of the same kind, and select from the same under the same
/// alias.
pub proof fn lemma_from_clauses_are_told_apart(a: From, b: From)
    requires
        a@ == b@,
    ensures
        match (a, b) {
            (
                From::Table { reference: s, alias: x },
                From::Table { reference: t, alias: y },
            ) => s@ == t@ && x.unique_index == y.unique_index && x.name@ == y.name@,
            (
                From::Select { select: s, alias: x },
                From::Select { select: t, alias: y },
            ) => s@ == t@ && x.unique_index == y.unique_index && x.name@ == y.name@,
            (From::Variables { alias: x }, From::Variables { alias: y }) => x.unique_index
                == y.unique_index && x.name@ == y.name@,
            _ => false,
        },
{
}

/// Joins that hold the same are of the same kind, and join the same under the same alias.
pub proof fn lemma_joins_are_told_apart(a: Join, b: Join)
    requires
        a@ == b@,
    ensures
        match (a, b) {
            (
                Join::LeftOuterJoinLateral(x),
                Join::LeftOuterJoinLateral(y),
            ) => x.select@ == y.select@ && x.alias.unique_index == y.alias.unique_index
                && x.alias.name@ == y.alias.name@,
            (Join::InnerJoinLateral(x), Join::InnerJoinLateral(y)) => x.select@ == y.select@
                && x.alias.unique_index == y.alias.unique_index && x.alias.name@ == y.alias.name@,
            _ => false,
        },
{
}

/// Select statements that hold the same have the same list, the same from clause, the same joins,
/// the same filter, the same order and the same limit.
pub proof fn lemma_select_statements_are_told_apart(a: Select, b: Select)
    requires
        a@ == b@,
    ensures
        a.select_list@ == b.select_list@,
        a.from is Some <==> b.from is Some,
        a.from matches Some(x) ==> (b.from matches Some(y) && x@ == y@),
        a.joins@.len() == b.joins@.len(),
        forall|i: int| 0 <= i < a.joins@.len() ==> (#[trigger] a.joins@[i])@ == b.joins@[i]@,
        a.where_.0@ == b.where_.0@,
        a.order_by.elements@.len() == b.order_by.elements@.len(),
        forall|i: int|
            0 <= i < a.order_by.elements@.len() ==> (#[trigger] a.order_by.elements@[i]).target@
                == b.order_by.elements@[i].target@ && a.order_by.elements@[i].direction
                == b.order_by.elements@[i].direction,
        a.limit == b.limit,
{
    let (v, w) = (joins_view(a.joins@), joins_view(b.joins@));
    assert(a@.joins == v && b@.joins == w);
    assert(v.len() == a.joins@.len() && w.len() == b.joins@.len());
    assert forall|i: int| 0 <= i < a.joins@.len() implies (#[trigger] a.joins@[i])@
        == b.joins@[i]@ by {
        assert(v[i] == w[i]);
    }
    assert(a@.order_by == a.order_by@ && b@.order_by == b.order_by@);
    assert(a.order_by@.len() == a.order_by.elements@.len());
    assert(b.order_by@.len() == b.order_by.elements@.len());
    assert forall|i: int| 0 <= i < a.order_by.elements@.len() implies (
    #[trigger] a.order_by.elements@[i]).target@ == b.order_by.elements@[i].target@
        && a.order_by.elements@[i].direction == b.order_by.elements@[i].direction by {
        assert(a.order_by@[i] == b.order_by@[i]);
    }
    assert(a@.limit == a.limit && b@.limit == b.limit);
    assert(a@.select_list == a.select_list@ && b@.select_list == b.select_list@);
    assert(a@.where_ == a.where_.0@ && b@.where_ == b.where_.0@);
    assert(a@.from == b@.from);
}

} // verus!
