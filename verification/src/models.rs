//! Requests, as clients of the connector write them.

use crate::json;
use crate::string_map::StringMap;
use vstd::prelude::*;

verus! {

/// An argument of a collection.
#[derive(Debug, PartialEq, Eq)]
pub enum Argument {
    /// The value of a variable of the request.
    Variable { name: String },
    /// A value.
    Literal { value: json::Value },
}

/// What an argument holds.
pub enum ArgumentView {
    Variable { name: Seq<char> },
    Literal { value: json::ValueView },
}

impl View for Argument {
    type V = ArgumentView;

    open spec fn view(&self) -> ArgumentView {
        match *self {
            Argument::Variable { name } => ArgumentView::Variable { name: name@ },
            Argument::Literal { value } => ArgumentView::Literal { value: value@ },
        }
    }
}

impl Clone for Argument {
    fn clone(&self) -> (r: Self)
        ensures
            r@ == self@,
    {
        match self {
            Argument::Variable { name } => Argument::Variable { name: name.clone() },
            Argument::Literal { value } => Argument::Literal { value: value.clone() },
        }
    }
}

/// What a collection's arguments hold, in the order of their names.
pub open spec fn arguments_view(arguments: StringMap<Argument>) -> Seq<(Seq<char>, ArgumentView)> {
    Seq::new(
        arguments.entries().len(),
        |i: int| (arguments.entries()[i].0@, arguments.entries()[i].1@),
    )
}

/// An argument of a collection at the end of a relationship.
#[derive(Debug, PartialEq, Eq)]
pub enum RelationshipArgument {
    /// The value of a variable of the request.
    Variable { name: String },
    /// A value.
    Literal { value: json::Value },
    /// The value of a column of the collection at the start of the relationship.
    Column { name: String },
}

/// What an argument of a relationship holds.
pub enum RelationshipArgumentView {
    Variable { name: Seq<char> },
    Literal { value: json::ValueView },
    Column { name: Seq<char> },
}

impl View for RelationshipArgument {
    type V = RelationshipArgumentView;

    open spec fn view(&self) -> RelationshipArgumentView {
        match *self {
            RelationshipArgument::Variable { name } => RelationshipArgumentView::Variable {
                name: name@,
            },
            RelationshipArgument::Literal { value } => RelationshipArgumentView::Literal {
                value: value@,
            },
            RelationshipArgument::Column { name } => RelationshipArgumentView::Column {
                name: name@,
            },
        }
    }
}

impl Clone for RelationshipArgument {
    fn clone(&self) -> (r: Self)
        ensures
            r@ == self@,
    {
        match self {
            RelationshipArgument::Variable { name } => RelationshipArgument::Variable {
                name: name.clone(),
            },
            RelationshipArgument::Literal { value } => RelationshipArgument::Literal {
                value: value.clone(),
            },
            RelationshipArgument::Column { name } => RelationshipArgument::Column {
                name: name.clone(),
            },
        }
    }
}

/// What a relationship's arguments hold, in the order of their names.
pub open spec fn relationship_arguments_view(arguments: StringMap<RelationshipArgument>) -> Seq<
    (Seq<char>, RelationshipArgumentView),
> {
    Seq::new(
        arguments.entries().len(),
        |i: int| (arguments.entries()[i].0@, arguments.entries()[i].1@),
    )
}

/// Whether a relationship leads to one row or to many.
#[derive(Debug, Clone, Copy, PartialEq, Eq)]
pub enum RelationshipType {
    Object,
    Array,
}

/// A relationship between two collections.
#[derive(Debug, PartialEq, Eq)]
pub struct Relationship {
    /// The columns of the target collection, by the columns of the source collection.
    pub column_mapping: StringMap<String>,
    pub relationship_type: RelationshipType,
    pub target_collection: String,
    pub arguments: StringMap<RelationshipArgument>,
}

/// A predicate, as the document that states it.
#[derive(Debug, PartialEq, Eq)]
pub struct Expression(pub json::Value);

/// The order of rows, as the document that states it.
#[derive(Debug, PartialEq, Eq)]
pub struct OrderBy(pub json::Value);

/// An aggregate, as the document that states it.
#[derive(Debug, PartialEq, Eq)]
pub struct Aggregate(pub json::Value);

/// A field of a row, as requested.
#[derive(Debug, PartialEq, Eq)]
pub enum Field {
    /// A column, and what is selected of its value where that is not all of it.
    Column { column: String, fields: Option<NestedField> },
    /// The rows at the end of a relationship.
    Relationship {
        query: Box<Query>,
        relationship: String,
        arguments: StringMap<RelationshipArgument>,
    },
}

/// What is selected of an object: fields, in order, under the names that they get in the response.
#[derive(Debug, PartialEq, Eq)]
pub struct NestedObject {
    pub fields: Vec<(String, Field)>,
}

/// What is selected of each element of an array.
#[derive(Debug, PartialEq, Eq)]
pub struct NestedArray {
    pub fields: Box<NestedField>,
}

/// What is selected of the value of a column.
#[derive(Debug, PartialEq, Eq)]
pub enum NestedField {
    Object(NestedObject),
    Array(NestedArray),
}

/// A query on a collection. The fields and the aggregates stand in order, under the names that
/// they get in the response.
#[derive(Debug, PartialEq, Eq)]
pub struct Query {
    pub aggregates: Option<Vec<(String, Aggregate)>>,
    pub fields: Option<Vec<(String, Field)>>,
    pub limit: Option<u32>,
    pub offset: Option<u32>,
    pub order_by: Option<OrderBy>,
    pub predicate: Option<Expression>,
}

/// What a requested field holds.
pub enum FieldView {
    Column { column: Seq<char>, fields: Option<NestedFieldView> },
    Relationship {
        query: QueryView,
        relationship: Seq<char>,
        arguments: Seq<(Seq<char>, RelationshipArgumentView)>,
    },
}

/// What the selection of a column's value holds.
pub enum NestedFieldView {
    Object(Seq<(Seq<char>, FieldView)>),
    Array(Box<NestedFieldView>),
}

/// What a query holds.
pub struct QueryView {
    pub aggregates: Option<Seq<(Seq<char>, json::ValueView)>>,
    pub fields: Option<Seq<(Seq<char>, FieldView)>>,
    pub limit: Option<u32>,
    pub offset: Option<u32>,
    pub order_by: Option<json::ValueView>,
    pub predicate: Option<json::ValueView>,
}

/// What a list of requested fields holds.
pub open spec fn fields_view(fields: Seq<(String, Field)>) -> Seq<(Seq<char>, FieldView)>
    decreases fields,
{
    Seq::new(
        fields.len(),
        |i: int|
            if 0 <= i < fields.len() {
                (fields[i].0@, fields[i].1.view())
            } else {
                arbitrary()
            },
    )
}

/// What a list of requested aggregates holds.
pub open spec fn aggregates_view(aggregates: Seq<(String, Aggregate)>) -> Seq<
    (Seq<char>, json::ValueView),
> {
    Seq::new(aggregates.len(), |i: int| (aggregates[i].0@, aggregates[i].1.0@))
}

impl Field {
    pub open spec fn view(&self) -> FieldView
        decreases self,
    {
        match *self {
            Field::Column { column, fields: None } => FieldView::Column {
                column: column@,
                fields: None,
            },
            Field::Column { column, fields: Some(fields) } => FieldView::Column {
                column: column@,
                fields: Some(fields.view()),
            },
            Field::Relationship { query, relationship, arguments } => FieldView::Relationship {
                query: query.view(),
                relationship: relationship@,
                arguments: relationship_arguments_view(arguments),
            },
        }
    }
}

impl NestedField {
    pub open spec fn view(&self) -> NestedFieldView
        decreases self,
    {
        match *self {
            NestedField::Object(object) => NestedFieldView::Object(fields_view(object.fields@)),
            NestedField::Array(array) => NestedFieldView::Array(Box::new(array.fields.view())),
        }
    }
}

impl Query {
    pub open spec fn view(&self) -> QueryView
        decreases self,
    {
        QueryView {
            aggregates: match self.aggregates {
                Some(aggregates) => Some(aggregates_view(aggregates@)),
                None => None,
            },
            fields: match self.fields {
                Some(fields) => Some(fields_view(fields@)),
                None => None,
            },
            limit: self.limit,
            offset: self.offset,
            order_by: match self.order_by {
                Some(order_by) => Some(order_by.0@),
                None => None,
            },
            predicate: match self.predicate {
                Some(predicate) => Some(predicate.0@),
                None => None,
            },
        }
    }
}

/// A copy of a list of requested fields.
pub fn clone_fields(fields: &Vec<(String, Field)>) -> (r: Vec<(String, Field)>)
    ensures
        fields_view(r@) == fields_view(fields@),
    decreases fields,
{
    let mut copies: Vec<(String, Field)> = Vec::new();
    let mut i: usize = 0;
    while i < fields.len()
        invariant
            i <= fields@.len(),
            copies@.len() == i,
            forall|j: int|
                0 <= j < i ==> (#[trigger] copies@[j]).0 == fields@[j].0 && copies@[j].1@
                    == fields@[j].1@,
        decreases fields@.len() - i,
    {
        assert(decreases_to!(*fields => fields@[i as int].1));
        copies.push((fields[i].0.clone(), fields[i].1.clone()));
        i = i + 1;
    }
    assert(fields_view(copies@) =~= fields_view(fields@));
    copies
}

/// A copy of a list of requested aggregates.
fn clone_aggregates(aggregates: &Vec<(String, Aggregate)>) -> (r: Vec<(String, Aggregate)>)
    ensures
        aggregates_view(r@) == aggregates_view(aggregates@),
{
    let mut copies: Vec<(String, Aggregate)> = Vec::new();
    let mut i: usize = 0;
    while i < aggregates.len()
        invariant
            i <= aggregates@.len(),
            copies@.len() == i,
            forall|j: int|
                0 <= j < i ==> (#[trigger] copies@[j]).0 == aggregates@[j].0 && copies@[j].1.0@
                    == aggregates@[j].1.0@,
        decreases aggregates@.len() - i,
    {
        copies.push((aggregates[i].0.clone(), Aggregate(aggregates[i].1.0.clone())));
        i = i + 1;
    }
    assert(aggregates_view(copies@) =~= aggregates_view(aggregates@));
    copies
}

impl Clone for Field {
    fn clone(&self) -> (r: Self)
        ensures
            r@ == self@,
        decreases self,
    {
        match self {
            Field::Column { column, fields: None } => Field::Column {
                column: column.clone(),
                fields: None,
            },
            Field::Column { column, fields: Some(fields) } => Field::Column {
                column: column.clone(),
                fields: Some(fields.clone()),
            },
            Field::Relationship { query, relationship, arguments } => {
                let copy: Query = (&**query).clone();
                let copied_arguments = arguments.clone();
                assert(relationship_arguments_view(copied_arguments)
                    =~= relationship_arguments_view(*arguments));
                Field::Relationship {
                    query: Box::new(copy),
                    relationship: relationship.clone(),
                    arguments: copied_arguments,
                }
            },
        }
    }
}

impl Clone for NestedField {
    fn clone(&self) -> (r: Self)
        ensures
            r@ == self@,
        decreases self,
    {
        match self {
            NestedField::Object(object) => NestedField::Object(
                NestedObject { fields: clone_fields(&object.fields) },
            ),
            NestedField::Array(array) => {
                let copy: NestedField = (&*array.fields).clone();
                NestedField::Array(NestedArray { fields: Box::new(copy) })
            },
        }
    }
}

impl Clone for Query {
    fn clone(&self) -> (r: Self)
        ensures
            r@ == self@,
        decreases self,
    {
        Query {
            aggregates: match &self.aggregates {
                Some(aggregates) => Some(clone_aggregates(aggregates)),
                None => None,
            },
            fields: match &self.fields {
                Some(fields) => Some(clone_fields(fields)),
                None => None,
            },
            limit: self.limit,
            offset: self.offset,
            order_by: match &self.order_by {
                Some(order_by) => Some(OrderBy(order_by.0.clone())),
                None => None,
            },
            predicate: match &self.predicate {
                Some(predicate) => Some(Expression(predicate.0.clone())),
                None => None,
            },
        }
    }
}

////// Requests are told apart by what they hold

/// Lists of fields that hold the same have as many fields, which hold the same at each place, under
/// the same names.
pub proof fn lemma_lists_of_fields_are_told_apart(a: Seq<(String, Field)>, b: Seq<(String, Field)>)
    requires
        fields_view(a) == fields_view(b),
    ensures
        fields_view(a).len() == a.len(),
        forall|i: int| 0 <= i < a.len() ==> (#[trigger] fields_view(a)[i]) == (a[i].0@, a[i].1@),
        a.len() == b.len(),
        forall|i: int|
            0 <= i < a.len() ==> (#[trigger] a[i]).0@ == b[i].0@ && a[i].1@ == b[i].1@,
{
    assert(fields_view(a).len() == a.len() && fields_view(b).len() == b.len());
    assert forall|i: int| 0 <= i < a.len() implies (#[trigger] a[i]).0@ == b[i].0@ && a[i].1@
        == b[i].1@ by {
        assert(fields_view(a)[i] == fields_view(b)[i]);
    }
}

/// Fields that hold the same are of the same kind, and ask for the same column and the same
/// selection, or for the same relationship with the same arguments and the same query.
pub proof fn lemma_fields_are_told_apart(a: Field, b: Field)
    requires
        a@ == b@,
    ensures
        match (a, b) {
            (
                Field::Column { column: x, fields: xs },
                Field::Column { column: y, fields: ys },
            ) => {
                &&& x@ == y@
                &&& xs is Some <==> ys is Some
                &&& xs is Some ==> xs->Some_0@ == ys->Some_0@
            },
            (
                Field::Relationship { query: p, relationship: x, arguments: xs },
                Field::Relationship { query: q, relationship: y, arguments: ys },
            ) => {
                &&& p@ == q@
                &&& x@ == y@
                &&& xs.entries().len() == ys.entries().len()
                &&& forall|i: int|
                    0 <= i < xs.entries().len() ==> (#[trigger] xs.entries()[i]).0@
                        == ys.entries()[i].0@ && xs.entries()[i].1@ == ys.entries()[i].1@
            },
            _ => false,
        },
{
    if let (
        Field::Relationship { query: p, relationship: x, arguments: xs },
        Field::Relationship { query: q, relationship: y, arguments: ys },
    ) = (a, b) {
        let (v, w) = (relationship_arguments_view(xs), relationship_arguments_view(ys));
        assert(v == w);
        assert(v.len() == xs.entries().len() && w.len() == ys.entries().len());
        assert forall|i: int| 0 <= i < xs.entries().len() implies (#[trigger] xs.entries()[i]).0@
            == ys.entries()[i].0@ && xs.entries()[i].1@ == ys.entries()[i].1@ by {
            assert(v[i] == w[i]);
        }
    }
}

/// Selections that hold the same are of the same kind, and select the same fields, or the same from
/// each element.
pub proof fn lemma_selections_are_told_apart(a: NestedField, b: NestedField)
    requires
        a@ == b@,
    ensures
        match (a, b) {
            (NestedField::Object(x), NestedField::Object(y)) => fields_view(x.fields@)
                == fields_view(y.fields@),
            (NestedField::Array(x), NestedField::Array(y)) => x.fields@ == y.fields@,
            _ => false,
        },
{
}

/// Queries that hold the same ask for the same aggregates, the same fields, the same limit and
/// offset, the same order and the same predicate.
pub proof fn lemma_queries_are_told_apart(a: Query, b: Query)
    requires
        a@ == b@,
    ensures
        a.aggregates is Some <==> b.aggregates is Some,
        a.aggregates matches Some(xs) ==> (b.aggregates matches Some(ys) && xs@.len() == ys@.len()
            && forall|i: int|
            0 <= i < xs@.len() ==> (#[trigger] xs@[i]).0@ == ys@[i].0@ && xs@[i].1.0@
                == ys@[i].1.0@),
        a.fields is Some <==> b.fields is Some,
        a.fields matches Some(xs) ==> (b.fields matches Some(ys) && fields_view(xs@) == fields_view(
            ys@,
        )),
        a.limit == b.limit,
        a.offset == b.offset,
        a.order_by is Some <==> b.order_by is Some,
        a.order_by matches Some(x) ==> (b.order_by matches Some(y) && x.0@ == y.0@),
        a.predicate is Some <==> b.predicate is Some,
        a.predicate matches Some(x) ==> (b.predicate matches Some(y) && x.0@ == y.0@),
{
    if let (Some(xs), Some(ys)) = (a.aggregates, b.aggregates) {
        let (v, w) = (aggregates_view(xs@), aggregates_view(ys@));
        assert(a@.aggregates == Some(v) && b@.aggregates == Some(w));
        assert(v.len() == xs@.len() && w.len() == ys@.len());
        assert forall|i: int| 0 <= i < xs@.len() implies (#[trigger] xs@[i]).0@ == ys@[i].0@
            && xs@[i].1.0@ == ys@[i].1.0@ by {
            assert(v[i] == w[i]);
        }
    }
    if let (Some(xs), Some(ys)) = (a.fields, b.fields) {
        assert(a@.fields == Some(fields_view(xs@)) && b@.fields == Some(fields_view(ys@)));
    }
    assert(a@.limit == a.limit && b@.limit == b.limit);
    assert(a@.offset == a.offset && b@.offset == b.offset);
}

/// Arguments that hold the same are of the same kind, and name the same variable or hold the same
/// value.
pub proof fn lemma_arguments_are_told_apart(a: Argument, b: Argument)
    requires
        a@ == b@,
    ensures
        match (a, b) {
            (Argument::Variable { name: x }, Argument::Variable { name: y }) => x@ == y@,
            (Argument::Literal { value: x }, Argument::Literal { value: y }) => x@ == y@,
            _ => false,
        },
{
}

/// Arguments of collections that hold the same have the same names, and hold the same under each.
pub proof fn lemma_lists_of_arguments_are_told_apart(
    a: StringMap<Argument>,
    b: StringMap<Argument>,
)
    requires
        arguments_view(a) == arguments_view(b),
    ensures
        arguments_view(a).len() == a.entries().len(),
        forall|i: int|
            0 <= i < a.entries().len() ==> (#[trigger] arguments_view(a)[i]) == (
                a.entries()[i].0@,
                a.entries()[i].1@,
            ),
        a.entries().len() == b.entries().len(),
        forall|i: int|
            0 <= i < a.entries().len() ==> (#[trigger] a.entries()[i]).0@ == b.entries()[i].0@
                && a.entries()[i].1@ == b.entries()[i].1@,
{
    let (v, w) = (arguments_view(a), arguments_view(b));
    assert(v.len() == a.entries().len() && w.len() == b.entries().len());
    assert forall|i: int| 0 <= i < a.entries().len() implies (#[trigger] a.entries()[i]).0@
        == b.entries()[i].0@ && a.entries()[i].1@ == b.entries()[i].1@ by {
        assert(v[i] == w[i]);
    }
}

/// Arguments of relationships that hold the same are of the same kind, and name the same variable or
/// column, or hold the same value.
pub proof fn lemma_relationship_arguments_are_told_apart(
    a: RelationshipArgument,
    b: RelationshipArgument,
)
    requires
        a@ == b@,
    ensures
        match (a, b) {
            (
                RelationshipArgument::Variable { name: x },
                RelationshipArgument::Variable { name: y },
            ) => x@ == y@,
            (
                RelationshipArgument::Literal { value: x },
                RelationshipArgument::Literal { value: y },
            ) => x@ == y@,
            (
                RelationshipArgument::Column { name: x },
                RelationshipArgument::Column { name: y },
            ) => x@ == y@,
            _ => false,
        },
{
}

} // verus!
