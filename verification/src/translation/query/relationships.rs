//! Relationships that a query follows.

use crate::models::{
    relationship_arguments_view, Query, QueryView, RelationshipArgument, RelationshipArgumentView,
};
use crate::sql::ast::{ColumnAlias, TableAlias, TableAliasView};
use crate::string_map::StringMap;
use vstd::prelude::*;

verus! {

/// A field of a query that holds the rows at the end of a relationship: what to join, and the
/// aliases of the joined table and of its column.
#[derive(Debug)]
pub struct JoinFieldInfo {
    pub table_alias: TableAlias,
    pub column_alias: ColumnAlias,
    pub relationship_name: String,
    pub arguments: StringMap<RelationshipArgument>,
    pub query: Query,
}

/// What a relationship field holds.
pub struct JoinFieldView {
    pub table_alias: TableAliasView,
    pub column_alias: Seq<char>,
    pub relationship_name: Seq<char>,
    pub arguments: Seq<(Seq<char>, RelationshipArgumentView)>,
    pub query: QueryView,
}

impl View for JoinFieldInfo {
    type V = JoinFieldView;

    open spec fn view(&self) -> JoinFieldView {
        JoinFieldView {
            table_alias: self.table_alias@,
            column_alias: self.column_alias.name@,
            relationship_name: self.relationship_name@,
            arguments: relationship_arguments_view(self.arguments),
            query: self.query@,
        }
    }
}

/// What a list of relationship fields holds.
pub open spec fn join_fields_view(fields: Seq<JoinFieldInfo>) -> Seq<JoinFieldView> {
    Seq::new(fields.len(), |i: int| fields[i]@)
}

/// Lists of relationship fields that hold the same have as many fields, and at each place the same
/// aliases, the same relationship, the same arguments and the same query.
pub proof fn lemma_relationship_fields_are_told_apart(a: Seq<JoinFieldInfo>, b: Seq<JoinFieldInfo>)
    requires
        join_fields_view(a) == join_fields_view(b),
    ensures
        join_fields_view(a).len() == a.len(),
        forall|i: int| 0 <= i < a.len() ==> (#[trigger] join_fields_view(a)[i]) == a[i]@,
        a.len() == b.len(),
        forall|i: int|
            0 <= i < a.len() ==> (#[trigger] a[i]).table_alias.unique_index
                == b[i].table_alias.unique_index && a[i].table_alias.name@ == b[i].table_alias.name@
                && a[i].column_alias.name@ == b[i].column_alias.name@ && a[i].relationship_name@
                == b[i].relationship_name@ && a[i].query@ == b[i].query@
                && relationship_arguments_view(a[i].arguments) == relationship_arguments_view(
                b[i].arguments,
            ),
{
    let (v, w) = (join_fields_view(a), join_fields_view(b));
    assert(v.len() == a.len() && w.len() == b.len());
    assert forall|i: int| 0 <= i < a.len() implies (#[trigger] a[i])@ == b[i]@ by {
        assert(v[i] == w[i]);
    }
    assert forall|i: int| 0 <= i < a.len() implies (#[trigger] a[i]).table_alias.unique_index
        == b[i].table_alias.unique_index && a[i].table_alias.name@ == b[i].table_alias.name@
        && a[i].column_alias.name@ == b[i].column_alias.name@ && a[i].relationship_name@
        == b[i].relationship_name@ && a[i].query@ == b[i].query@ && relationship_arguments_view(
        a[i].arguments,
    ) == relationship_arguments_view(b[i].arguments) by {
        assert(a[i]@.table_alias == b[i]@.table_alias);
    }
}

} // verus!
