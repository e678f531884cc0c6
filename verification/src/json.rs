//! JSON documents.

use vstd::prelude::*;

verus! {

/// A JSON document. A number is held as the text that denotes it, and the members of an object in
/// the order in which they are read.
#[derive(Debug, PartialEq, Eq)]
pub enum Value {
    Null,
    Bool(bool),
    Number(String),
    String(String),
    Array(Vec<Value>),
    Object(Vec<(String, Value)>),
}

/// What a JSON document holds.
pub enum ValueView {
    Null,
    Bool(bool),
    Number(Seq<char>),
    String(Seq<char>),
    Array(Seq<ValueView>),
    Object(Seq<(Seq<char>, ValueView)>),
}

impl Value {
    pub open spec fn view(&self) -> ValueView
        decreases self,
    {
        match *self {
            Value::Null => ValueView::Null,
            Value::Bool(b) => ValueView::Bool(b),
            Value::Number(text) => ValueView::Number(text@),
            Value::String(text) => ValueView::String(text@),
            Value::Array(elements) => ValueView::Array(
                Seq::new(
                    elements@.len(),
                    |i: int|
                        if 0 <= i < elements@.len() {
                            elements@[i].view()
                        } else {
                            ValueView::Null
                        },
                ),
            ),
            Value::Object(members) => ValueView::Object(
                Seq::new(
                    members@.len(),
                    |i: int|
                        if 0 <= i < members@.len() {
                            (members@[i].0@, members@[i].1.view())
                        } else {
                            (Seq::<char>::empty(), ValueView::Null)
                        },
                ),
            ),
        }
    }
}

impl Clone for Value {
    fn clone(&self) -> (r: Value)
        ensures
            r@ == self@,
        decreases self,
    {
        match self {
            Value::Null => Value::Null,
            Value::Bool(b) => Value::Bool(*b),
            Value::Number(text) => Value::Number(text.clone()),
            Value::String(text) => Value::String(text.clone()),
            Value::Array(elements) => {
                let mut copies: Vec<Value> = Vec::new();
                let mut i: usize = 0;
                while i < elements.len()
                    invariant
                        i <= elements@.len(),
                        copies@.len() == i,
                        *self == Value::Array(*elements),
                        forall|j: int| 0 <= j < i ==> (#[trigger] copies@[j])@ == elements@[j]@,
                    decreases elements@.len() - i,
                {
                    assert(decreases_to!(*self => self->Array_0@[i as int]));
                    copies.push(elements[i].clone());
                    i = i + 1;
                }
                let r = Value::Array(copies);
                assert(r@->Array_0 =~= self@->Array_0);
                r
            },
            Value::Object(members) => {
                let mut copies: Vec<(String, Value)> = Vec::new();
                let mut i: usize = 0;
                while i < members.len()
                    invariant
                        i <= members@.len(),
                        copies@.len() == i,
                        *self == Value::Object(*members),
                        forall|j: int|
                            0 <= j < i ==> (#[trigger] copies@[j]).0 == members@[j].0
                                && copies@[j].1@ == members@[j].1@,
                    decreases members@.len() - i,
                {
                    assert(decreases_to!(*self => self->Object_0@[i as int].1));
                    copies.push((members[i].0.clone(), members[i].1.clone()));
                    i = i + 1;
                }
                let r = Value::Object(copies);
                assert(r@->Object_0 =~= self@->Object_0);
                r
            },
        }
    }
}

/// What documents hold tells them apart: documents that hold the same are of the same kind, and have
/// the same text, or as many elements or members, which hold the same at each place, under the same
/// names.
pub proof fn lemma_documents_are_told_apart(a: Value, b: Value)
    requires
        a@ == b@,
    ensures
        match (a, b) {
            (Value::Null, Value::Null) => true,
            (Value::Bool(x), Value::Bool(y)) => x == y,
            (Value::Number(x), Value::Number(y)) => x@ == y@,
            (Value::String(x), Value::String(y)) => x@ == y@,
            (Value::Array(x), Value::Array(y)) => {
                &&& x@.len() == y@.len()
                &&& forall|i: int| 0 <= i < x@.len() ==> (#[trigger] x@[i])@ == y@[i]@
            },
            (Value::Object(x), Value::Object(y)) => {
                &&& x@.len() == y@.len()
                &&& forall|i: int|
                    0 <= i < x@.len() ==> (#[trigger] x@[i]).0@ == y@[i].0@ && x@[i].1@ == y@[i].1@
            },
            _ => false,
        },
{
    match (a, b) {
        (Value::Array(x), Value::Array(y)) => {
            let (v, w) = (a@->Array_0, b@->Array_0);
            assert(v.len() == x@.len() && w.len() == y@.len());
            assert forall|i: int| 0 <= i < x@.len() implies (#[trigger] x@[i])@ == y@[i]@ by {
                assert(v[i] == x@[i]@ && w[i] == y@[i]@);
            }
        },
        (Value::Object(x), Value::Object(y)) => {
            let (v, w) = (a@->Object_0, b@->Object_0);
            assert(v.len() == x@.len() && w.len() == y@.len());
            assert forall|i: int| 0 <= i < x@.len() implies (#[trigger] x@[i]).0@ == y@[i].0@
                && x@[i].1@ == y@[i].1@ by {
                assert(v[i] == (x@[i].0@, x@[i].1@) && w[i] == (y@[i].0@, y@[i].1@));
            }
        },
        _ => {},
    }
}

} // verus!
