//! A structured document value: the JSON-like shape that documents take
//! when the store's filter language examines them.

use vstd::prelude::*;

verus! {

/// Mathematical model of a document value.
pub enum ValueView {
    Null,
    Bool(bool),
    Int(i64),
    Text(Seq<char>),
    Arr(Seq<ValueView>),
    Obj(Seq<(Seq<char>, ValueView)>),
}

/// A structured document value.  Object entries keep their order; equality
/// is structural, entry order included.
#[derive(Debug)]
pub enum Value {
    Null,
    Bool(bool),
    Int(i64),
    Text(String),
    Arr(Vec<Value>),
    Obj(Vec<(String, Value)>),
}

/// The models of an array's elements.
pub open spec fn value_views(v: Vec<Value>) -> Seq<ValueView>
    decreases v,
{
    Seq::new(
        v@.len(),
        |i: int|
            if 0 <= i < v@.len() {
                value_view(v@[i])
            } else {
                arbitrary()
            },
    )
}

/// The models of an object's entries.
pub open spec fn entry_views(v: Vec<(String, Value)>) -> Seq<(Seq<char>, ValueView)>
    decreases v,
{
    Seq::new(
        v@.len(),
        |i: int|
            if 0 <= i < v@.len() {
                (v@[i].0@, value_view(v@[i].1))
            } else {
                arbitrary()
            },
    )
}

/// The model of a value.
pub open spec fn value_view(v: Value) -> ValueView
    decreases v,
{
    match v {
        Value::Null => ValueView::Null,
        Value::Bool(b) => ValueView::Bool(b),
        Value::Int(n) => ValueView::Int(n),
        Value::Text(s) => ValueView::Text(s@),
        Value::Arr(elems) => ValueView::Arr(value_views(elems)),
        Value::Obj(entries) => ValueView::Obj(entry_views(entries)),
    }
}

impl View for Value {
    type V = ValueView;

    open spec fn view(&self) -> ValueView {
        value_view(*self)
    }
}

/// Compare two values structurally.
pub fn value_eq(a: &Value, b: &Value) -> (r: bool)
    ensures
        r == (a@ == b@),
    decreases *a,
{
    match (a, b) {
        (Value::Null, Value::Null) => true,
        (Value::Bool(x), Value::Bool(y)) => x == y,
        (Value::Int(x), Value::Int(y)) => x == y,
        (Value::Text(x), Value::Text(y)) => crate::text::str_eq(x.as_str(), y.as_str()),
        (Value::Arr(x), Value::Arr(y)) => {
            let n = x.len();
            if n != y.len() {
                proof {
                    assert(a@->Arr_0.len() == n);
                    assert(b@->Arr_0.len() == y@.len());
                }
                return false;
            }
            let mut i: usize = 0;
            while i < n
                invariant
                    i <= n,
                    n == x@.len(),
                    n == y@.len(),
                    a == Value::Arr(*x),
                    b == Value::Arr(*y),
                    forall|j: int| 0 <= j < i ==> value_view(#[trigger] x@[j]) == value_view(
                        y@[j],
                    ),
                decreases n - i,
            {
                if !value_eq(&x[i], &y[i]) {
                    proof {
                        assert(a@->Arr_0[i as int] == value_view(x@[i as int]));
                        assert(b@->Arr_0[i as int] == value_view(y@[i as int]));
                    }
                    return false;
                }
                i = i + 1;
            }
            proof {
                assert(a@->Arr_0 =~= b@->Arr_0);
            }
            true
        },
        (Value::Obj(x), Value::Obj(y)) => {
            let n = x.len();
            if n != y.len() {
                proof {
                    assert(a@->Obj_0.len() == n);
                    assert(b@->Obj_0.len() == y@.len());
                }
                return false;
            }
            let mut i: usize = 0;
            while i < n
                invariant
                    i <= n,
                    n == x@.len(),
                    n == y@.len(),
                    a == Value::Obj(*x),
                    b == Value::Obj(*y),
                    forall|j: int| #![auto]
                        0 <= j < i ==> x@[j].0@ == y@[j].0@ && value_view(x@[j].1) == value_view(
                            y@[j].1,
                        ),
                decreases n - i,
            {
                if !crate::text::str_eq(x[i].0.as_str(), y[i].0.as_str()) {
                    proof {
                        assert(a@->Obj_0[i as int].0 == x@[i as int].0@);
                        assert(b@->Obj_0[i as int].0 == y@[i as int].0@);
                    }
                    return false;
                }
                if !value_eq(&x[i].1, &y[i].1) {
                    proof {
                        assert(a@->Obj_0[i as int].1 == value_view(x@[i as int].1));
                        assert(b@->Obj_0[i as int].1 == value_view(y@[i as int].1));
                    }
                    return false;
                }
                i = i + 1;
            }
            proof {
                assert(a@->Obj_0 =~= b@->Obj_0);
            }
            true
        },
        _ => {
            proof {
                assert(a@ != b@);
            }
            false
        },
    }
}

} // verus!
