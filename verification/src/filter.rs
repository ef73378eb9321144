//! The document store's filter language.
//!
//! A filter is an object mapping dotted field paths to either a literal
//! value or an operator object.  The supported operator keys are `$eq`,
//! `$ne` and `$exists`; any other operator key is ignored and never
//! excludes a document on its own — a deliberate, documented incompleteness
//! of this fallback engine, not full query support.

use crate::text::{find_char, lemma_find_char, str_find_char, str_eq};
use crate::value::{Value, ValueView, entry_views, value_eq};
use vstd::prelude::*;
use vstd::std_specs::cmp::PartialEqSpec;
use vstd::std_specs::cmp::PartialOrdSpec;

verus! {

/// An operator key: non-empty and starting with `$`.
pub open spec fn is_op_key(k: Seq<char>) -> bool {
    k.len() > 0 && k[0] == '$'
}

/// The value of the first entry holding a key, front to back.
pub open spec fn obj_get(es: Seq<(Seq<char>, ValueView)>, k: Seq<char>) -> Option<ValueView>
    decreases es.len(),
{
    if es.len() == 0 {
        None
    } else if es[0].0 == k {
        Some(es[0].1)
    } else {
        obj_get(es.skip(1), k)
    }
}

/// Whether some entry uses an operator key.
pub open spec fn has_op_key(es: Seq<(Seq<char>, ValueView)>) -> bool {
    exists|i: int| 0 <= i < es.len() && is_op_key((#[trigger] es[i]).0)
}

/// A dotted path split into its parts.
pub open spec fn dot_parts(s: Seq<char>) -> Seq<Seq<char>>
    decreases s.len(),
{
    let i = find_char(s, '.');
    if !(0 <= i < s.len()) {
        seq![s]
    } else {
        seq![s.take(i)] + dot_parts(s.skip(i + 1))
    }
}

/// Walk a dotted path through nested objects.  `None` means the walk
/// failed: the document is not an object, some intermediate part is absent
/// or not an object.  `Some(leaf)` carries what the final part resolves to
/// under the last object, which may itself be absent.  A failed walk never
/// matches, even for an `$exists: false` test — absence of an intermediate
/// object is a miss, not a vacuous match.
pub open spec fn leaf_of(doc: ValueView, parts: Seq<Seq<char>>) -> Option<Option<ValueView>>
    decreases parts.len(),
{
    match doc {
        ValueView::Obj(es) => {
            if parts.len() == 0 {
                None
            } else if parts.len() == 1 {
                Some(obj_get(es, parts[0]))
            } else {
                match obj_get(es, parts[0]) {
                    Some(child) => leaf_of(child, parts.skip(1)),
                    None => None,
                }
            }
        },
        _ => None,
    }
}

/// One operator test against a resolved leaf.  `$eq` is structural
/// equality and requires a present leaf; `$ne` requires a present leaf
/// comparing unequal; `$exists` tests presence (an explicit null is
/// present), and with a non-boolean argument is ignored; any other
/// operator key is ignored.
pub open spec fn op_entry_matches(leaf: Option<ValueView>, key: Seq<char>, opval: ValueView) -> bool {
    if key == "$eq"@ {
        match leaf {
            Some(v) => v == opval,
            None => false,
        }
    } else if key == "$ne"@ {
        match leaf {
            Some(v) => v != opval,
            None => false,
        }
    } else if key == "$exists"@ {
        match opval {
            ValueView::Bool(b) => b == (leaf is Some),
            _ => true,
        }
    } else {
        true
    }
}

/// All operator tests of an operator object, from entry `i` on.
pub open spec fn op_from(leaf: Option<ValueView>, es: Seq<(Seq<char>, ValueView)>, i: int) -> bool
    decreases es.len() - i,
{
    if i < 0 || i >= es.len() {
        true
    } else {
        op_entry_matches(leaf, es[i].0, es[i].1) && op_from(leaf, es, i + 1)
    }
}

/// Whether a document matches a filter: the filter must be an object and
/// every one of its entries must match.
pub open spec fn matches_filter(doc: ValueView, filter: ValueView) -> bool
    decreases filter, 1int, 0int,
{
    match filter {
        ValueView::Obj(es) => matches_from(doc, es, 0),
        _ => false,
    }
}

/// Whether every filter entry from `i` on matches.
pub open spec fn matches_from(doc: ValueView, es: Seq<(Seq<char>, ValueView)>, i: int) -> bool
    decreases es, 0int, es.len() - i,
{
    if i < 0 || i >= es.len() {
        true
    } else {
        entry_matches(doc, es[i].0, es[i].1) && matches_from(doc, es, i + 1)
    }
}

/// Whether one filter entry matches.  An operator key at the top level is
/// ignored and never excludes.  Otherwise the dotted path is resolved; an
/// operator object is applied to the leaf; a nested object literal matches
/// recursively (so a literal needs only the named fields to agree); any
/// other literal must be structurally equal to a present leaf.
pub open spec fn entry_matches(doc: ValueView, key: Seq<char>, fval: ValueView) -> bool
    decreases fval, 2int, 0int,
{
    if is_op_key(key) {
        true
    } else {
        match leaf_of(doc, dot_parts(key)) {
            None => false,
            Some(leaf) => {
                if fval matches ValueView::Obj(fes) && has_op_key(fval->Obj_0) {
                    op_from(leaf, fval->Obj_0, 0)
                } else {
                    match leaf {
                        Some(v) => {
                            if v matches ValueView::Obj(des) && fval matches ValueView::Obj(fes) {
                                matches_filter(v, fval)
                            } else {
                                v == fval
                            }
                        },
                        None => false,
                    }
                }
            },
        }
    }
}

/// The value under a key in an object's entries, front to back.
pub fn obj_get_exec<'a>(entries: &'a Vec<(String, Value)>, k: &str) -> (r: Option<&'a Value>)
    ensures
        match r {
            Some(v) => obj_get(entry_views(*entries), k@) == Some(v@),
            None => obj_get(entry_views(*entries), k@) is None,
        },
{
    let ghost es = entry_views(*entries);
    let n = entries.len();
    let mut i: usize = 0;
    proof {
        assert(es.skip(0) =~= es);
    }
    while i < n
        invariant
            i <= n,
            n == entries@.len(),
            es == entry_views(*entries),
            es.len() == n,
            obj_get(es, k@) == obj_get(es.skip(i as int), k@),
        decreases n - i,
    {
        proof {
            let sa = es.skip(i as int);
            assert(sa[0] == es[i as int]);
            assert(es[i as int] == (entries@[i as int].0@, crate::value::value_view(
                entries@[i as int].1,
            )));
            assert(sa.skip(1) =~= es.skip(i + 1));
        }
        if str_eq(entries[i].0.as_str(), k) {
            return Some(&entries[i].1);
        }
        i = i + 1;
    }
    proof {
        assert(es.skip(n as int) =~= Seq::<(Seq<char>, ValueView)>::empty());
    }
    None
}

/// Split a dotted path into its parts.
fn dot_parts_exec(s: &str) -> (r: Vec<String>)
    ensures
        r@.map_values(|p: String| p@) == dot_parts(s@),
        r@.len() > 0,
    decreases s@.len(),
{
    proof {
        lemma_find_char(s@, '.');
    }
    let n = s.unicode_len();
    let i = str_find_char(s, '.');
    if i == n {
        let mut out: Vec<String> = Vec::new();
        out.push(s.to_owned());
        proof {
            assert(out@.map_values(|p: String| p@) =~= seq![s@]);
        }
        out
    } else {
        let head = s.substring_char(0, i);
        let tail = s.substring_char(i + 1, n);
        proof {
            assert(head@ == s@.take(i as int));
            assert(tail@ == s@.skip(i + 1));
            assert(tail@.len() < s@.len());
        }
        let mut out: Vec<String> = Vec::new();
        out.push(head.to_owned());
        let mut rest = dot_parts_exec(tail);
        let ghost rest0 = rest@;
        out.append(&mut rest);
        proof {
            let f = |p: String| p@;
            assert(out@ =~= seq![out@[0]] + rest0);
            assert forall|j: int| 0 <= j < out@.len() implies out@.map_values(f)[j] == dot_parts(
                s@,
            )[j] by {
                if j >= 1 {
                    assert(out@[j] == rest0[j - 1]);
                    assert(rest0.map_values(f)[j - 1] == rest0[j - 1]@);
                }
            }
            assert(out@.map_values(f) =~= dot_parts(s@));
        }
        out
    }
}

/// Walk the path parts from `i` on through nested objects.
fn leaf_from<'a>(doc: &'a Value, parts: &Vec<String>, i: usize) -> (r: Option<Option<&'a Value>>)
    requires
        i < parts@.len(),
    ensures
        match r {
            None => leaf_of(doc@, parts@.map_values(|p: String| p@).skip(i as int)) is None,
            Some(leaf) => leaf_of(doc@, parts@.map_values(|p: String| p@).skip(i as int))
                == Some(
                match leaf {
                    Some(v) => Some(v@),
                    None => None::<ValueView>,
                },
            ),
        },
    decreases parts@.len() - i,
{
    let ghost ps = parts@.map_values(|p: String| p@).skip(i as int);
    match doc {
        Value::Obj(entries) => {
            proof {
                assert(doc@ == ValueView::Obj(entry_views(*entries)));
                assert(ps[0] == parts@[i as int]@);
            }
            if i == parts.len() - 1 {
                proof {
                    assert(ps.len() == 1);
                }
                match obj_get_exec(entries, parts[i].as_str()) {
                    Some(v) => Some(Some(v)),
                    None => Some(None),
                }
            } else {
                proof {
                    assert(ps.len() > 1);
                    assert(ps.skip(1) =~= parts@.map_values(|p: String| p@).skip(i + 1));
                }
                match obj_get_exec(entries, parts[i].as_str()) {
                    Some(child) => leaf_from(child, parts, i + 1),
                    None => None,
                }
            }
        },
        _ => {
            proof {
                assert(!(doc@ matches ValueView::Obj(es)));
            }
            None
        },
    }
}

/// Whether the key is an operator key.
fn is_op_key_exec(k: &str) -> (r: bool)
    ensures
        r == is_op_key(k@),
{
    if k.unicode_len() == 0 {
        return false;
    }
    let c = k.get_char(0);
    proof {
        vstd::utf8::char_u32_cast(c, c as u32);
        vstd::utf8::char_u32_cast('$', '$' as u32);
    }
    c as u32 == '$' as u32
}

/// Whether some entry uses an operator key.
fn has_op_key_exec(entries: &Vec<(String, Value)>) -> (r: bool)
    ensures
        r == has_op_key(entry_views(*entries)),
{
    let ghost es = entry_views(*entries);
    let n = entries.len();
    let mut i: usize = 0;
    while i < n
        invariant
            i <= n,
            n == entries@.len(),
            es == entry_views(*entries),
            es.len() == n,
            forall|j: int| 0 <= j < i ==> !is_op_key((#[trigger] es[j]).0),
        decreases n - i,
    {
        proof {
            assert(es[i as int].0 == entries@[i as int].0@);
        }
        if is_op_key_exec(entries[i].0.as_str()) {
            return true;
        }
        i = i + 1;
    }
    false
}

/// One operator test against a resolved leaf.
fn op_entry_exec(leaf: Option<&Value>, key: &str, opval: &Value) -> (r: bool)
    ensures
        r == op_entry_matches(
            match leaf {
                Some(v) => Some(v@),
                None => None::<ValueView>,
            },
            key@,
            opval@,
        ),
{
    if str_eq(key, "$eq") {
        match leaf {
            Some(v) => value_eq(v, opval),
            None => false,
        }
    } else if str_eq(key, "$ne") {
        match leaf {
            Some(v) => !value_eq(v, opval),
            None => false,
        }
    } else if str_eq(key, "$exists") {
        match opval {
            Value::Bool(b) => {
                let present = match leaf {
                    Some(_) => true,
                    None => false,
                };
                *b == present
            },
            _ => true,
        }
    } else {
        true
    }
}

/// All operator tests of an operator object.
fn op_all_exec(leaf: Option<&Value>, entries: &Vec<(String, Value)>) -> (r: bool)
    ensures
        r == op_from(
            match leaf {
                Some(v) => Some(v@),
                None => None::<ValueView>,
            },
            entry_views(*entries),
            0,
        ),
{
    let ghost lv = match leaf {
        Some(v) => Some(v@),
        None => None::<ValueView>,
    };
    let ghost es = entry_views(*entries);
    let n = entries.len();
    let mut i: usize = 0;
    while i < n
        invariant
            i <= n,
            n == entries@.len(),
            es == entry_views(*entries),
            es.len() == n,
            lv == match leaf {
                Some(v) => Some(v@),
                None => None::<ValueView>,
            },
            op_from(lv, es, 0) == op_from(lv, es, i as int),
        decreases n - i,
    {
        proof {
            assert(es[i as int] == (entries@[i as int].0@, crate::value::value_view(
                entries@[i as int].1,
            )));
        }
        if !op_entry_exec(leaf, entries[i].0.as_str(), &entries[i].1) {
            return false;
        }
        i = i + 1;
    }
    true
}

/// Whether a document matches a filter.
pub fn matches_value(doc: &Value, filter: &Value) -> (r: bool)
    ensures
        r == matches_filter(doc@, filter@),
    decreases *filter, 1int, 0int,
{
    match filter {
        Value::Obj(entries) => {
            proof {
                assert(filter@ == ValueView::Obj(entry_views(*entries)));
            }
            matches_entries(doc, entries)
        },
        _ => {
            proof {
                assert(!(filter@ matches ValueView::Obj(es)));
            }
            false
        },
    }
}

/// Whether every filter entry matches.
fn matches_entries(doc: &Value, entries: &Vec<(String, Value)>) -> (r: bool)
    ensures
        r == matches_from(doc@, entry_views(*entries), 0),
    decreases *entries, 0int, 0int,
{
    let ghost es = entry_views(*entries);
    let n = entries.len();
    let mut i: usize = 0;
    while i < n
        invariant
            i <= n,
            n == entries@.len(),
            es == entry_views(*entries),
            es.len() == n,
            matches_from(doc@, es, 0) == matches_from(doc@, es, i as int),
        decreases n - i,
    {
        proof {
            assert(es[i as int] == (entries@[i as int].0@, crate::value::value_view(
                entries@[i as int].1,
            )));
        }
        if !entry_matches_exec(doc, entries[i].0.as_str(), &entries[i].1) {
            return false;
        }
        i = i + 1;
    }
    true
}

/// Whether one filter entry matches.
fn entry_matches_exec(doc: &Value, key: &str, fval: &Value) -> (r: bool)
    ensures
        r == entry_matches(doc@, key@, fval@),
    decreases *fval, 2int, 0int,
{
    if is_op_key_exec(key) {
        return true;
    }
    let parts = dot_parts_exec(key);
    proof {
        assert(parts@.map_values(|p: String| p@).skip(0) =~= dot_parts(key@));
    }
    let leaf = match leaf_from(doc, &parts, 0) {
        None => {
            return false;
        },
        Some(leaf) => leaf,
    };
    let is_op_obj = match fval {
        Value::Obj(fes) => has_op_key_exec(fes),
        _ => false,
    };
    if is_op_obj {
        match fval {
            Value::Obj(fes) => op_all_exec(leaf, fes),
            _ => false,
        }
    } else {
        match leaf {
            Some(v) => {
                let nested = match (v, fval) {
                    (Value::Obj(_), Value::Obj(_)) => true,
                    _ => false,
                };
                if nested {
                    matches_value(v, fval)
                } else {
                    proof {
                        if v@ matches ValueView::Obj(a) && fval@ matches ValueView::Obj(b) {
                            assert(v matches Value::Obj(x));
                            assert(fval matches Value::Obj(y));
                        }
                    }
                    value_eq(v, fval)
                }
            },
            None => false,
        }
    }
}

/// Comparison operators of the filter language.
pub enum ComparisonOperator {
    /// Matches values that are equal to a specified value.
    EqualTo,
    /// Matches values that are greater than a specified value.
    GreaterThan,
    /// Matches values that are greater than or equal to a specified value.
    GreaterThanOrEqualTo,
    /// Matches values that are less than a specified value.
    LessThan,
    /// Matches values that are less than or equal to a specified value.
    LessThanOrEqualTo,
    /// Matches all values that are not equal to a specified value.
    NotEqual,
    /// Matches any of the values specified in an array.
    InArray,
    /// Matches none of the values specified in an array.
    NotInArray,
    /// Matches values that exist, including explicit null values.
    Exists,
    /// Matches values of a specific type.
    Type,
}

impl ComparisonOperator {
    /// The operator key this operator is written as.
    pub fn to_mongo_operator(&self) -> (r: &'static str)
        ensures
            match self {
                ComparisonOperator::EqualTo => r@ == "$eq"@,
                ComparisonOperator::GreaterThan => r@ == "$gt"@,
                ComparisonOperator::GreaterThanOrEqualTo => r@ == "$gte"@,
                ComparisonOperator::LessThan => r@ == "$lt"@,
                ComparisonOperator::LessThanOrEqualTo => r@ == "$lte"@,
                ComparisonOperator::NotEqual => r@ == "$ne"@,
                ComparisonOperator::InArray => r@ == "$in"@,
                ComparisonOperator::NotInArray => r@ == "$nin"@,
                ComparisonOperator::Exists => r@ == "$exists"@,
                ComparisonOperator::Type => r@ == "$type"@,
            },
    {
        match self {
            ComparisonOperator::EqualTo => "$eq",
            ComparisonOperator::GreaterThan => "$gt",
            ComparisonOperator::GreaterThanOrEqualTo => "$gte",
            ComparisonOperator::LessThan => "$lt",
            ComparisonOperator::LessThanOrEqualTo => "$lte",
            ComparisonOperator::NotEqual => "$ne",
            ComparisonOperator::InArray => "$in",
            ComparisonOperator::NotInArray => "$nin",
            ComparisonOperator::Exists => "$exists",
            ComparisonOperator::Type => "$type",
        }
    }

    /// Apply a value-comparison operator.  The array, existence and type
    /// operators are not value comparisons and are left out.
    pub fn compare<T: PartialEq<T> + PartialOrd<T>>(&self, lhs: &T, rhs: &T) -> (r: bool)
        requires
            self matches ComparisonOperator::EqualTo || self
                matches ComparisonOperator::GreaterThan || self
                matches ComparisonOperator::GreaterThanOrEqualTo || self
                matches ComparisonOperator::LessThan || self
                matches ComparisonOperator::LessThanOrEqualTo || self
                matches ComparisonOperator::NotEqual,
        ensures
            T::obeys_eq_spec() && T::obeys_partial_cmp_spec() ==> r == (match self {
                ComparisonOperator::EqualTo => lhs.eq_spec(rhs),
                ComparisonOperator::GreaterThan => lhs.partial_cmp_spec(rhs) == Some(
                    core::cmp::Ordering::Greater,
                ),
                ComparisonOperator::GreaterThanOrEqualTo => lhs.partial_cmp_spec(rhs) matches Some(
                    core::cmp::Ordering::Greater
                    | core::cmp::Ordering::Equal,
                ),
                ComparisonOperator::LessThan => lhs.partial_cmp_spec(rhs) == Some(
                    core::cmp::Ordering::Less,
                ),
                ComparisonOperator::LessThanOrEqualTo => lhs.partial_cmp_spec(rhs) matches Some(
                    core::cmp::Ordering::Less
                    | core::cmp::Ordering::Equal,
                ),
                ComparisonOperator::NotEqual => !lhs.eq_spec(rhs),
                _ => arbitrary(),
            }),
    {
        match self {
            ComparisonOperator::EqualTo => lhs.eq(rhs),
            ComparisonOperator::GreaterThan => lhs.gt(rhs),
            ComparisonOperator::GreaterThanOrEqualTo => lhs.ge(rhs),
            ComparisonOperator::LessThan => lhs.lt(rhs),
            ComparisonOperator::LessThanOrEqualTo => lhs.le(rhs),
            ComparisonOperator::NotEqual => lhs.ne(rhs),
            _ => false,
        }
    }
}

/// Whether the fallback engine handles a filter key: any regular field, or
/// one of the `$eq`, `$ne` and `$exists` operators.
pub fn is_handled_filter(name: &str) -> (r: bool)
    ensures
        r == (!is_op_key(name@) || name@ == "$eq"@ || name@ == "$ne"@ || name@ == "$exists"@),
{
    !is_op_key_exec(name) || str_eq(name, "$eq") || str_eq(name, "$ne") || str_eq(name, "$exists")
}

} // verus!
