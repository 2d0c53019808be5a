//! The values that evaluation produces.

use crate::ast::{
    block_view, clone_block, clone_idents, idents_view, BlockStatement, Ident, StatementView,
};
use crate::number::{same_number, Number};
use crate::token::same_text;
use vstd::prelude::*;
use vstd::string::*;

verus! {

/// A value of the language, or one of the signals that cut evaluation short.
///
/// `Return`, `Error`, `Break` and `Continue` are signals. A function value
/// names the scope in which its literal was evaluated; a native function is
/// known by its name.
#[derive(Debug, PartialEq)]
pub enum Object {
    Number(Number),
    String(String),
    Bool(bool),
    Null,
    Return(Box<Object>),
    Error(String),
    Fn(Vec<Ident>, BlockStatement, usize),
    Inbuilt(String),
    Array(Vec<Object>),
    Object(Vec<(Object, Object)>),
    Break,
    Continue,
}

/// The mathematical model of an [`Object`].
pub enum ObjectView {
    Number(Seq<char>),
    String(Seq<char>),
    Bool(bool),
    Null,
    Return(Box<ObjectView>),
    Error(Seq<char>),
    Fn(Seq<Seq<char>>, Seq<StatementView>, nat),
    Inbuilt(Seq<char>),
    Array(Seq<ObjectView>),
    Object(Seq<(ObjectView, ObjectView)>),
    Break,
    Continue,
}

/// The model of a value.
pub open spec fn object_view(o: Object) -> ObjectView
    decreases o,
{
    match o {
        Object::Number(n) => ObjectView::Number(n@),
        Object::String(s) => ObjectView::String(s@),
        Object::Bool(b) => ObjectView::Bool(b),
        Object::Null => ObjectView::Null,
        Object::Return(v) => ObjectView::Return(Box::new(object_view(*v))),
        Object::Error(e) => ObjectView::Error(e@),
        Object::Fn(params, body, scope) => ObjectView::Fn(
            idents_view(params@),
            block_view(body),
            scope as nat,
        ),
        Object::Inbuilt(name) => ObjectView::Inbuilt(name@),
        Object::Array(items) => ObjectView::Array(objects_view(items)),
        Object::Object(entries) => ObjectView::Object(entries_view(entries)),
        Object::Break => ObjectView::Break,
        Object::Continue => ObjectView::Continue,
    }
}

/// The models of a list of values, in order.
pub open spec fn objects_view(v: Vec<Object>) -> Seq<ObjectView>
    decreases v,
{
    Seq::new(
        v@.len(),
        |i: int|
            if 0 <= i < v@.len() {
                object_view(v@[i])
            } else {
                ObjectView::Null
            },
    )
}

/// The models of the entries of a map, in order.
pub open spec fn entries_view(v: Vec<(Object, Object)>) -> Seq<(ObjectView, ObjectView)>
    decreases v,
{
    Seq::new(
        v@.len(),
        |i: int|
            if 0 <= i < v@.len() {
                (object_view(v@[i].0), object_view(v@[i].1))
            } else {
                (ObjectView::Null, ObjectView::Null)
            },
    )
}

impl View for Object {
    type V = ObjectView;

    open spec fn view(&self) -> ObjectView {
        object_view(*self)
    }
}

/// The model of a value that may be missing.
pub open spec fn opt_object_view(o: Option<Object>) -> Option<ObjectView> {
    match o {
        Some(v) => Some(v@),
        None => None,
    }
}

/// The model of a list grown by one value is the model of the list grown by
/// the model of the value.
pub proof fn lemma_objects_push(before: Vec<Object>, after: Vec<Object>, o: Object)
    requires
        after@ == before@.push(o),
    ensures
        objects_view(after) == objects_view(before).push(o@),
{
    assert(objects_view(after) =~= objects_view(before).push(o@));
}

/// The same for the entries of a map.
pub proof fn lemma_entries_push(
    before: Vec<(Object, Object)>,
    after: Vec<(Object, Object)>,
    key: Object,
    value: Object,
)
    requires
        after@ == before@.push((key, value)),
    ensures
        entries_view(after) == entries_view(before).push((key@, value@)),
{
    assert(entries_view(after) =~= entries_view(before).push((key@, value@)));
}

/// Copies a value, with everything in it.
pub fn clone_object(o: &Object) -> (r: Object)
    ensures
        r@ == o@,
    decreases o,
{
    match o {
        Object::Number(n) => Object::Number(n.duplicate()),
        Object::String(s) => Object::String(s.clone()),
        Object::Bool(b) => Object::Bool(*b),
        Object::Null => Object::Null,
        Object::Return(v) => Object::Return(Box::new(clone_object(v))),
        Object::Error(e) => Object::Error(e.clone()),
        Object::Fn(params, body, scope) => Object::Fn(
            clone_idents(params),
            clone_block(body),
            *scope,
        ),
        Object::Inbuilt(name) => Object::Inbuilt(name.clone()),
        Object::Array(items) => Object::Array(clone_objects(items)),
        Object::Object(entries) => Object::Object(clone_entries(entries)),
        Object::Break => Object::Break,
        Object::Continue => Object::Continue,
    }
}

/// Copies a list of values.
pub fn clone_objects(v: &Vec<Object>) -> (r: Vec<Object>)
    ensures
        objects_view(r) == objects_view(*v),
    decreases v,
{
    let mut out: Vec<Object> = Vec::new();
    let mut i: usize = 0;
    while i < v.len()
        invariant
            i <= v.len(),
            out@.len() == i,
            forall|k: int| 0 <= k < i ==> out@[k]@ == v@[k]@,
        decreases v.len() - i,
    {
        out.push(clone_object(&v[i]));
        i += 1;
    }
    assert(objects_view(out) =~= objects_view(*v));
    out
}

/// Copies the entries of a map.
pub fn clone_entries(v: &Vec<(Object, Object)>) -> (r: Vec<(Object, Object)>)
    ensures
        entries_view(r) == entries_view(*v),
    decreases v,
{
    let mut out: Vec<(Object, Object)> = Vec::new();
    let mut i: usize = 0;
    while i < v.len()
        invariant
            i <= v.len(),
            out@.len() == i,
            forall|k: int|
                0 <= k < i ==> out@[k].0@ == v@[k].0@ && out@[k].1@ == v@[k].1@,
        decreases v.len() - i,
    {
        let key = clone_object(&v[i].0);
        let value = clone_object(&v[i].1);
        out.push((key, value));
        i += 1;
    }
    assert(entries_view(out) =~= entries_view(*v));
    out
}

impl Clone for Object {
    fn clone(&self) -> (r: Self)
        ensures
            r@ == self@,
    {
        clone_object(self)
    }
}

/// Whether two values are equal.
///
/// Numbers are equal when they denote the same number; texts, truth values
/// and native functions when they are the same; functions when they have the
/// same parameters, the same body and the same scope; arrays when they hold
/// equal items in the same order; maps when they are of one size and each
/// key of the first has an equal value in the second. The signals `Break`
/// and `Continue` are equal to nothing.
pub open spec fn same_object(a: ObjectView, b: ObjectView) -> bool
    decreases a, 0nat,
{
    match (a, b) {
        (ObjectView::Number(x), ObjectView::Number(y)) => same_number(x, y),
        (ObjectView::String(x), ObjectView::String(y)) => x == y,
        (ObjectView::Bool(x), ObjectView::Bool(y)) => x == y,
        (ObjectView::Null, ObjectView::Null) => true,
        (ObjectView::Return(x), ObjectView::Return(y)) => same_object(*x, *y),
        (ObjectView::Error(x), ObjectView::Error(y)) => x == y,
        (ObjectView::Fn(p, b, s), ObjectView::Fn(q, c, t)) => p == q && b == c && s == t,
        (ObjectView::Inbuilt(x), ObjectView::Inbuilt(y)) => x == y,
        (ObjectView::Array(x), ObjectView::Array(y)) => same_objects(x, y),
        (ObjectView::Object(x), ObjectView::Object(y)) => same_entries(x, y),
        _ => false,
    }
}

/// Whether two lists hold equal values at each position.
pub open spec fn same_objects(a: Seq<ObjectView>, b: Seq<ObjectView>) -> bool
    decreases a, 0nat,
{
    a.len() == b.len() && forall|i: int|
        0 <= i < a.len() ==> same_object(#[trigger] a[i], b[i])
}

/// Whether two maps are of one size, and the second holds an equal value
/// for each key of the first.
pub open spec fn same_entries(
    a: Seq<(ObjectView, ObjectView)>,
    b: Seq<(ObjectView, ObjectView)>,
) -> bool
    decreases a, 0nat,
{
    a.len() == b.len() && forall|i: int|
        0 <= i < a.len() ==> match find_key(b, (#[trigger] a[i]).0, 0) {
            Some(j) => j < b.len() && same_object(a[i].1, b[j as int].1),
            None => false,
        }
}

/// The position of the first entry at or after `from` whose key equals `key`.
pub open spec fn find_key(
    entries: Seq<(ObjectView, ObjectView)>,
    key: ObjectView,
    from: nat,
) -> Option<nat>
    decreases key, entries.len() - from + 1,
{
    if from >= entries.len() {
        None
    } else if same_object(key, entries[from as int].0) {
        Some(from)
    } else {
        find_key(entries, key, from + 1)
    }
}

impl Object {
    /// Whether the value is an error.
    pub fn is_error(&self) -> (r: bool)
        ensures
            r == (self@ is Error),
    {
        match self {
            Object::Error(_) => true,
            _ => false,
        }
    }

    /// Whether the value counts as true: everything but `Null` and `false`.
    pub fn is_truthy(&self) -> (r: bool)
        ensures
            r == !(self@ is Null || self@ == ObjectView::Bool(false)),
    {
        match self {
            Object::Null => false,
            Object::Bool(b) => *b,
            _ => true,
        }
    }

    /// Whether two values are equal.
    pub fn equals(&self, other: &Object) -> (r: bool)
        ensures
            r == same_object(self@, other@),
        decreases self, 0nat,
    {
        match (self, other) {
            (Object::Number(x), Object::Number(y)) => x.equals(y),
            (Object::String(x), Object::String(y)) => same_text(x.as_str(), y.as_str()),
            (Object::Bool(x), Object::Bool(y)) => *x == *y,
            (Object::Null, Object::Null) => true,
            (Object::Return(x), Object::Return(y)) => x.equals(y),
            (Object::Error(x), Object::Error(y)) => same_text(x.as_str(), y.as_str()),
            (Object::Fn(p, b, s), Object::Fn(q, c, t)) => crate::ast::same_idents(p, q)
                && crate::ast::same_block(b, c) && *s == *t,
            (Object::Inbuilt(x), Object::Inbuilt(y)) => same_text(x.as_str(), y.as_str()),
            (Object::Array(x), Object::Array(y)) => equal_lists(x, y),
            (Object::Object(x), Object::Object(y)) => equal_entries(x, y),
            _ => false,
        }
    }
}

/// Whether two lists hold equal values at each position.
pub fn equal_lists(x: &Vec<Object>, y: &Vec<Object>) -> (r: bool)
    ensures
        r == same_objects(objects_view(*x), objects_view(*y)),
    decreases x, 0nat,
{
    if x.len() != y.len() {
        return false;
    }
    let mut i: usize = 0;
    while i < x.len()
        invariant
            i <= x.len(),
            x.len() == y.len(),
            forall|k: int|
                0 <= k < i ==> same_object(
                    #[trigger] objects_view(*x)[k],
                    objects_view(*y)[k],
                ),
        decreases x.len() - i,
    {
        if !x[i].equals(&y[i]) {
            assert(!same_object(objects_view(*x)[i as int], objects_view(*y)[i as int]));
            return false;
        }
        assert(same_object(objects_view(*x)[i as int], objects_view(*y)[i as int]));
        i += 1;
    }
    true
}

/// Whether two maps are of one size, and the second holds an equal value
/// for each key of the first.
pub fn equal_entries(x: &Vec<(Object, Object)>, y: &Vec<(Object, Object)>) -> (r: bool)
    ensures
        r == same_entries(entries_view(*x), entries_view(*y)),
    decreases x, 0nat,
{
    if x.len() != y.len() {
        return false;
    }
    let mut i: usize = 0;
    while i < x.len()
        invariant
            i <= x.len(),
            x.len() == y.len(),
            forall|k: int|
                0 <= k < i ==> match find_key(
                    entries_view(*y),
                    (#[trigger] entries_view(*x)[k]).0,
                    0,
                ) {
                    Some(j) => j < y.len() && same_object(
                        entries_view(*x)[k].1,
                        entries_view(*y)[j as int].1,
                    ),
                    None => false,
                },
        decreases x.len() - i,
    {
        proof {
            assert(entries_view(*x)[i as int] == (x@[i as int].0@, x@[i as int].1@));
        }
        match position_of(y, &x[i].0) {
            Some(j) => {
                proof {
                    assert(entries_view(*y)[j as int] == (y@[j as int].0@, y@[j as int].1@));
                }
                if !x[i].1.equals(&y[j].1) {
                    return false;
                }
            },
            None => {
                return false;
            },
        }
        i += 1;
    }
    true
}

/// The names of a parameter list, the first `n` of them, with `, ` between.
pub open spec fn joined_names(names: Seq<Seq<char>>, n: nat) -> Seq<char>
    decreases n,
{
    if n == 0 || n > names.len() {
        Seq::empty()
    } else if n == 1 {
        names[0]
    } else {
        joined_names(names, (n - 1) as nat) + ", "@ + names[n - 1]
    }
}

/// How a value is written out.
pub open spec fn object_text(o: ObjectView) -> Seq<char>
    decreases o, 0nat,
{
    match o {
        ObjectView::Number(n) => n,
        ObjectView::String(s) => s,
        ObjectView::Bool(b) => if b {
            "true"@
        } else {
            "false"@
        },
        ObjectView::Null => "null"@,
        ObjectView::Return(v) => object_text(*v),
        ObjectView::Error(e) => e,
        ObjectView::Fn(params, _, _) => "fn("@ + joined_names(params, params.len()) + ") { ... }"@,
        ObjectView::Inbuilt(_) => "[inbuilt fn]"@,
        ObjectView::Array(items) => "["@ + joined_objects(items, items.len()) + "]"@,
        ObjectView::Object(entries) => "{"@ + joined_entries(entries, entries.len()) + "}"@,
        ObjectView::Break => "break"@,
        ObjectView::Continue => "continue"@,
    }
}

/// The first `n` values of a list written out, with `, ` between.
pub open spec fn joined_objects(items: Seq<ObjectView>, n: nat) -> Seq<char>
    decreases items, n,
{
    if n == 0 || n > items.len() {
        Seq::empty()
    } else if n == 1 {
        object_text(items[0])
    } else {
        joined_objects(items, (n - 1) as nat) + ", "@ + object_text(items[n - 1])
    }
}

/// One entry of a map written out: the key, `: ` and the value.
pub open spec fn entry_text(entry: (ObjectView, ObjectView)) -> Seq<char>
    decreases entry, 0nat,
{
    object_text(entry.0) + ": "@ + object_text(entry.1)
}

/// The first `n` entries of a map written out, with `, ` between.
pub open spec fn joined_entries(entries: Seq<(ObjectView, ObjectView)>, n: nat) -> Seq<char>
    decreases entries, n,
{
    if n == 0 || n > entries.len() {
        Seq::empty()
    } else if n == 1 {
        entry_text(entries[0])
    } else {
        joined_entries(entries, (n - 1) as nat) + ", "@ + entry_text(entries[n - 1])
    }
}

/// The name of the kind of a value, as `typeof` gives it; `undefined` for
/// functions and signals.
pub open spec fn kind_name(o: ObjectView) -> Seq<char> {
    match o {
        ObjectView::Null => "null"@,
        ObjectView::Bool(_) => "boolean"@,
        ObjectView::Number(_) => "number"@,
        ObjectView::String(_) => "string"@,
        ObjectView::Array(_) => "array"@,
        ObjectView::Object(_) => "object"@,
        _ => "undefined"@,
    }
}

/// The value that a map holds for `key`.
pub open spec fn lookup(entries: Seq<(ObjectView, ObjectView)>, key: ObjectView) -> Option<
    ObjectView,
> {
    match find_key(entries, key, 0) {
        Some(i) => Some(entries[i as int].1),
        None => None,
    }
}

/// The map with `value` for `key`: the value of the first entry with an
/// equal key is replaced; without one, a new entry is put behind the others.
pub open spec fn inserted(
    entries: Seq<(ObjectView, ObjectView)>,
    key: ObjectView,
    value: ObjectView,
) -> Seq<(ObjectView, ObjectView)> {
    match find_key(entries, key, 0) {
        Some(i) => entries.update(i as int, (entries[i as int].0, value)),
        None => entries.push((key, value)),
    }
}

/// Whether a list holds a value equal to `x`.
pub open spec fn holds(items: Seq<ObjectView>, x: ObjectView) -> bool {
    exists|i: int| 0 <= i < items.len() && same_object(#[trigger] items[i], x)
}

/// A found position lies in the map and holds an equal key.
pub proof fn lemma_find_key(entries: Seq<(ObjectView, ObjectView)>, key: ObjectView, from: nat)
    ensures
        match find_key(entries, key, from) {
            Some(i) => from <= i < entries.len() && same_object(key, entries[i as int].0)
                && forall|k: int| from <= k < i ==> !same_object(key, (#[trigger] entries[k]).0),
            None => forall|k: int|
                from <= k < entries.len() ==> !same_object(key, (#[trigger] entries[k]).0),
        },
    decreases entries.len() - from,
{
    if from < entries.len() && !same_object(key, entries[from as int].0) {
        lemma_find_key(entries, key, from + 1);
    }
}

/// The position in a map of the first entry whose key equals `key`.
pub fn position_of(entries: &Vec<(Object, Object)>, key: &Object) -> (r: Option<usize>)
    ensures
        match r {
            Some(i) => find_key(entries_view(*entries), key@, 0) == Some(i as nat) && i
                < entries.len(),
            None => find_key(entries_view(*entries), key@, 0).is_none(),
        },
    decreases key, 1nat,
{
    let mut i: usize = 0;
    while i < entries.len()
        invariant
            i <= entries.len(),
            find_key(entries_view(*entries), key@, 0) == find_key(
                entries_view(*entries),
                key@,
                i as nat,
            ),
        decreases entries.len() - i,
    {
        proof {
            assert(entries_view(*entries)[i as int].0 == entries@[i as int].0@);
        }
        if key.equals(&entries[i].0) {
            return Some(i);
        }
        i += 1;
    }
    None
}

/// The value that a map holds for `key`, copied.
pub fn map_get(entries: &Vec<(Object, Object)>, key: &Object) -> (r: Option<Object>)
    ensures
        opt_object_view(r) == lookup(entries_view(*entries), key@),
{
    match position_of(entries, key) {
        Some(i) => {
            proof {
                assert(entries_view(*entries)[i as int].1 == entries@[i as int].1@);
            }
            Some(clone_object(&entries[i].1))
        },
        None => None,
    }
}

/// Puts `value` for `key` into a map.
pub fn map_insert(entries: Vec<(Object, Object)>, key: Object, value: Object) -> (r: Vec<
    (Object, Object),
>)
    ensures
        entries_view(r) == inserted(entries_view(entries), key@, value@),
{
    let mut entries = entries;
    let ghost before = entries;
    match position_of(&entries, &key) {
        Some(i) => {
            let old_entry = entries.remove(i);
            entries.insert(i, (old_entry.0, value));
            proof {
                assert(entries_view(entries) =~= entries_view(before).update(
                    i as int,
                    (entries_view(before)[i as int].0, value@),
                ));
            }
        },
        None => {
            entries.push((key, value));
            proof {
                lemma_entries_push(before, entries, key, value);
            }
        },
    }
    entries
}

/// Whether a list holds a value equal to `x`.
pub fn list_holds(items: &Vec<Object>, x: &Object) -> (r: bool)
    ensures
        r == holds(objects_view(*items), x@),
{
    let mut i: usize = 0;
    while i < items.len()
        invariant
            i <= items.len(),
            forall|k: int| 0 <= k < i ==> !same_object(#[trigger] objects_view(*items)[k], x@),
        decreases items.len() - i,
    {
        if items[i].equals(x) {
            assert(same_object(objects_view(*items)[i as int], x@));
            return true;
        }
        assert(!same_object(objects_view(*items)[i as int], x@));
        i += 1;
    }
    false
}

/// Writes the names of a parameter list out, with `, ` between.
fn names_text(names: &Vec<Ident>) -> (r: String)
    ensures
        r@ == joined_names(idents_view(names@), names@.len()),
{
    let mut out = String::new();
    let mut i: usize = 0;
    while i < names.len()
        invariant
            i <= names.len(),
            out@ == joined_names(idents_view(names@), i as nat),
        decreases names.len() - i,
    {
        if i > 0 {
            out.append(", ");
        }
        out.append(names[i].0.as_str());
        proof {
            assert(idents_view(names@)[i as int] == names@[i as int]@);
            if i == 0 {
                assert(out@ =~= names@[0]@);
            }
        }
        i += 1;
    }
    out
}

/// Writes the values of a list out, with `, ` between.
fn list_text(items: &Vec<Object>) -> (r: String)
    ensures
        r@ == joined_objects(objects_view(*items), items@.len()),
    decreases items,
{
    let mut out = String::new();
    let mut i: usize = 0;
    while i < items.len()
        invariant
            i <= items.len(),
            out@ == joined_objects(objects_view(*items), i as nat),
        decreases items.len() - i,
    {
        if i > 0 {
            out.append(", ");
        }
        let item = items[i].to_text();
        out.append(item.as_str());
        proof {
            assert(objects_view(*items)[i as int] == items@[i as int]@);
            if i == 0 {
                assert(out@ =~= item@);
            }
        }
        i += 1;
    }
    out
}

/// Writes the entries of a map out, with `, ` between.
fn entries_text(entries: &Vec<(Object, Object)>) -> (r: String)
    ensures
        r@ == joined_entries(entries_view(*entries), entries@.len()),
    decreases entries,
{
    let mut out = String::new();
    let mut i: usize = 0;
    while i < entries.len()
        invariant
            i <= entries.len(),
            out@ == joined_entries(entries_view(*entries), i as nat),
        decreases entries.len() - i,
    {
        if i > 0 {
            out.append(", ");
        }
        let ghost before = out@;
        let key = entries[i].0.to_text();
        let value = entries[i].1.to_text();
        out.append(key.as_str());
        out.append(": ");
        out.append(value.as_str());
        proof {
            assert(entries_view(*entries)[i as int] == (
                entries@[i as int].0@,
                entries@[i as int].1@,
            ));
            assert(out@ =~= before + entry_text(entries_view(*entries)[i as int]));
            if i == 0 {
                assert(out@ =~= entry_text(entries_view(*entries)[0]));
            }
        }
        i += 1;
    }
    out
}

impl Object {
    /// The value written out, as it is shown to the user.
    pub fn to_text(&self) -> (r: String)
        ensures
            r@ == object_text(self@),
        decreases self,
    {
        match self {
            Object::Number(n) => n.0.clone(),
            Object::String(s) => s.clone(),
            Object::Bool(b) => if *b {
                String::from_str("true")
            } else {
                String::from_str("false")
            },
            Object::Null => String::from_str("null"),
            Object::Return(v) => v.to_text(),
            Object::Error(e) => e.clone(),
            Object::Fn(params, _, _) => {
                let mut r = String::from_str("fn(");
                r.append(names_text(params).as_str());
                r.append(") { ... }");
                r
            },
            Object::Inbuilt(_) => String::from_str("[inbuilt fn]"),
            Object::Array(items) => {
                let mut r = String::from_str("[");
                r.append(list_text(items).as_str());
                r.append("]");
                r
            },
            Object::Object(entries) => {
                let mut r = String::from_str("{");
                r.append(entries_text(entries).as_str());
                r.append("}");
                r
            },
            Object::Break => String::from_str("break"),
            Object::Continue => String::from_str("continue"),
        }
    }

    /// The name of the kind of the value, as `typeof` gives it.
    pub fn kind_name(&self) -> (r: String)
        ensures
            r@ == kind_name(self@),
    {
        match self {
            Object::Null => String::from_str("null"),
            Object::Bool(_) => String::from_str("boolean"),
            Object::Number(_) => String::from_str("number"),
            Object::String(_) => String::from_str("string"),
            Object::Array(_) => String::from_str("array"),
            Object::Object(_) => String::from_str("object"),
            _ => String::from_str("undefined"),
        }
    }
}

} // verus!
