//! What the operators of the language do to values.
//!
//! Everything here is decided from the operands alone. Arithmetic on two
//! numbers is not: it is named as a request and left to the embedding
//! program.

use crate::ast::{infix_symbol, Infix, Prefix};
use crate::number::{contains_text, negated, selected, text_contains, Number};
use crate::object::{
    clone_object, holds, list_holds, lookup, map_get, object_text, objects_view, opt_object_view,
    Object, ObjectView,
};
use vstd::prelude::*;
use vstd::string::*;

verus! {

/// What an infix operator gives: a value, or the request to compute on two
/// numbers.
#[derive(Debug, PartialEq)]
pub enum Computed {
    Value(Object),
    Arithmetic(Infix, Number, Number),
}

/// The mathematical model of [`Computed`].
pub enum ComputedView {
    Value(ObjectView),
    Arithmetic(Infix, Seq<char>, Seq<char>),
}

impl View for Computed {
    type V = ComputedView;

    open spec fn view(&self) -> ComputedView {
        match self {
            Computed::Value(o) => ComputedView::Value(o@),
            Computed::Arithmetic(op, a, b) => ComputedView::Arithmetic(*op, a@, b@),
        }
    }
}

/// The result of `!` on a value: true for `false` and `Null`, false for all
/// else.
pub open spec fn not_result(v: ObjectView) -> ObjectView {
    match v {
        ObjectView::Bool(b) => ObjectView::Bool(!b),
        ObjectView::Null => ObjectView::Bool(true),
        _ => ObjectView::Bool(false),
    }
}

/// The result of unary minus on a value: the negated number, or an error
/// for what is no number.
pub open spec fn minus_result(v: ObjectView) -> ObjectView {
    match v {
        ObjectView::Number(n) => ObjectView::Number(negated(n)),
        _ => ObjectView::Error("unknown operator: -"@ + object_text(v)),
    }
}

/// The result of unary plus on a value: the number itself, or an error for
/// what is no number.
pub open spec fn plus_result(v: ObjectView) -> ObjectView {
    match v {
        ObjectView::Number(n) => v,
        _ => ObjectView::Error("unknown operator: "@ + object_text(v)),
    }
}

/// The result of a prefix operator on a value. An error is handed on.
pub open spec fn prefix_result(op: Prefix, v: ObjectView) -> ObjectView {
    if v is Error {
        v
    } else {
        match op {
            Prefix::Exclamation => not_result(v),
            Prefix::Minus => minus_result(v),
            Prefix::Plus => plus_result(v),
        }
    }
}

/// The text of an operator between the texts of its operands.
pub open spec fn operation_text(l: Seq<char>, op: Infix, r: Seq<char>) -> Seq<char> {
    l + " "@ + infix_symbol(op) + " "@ + r
}

/// The error for an operator that its operands do not support.
pub open spec fn unknown_operator(l: ObjectView, op: Infix, r: ObjectView) -> ObjectView {
    ObjectView::Error("unknown operator: "@ + operation_text(object_text(l), op, object_text(r)))
}

/// The error for operands of kinds that do not go together.
pub open spec fn type_mismatch(l: ObjectView, op: Infix, r: ObjectView) -> ObjectView {
    ObjectView::Error("type mismatch: "@ + operation_text(object_text(l), op, object_text(r)))
}

/// The result of an operator on operands that are not two numbers or two
/// texts: membership of the left one among the keys of a map or the items of
/// an array, and an error for everything else.
pub open spec fn object_infix_result(op: Infix, l: ObjectView, r: ObjectView) -> ObjectView {
    if op == Infix::In {
        match r {
            ObjectView::Object(entries) => ObjectView::Bool(lookup(entries, l).is_some()),
            ObjectView::Array(items) => ObjectView::Bool(holds(items, l)),
            _ => unknown_operator(l, op, r),
        }
    } else {
        unknown_operator(l, op, r)
    }
}

/// The result of an operator on two texts: `+` joins them.
pub open spec fn string_infix_result(op: Infix, l: Seq<char>, r: Seq<char>) -> ObjectView {
    if op == Infix::Plus {
        ObjectView::String(l + r)
    } else {
        ObjectView::Error("unknown operator: "@ + operation_text(l, op, r))
    }
}

/// What an infix operator gives on two values, neither of which is an error.
pub open spec fn infix_result(op: Infix, l: ObjectView, r: ObjectView) -> ComputedView {
    match l {
        ObjectView::Number(a) => match r {
            ObjectView::Number(b) => if op == Infix::In {
                ComputedView::Value(ObjectView::Bool(contains_text(a, b)))
            } else {
                ComputedView::Arithmetic(op, a, b)
            },
            ObjectView::Object(_) => ComputedView::Value(object_infix_result(op, l, r)),
            ObjectView::Array(_) => ComputedView::Value(object_infix_result(op, l, r)),
            _ => ComputedView::Value(type_mismatch(l, op, r)),
        },
        ObjectView::String(a) => match r {
            ObjectView::String(b) => ComputedView::Value(string_infix_result(op, a, b)),
            ObjectView::Object(_) => ComputedView::Value(object_infix_result(op, l, r)),
            ObjectView::Array(_) => ComputedView::Value(object_infix_result(op, l, r)),
            _ => ComputedView::Value(type_mismatch(l, op, r)),
        },
        _ => ComputedView::Value(object_infix_result(op, l, r)),
    }
}

/// The item of an array that an index selects; `Null` where it selects none.
pub open spec fn array_index_result(items: Seq<ObjectView>, index: Seq<char>) -> ObjectView {
    match selected(items.len(), index) {
        Some(p) => items[p as int],
        None => ObjectView::Null,
    }
}

/// The result of indexing `l` by `i`.
pub open spec fn index_result(l: ObjectView, i: ObjectView) -> ObjectView {
    match l {
        ObjectView::Array(items) => match i {
            ObjectView::Number(n) => array_index_result(items, n),
            _ => ObjectView::Error("index operator not supported: "@ + object_text(l)),
        },
        ObjectView::Object(entries) => match i {
            ObjectView::Number(_) | ObjectView::Bool(_) | ObjectView::String(_) => match lookup(
                entries,
                i,
            ) {
                Some(v) => v,
                None => ObjectView::Null,
            },
            ObjectView::Error(_) => i,
            _ => ObjectView::Error("unsable as hash key: "@ + object_text(i)),
        },
        _ => ObjectView::Error(
            "unknown operator: "@ + object_text(l) + " "@ + object_text(i),
        ),
    }
}

/// The value of a call whose body gave `v`: what a `Return` carries, the
/// value itself, or `Null` for none.
pub open spec fn unwrapped(v: Option<ObjectView>) -> ObjectView {
    match v {
        Some(ObjectView::Return(o)) => *o,
        Some(o) => o,
        None => ObjectView::Null,
    }
}

/// Joins a text, the text of a value and nothing else into an error.
fn error_with(prefix: &str, v: &Object) -> (r: Object)
    ensures
        r@ == ObjectView::Error(prefix@ + object_text(v@)),
{
    let mut msg = String::from_str(prefix);
    msg.append(v.to_text().as_str());
    Object::Error(msg)
}

/// The text of an operator between the texts of its operands, behind a
/// prefix, as an error.
fn operation_error(prefix: &str, l: &str, op: Infix, r: &str) -> (e: Object)
    ensures
        e@ == ObjectView::Error(prefix@ + operation_text(l@, op, r@)),
{
    let mut msg = String::from_str(prefix);
    msg.append(l);
    msg.append(" ");
    msg.append(op.symbol());
    msg.append(" ");
    msg.append(r);
    proof {
        assert(msg@ =~= prefix@ + operation_text(l@, op, r@));
    }
    Object::Error(msg)
}

/// Evaluates `!` on a value.
pub fn eval_not_prefix_expr(expr: &Object) -> (r: Object)
    ensures
        r@ == not_result(expr@),
{
    match expr {
        Object::Bool(true) => Object::Bool(false),
        Object::Bool(false) => Object::Bool(true),
        Object::Null => Object::Bool(true),
        _ => Object::Bool(false),
    }
}

/// Evaluates unary minus on a value.
pub fn eval_minus_prefix_expr(expr: &Object) -> (r: Object)
    ensures
        r@ == minus_result(expr@),
{
    match expr {
        Object::Number(i) => Object::Number(i.negate()),
        _ => error_with("unknown operator: -", expr),
    }
}

/// Evaluates unary plus on a value.
pub fn eval_plus_prefix_expr(expr: &Object) -> (r: Object)
    ensures
        r@ == plus_result(expr@),
{
    match expr {
        Object::Number(_) => clone_object(expr),
        _ => error_with("unknown operator: ", expr),
    }
}

/// Evaluates a prefix operator on a value.
pub fn eval_prefix_expr(prefix: Prefix, expr: Object) -> (r: Object)
    ensures
        r@ == prefix_result(prefix, expr@),
{
    if expr.is_error() {
        return expr;
    }
    match prefix {
        Prefix::Exclamation => eval_not_prefix_expr(&expr),
        Prefix::Minus => eval_minus_prefix_expr(&expr),
        Prefix::Plus => eval_plus_prefix_expr(&expr),
    }
}

/// Evaluates an operator on two texts.
pub fn eval_string_infix_expr(infix: Infix, left: &str, right: &str) -> (r: Object)
    ensures
        r@ == string_infix_result(infix, left@, right@),
{
    match infix {
        Infix::Plus => {
            let mut s = String::from_str(left);
            s.append(right);
            Object::String(s)
        },
        _ => operation_error("unknown operator: ", left, infix, right),
    }
}

/// Evaluates an operator on operands that are not two numbers or two texts.
pub fn eval_object_infix_expr(infix: Infix, left: &Object, right: &Object) -> (r: Object)
    ensures
        r@ == object_infix_result(infix, left@, right@),
{
    match infix {
        Infix::In => match right {
            Object::Object(entries) => Object::Bool(map_get(entries, left).is_some()),
            Object::Array(items) => Object::Bool(list_holds(items, left)),
            _ => operation_error(
                "unknown operator: ",
                left.to_text().as_str(),
                infix,
                right.to_text().as_str(),
            ),
        },
        _ => operation_error(
            "unknown operator: ",
            left.to_text().as_str(),
            infix,
            right.to_text().as_str(),
        ),
    }
}

/// Evaluates an operator on two numbers: membership is decided on the
/// numerals; everything else is arithmetic and is named as a request.
pub fn eval_int_infix_expr(infix: Infix, left: &Number, right: &Number) -> (r: Computed)
    ensures
        r@ == infix_result(infix, ObjectView::Number(left@), ObjectView::Number(right@)),
{
    match infix {
        Infix::In => Computed::Value(
            Object::Bool(text_contains(left.0.as_str(), right.0.as_str())),
        ),
        _ => Computed::Arithmetic(infix, left.duplicate(), right.duplicate()),
    }
}

/// Evaluates an infix operator on two values, neither of which is an error.
pub fn eval_infix_expr(infix: Infix, left: &Object, right: &Object) -> (r: Computed)
    ensures
        r@ == infix_result(infix, left@, right@),
{
    match left {
        Object::Number(a) => match right {
            Object::Number(b) => eval_int_infix_expr(infix, a, b),
            Object::Object(_) => Computed::Value(eval_object_infix_expr(infix, left, right)),
            Object::Array(_) => Computed::Value(eval_object_infix_expr(infix, left, right)),
            _ => Computed::Value(
                operation_error(
                    "type mismatch: ",
                    left.to_text().as_str(),
                    infix,
                    right.to_text().as_str(),
                ),
            ),
        },
        Object::String(a) => match right {
            Object::String(b) => Computed::Value(
                eval_string_infix_expr(infix, a.as_str(), b.as_str()),
            ),
            Object::Object(_) => Computed::Value(eval_object_infix_expr(infix, left, right)),
            Object::Array(_) => Computed::Value(eval_object_infix_expr(infix, left, right)),
            _ => Computed::Value(
                operation_error(
                    "type mismatch: ",
                    left.to_text().as_str(),
                    infix,
                    right.to_text().as_str(),
                ),
            ),
        },
        _ => Computed::Value(eval_object_infix_expr(infix, left, right)),
    }
}

/// Selects the item of an array at an index: from the front for an index
/// from zero up, from the back for a negative one; `Null` beyond the end.
pub fn eval_array_index_expr(array: &Vec<Object>, index: &Number) -> (r: Object)
    ensures
        r@ == array_index_result(objects_view(*array), index@),
{
    match index.select(array.len()) {
        Some(p) => clone_object(&array[p]),
        None => Object::Null,
    }
}

/// Evaluates the indexing of `left` by `index`.
pub fn eval_index_expr(left: &Object, index: Object) -> (r: Object)
    ensures
        r@ == index_result(left@, index@),
{
    match left {
        Object::Array(arr) => match &index {
            Object::Number(i) => eval_array_index_expr(arr, i),
            _ => error_with("index operator not supported: ", left),
        },
        Object::Object(hash) => match &index {
            Object::Number(_) | Object::Bool(_) | Object::String(_) => match map_get(
                hash,
                &index,
            ) {
                Some(o) => o,
                None => Object::Null,
            },
            Object::Error(_) => index,
            _ => error_with("unsable as hash key: ", &index),
        },
        _ => {
            let mut msg = String::from_str("unknown operator: ");
            msg.append(left.to_text().as_str());
            msg.append(" ");
            msg.append(index.to_text().as_str());
            Object::Error(msg)
        },
    }
}

/// The value of a call whose body gave `obj`.
pub fn unwrap_return_value(obj: Option<Object>) -> (r: Object)
    ensures
        r@ == unwrapped(opt_object_view(obj)),
{
    match obj {
        Some(Object::Return(o)) => *o,
        Some(o) => o,
        None => Object::Null,
    }
}

} // verus!
