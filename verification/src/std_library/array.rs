//! Native functions on arrays.

use crate::number::decimal_text;
use crate::number::decimal;
use crate::object::{
    clone_object, clone_objects, holds, lemma_objects_push, list_holds, object_text,
    objects_view, Object, ObjectView,
};
use crate::std_library::{Res, ResView};
use crate::store::bindings_view;
use vstd::prelude::*;
use vstd::string::*;

verus! {

/// The error for a call with the wrong number of arguments.
pub open spec fn wrong_count(got: nat, expected: Seq<char>) -> ObjectView {
    ObjectView::Error(
        "Wrong number of arguments. Got "@ + decimal(got) + ". Expected "@ + expected + "."@,
    )
}

/// The error for a first argument that is no array.
pub open spec fn not_an_array(o: ObjectView) -> ObjectView {
    ObjectView::Error("First argument must be an array. Got "@ + object_text(o))
}

/// `push`: the array with one more item at its end.
pub open spec fn push_result(args: Seq<ObjectView>) -> ObjectView {
    if args.len() != 2 {
        wrong_count(args.len(), "2"@)
    } else {
        match args[0] {
            ObjectView::Array(a) => ObjectView::Array(a.push(args[1])),
            o => not_an_array(o),
        }
    }
}

/// `pop`: the array without its last item; the empty array stays empty.
pub open spec fn pop_result(args: Seq<ObjectView>) -> ObjectView {
    if args.len() != 1 {
        wrong_count(args.len(), "1"@)
    } else {
        match args[0] {
            ObjectView::Array(a) => if a.len() == 0 {
                ObjectView::Array(a)
            } else {
                ObjectView::Array(a.drop_last())
            },
            o => not_an_array(o),
        }
    }
}

/// `tail`: the array without its first item; the empty array stays empty.
pub open spec fn tail_result(args: Seq<ObjectView>) -> ObjectView {
    if args.len() != 1 {
        wrong_count(args.len(), "1"@)
    } else {
        match args[0] {
            ObjectView::Array(a) => if a.len() == 0 {
                ObjectView::Array(a)
            } else {
                ObjectView::Array(a.drop_first())
            },
            o => not_an_array(o),
        }
    }
}

/// `includes`: whether the array holds a value equal to the second argument.
pub open spec fn includes_result(args: Seq<ObjectView>) -> ObjectView {
    if args.len() != 2 {
        wrong_count(args.len(), "2"@)
    } else {
        match args[0] {
            ObjectView::Array(a) => ObjectView::Bool(holds(a, args[1])),
            o => not_an_array(o),
        }
    }
}

/// Builds the error for a call with the wrong number of arguments.
pub fn wrong_count_error(got: usize, expected: &str) -> (r: Object)
    ensures
        r@ == wrong_count(got as nat, expected@),
{
    let mut msg = String::from_str("Wrong number of arguments. Got ");
    msg.append(decimal_text(got).as_str());
    msg.append(". Expected ");
    msg.append(expected);
    msg.append(".");
    Object::Error(msg)
}

fn not_an_array_error(o: &Object) -> (r: Object)
    ensures
        r@ == not_an_array(o@),
{
    let mut msg = String::from_str("First argument must be an array. Got ");
    msg.append(o.to_text().as_str());
    Object::Error(msg)
}

/// The names that the array library binds, each to its native function.
pub open spec fn globals() -> Seq<(Seq<char>, ObjectView)> {
    seq![
        ("pounce"@, ObjectView::Inbuilt("pop"@)),
        ("top"@, ObjectView::Inbuilt("head"@)),
        ("bottom"@, ObjectView::Inbuilt("tail"@)),
        ("push"@, ObjectView::Inbuilt("push"@)),
        ("includes"@, ObjectView::Inbuilt("includes"@)),
    ]
}

/// What the array library defines in the language itself: `map`, which
/// applies a function to each item of an array.
pub const MAP_SOURCE: &'static str = "
pawckage \"nya:clawtility\";
scratch map = pawction (arr, f) {
    scratch res = [];
    scratch iter = pawction (array) {
        purrhaps (length(array) == 0) {
            tail res;
        }
        amew res = push(res, f(array[0]));
        tail iter(bottom(array));
    };
    tail iter(arr);
};
";

/// The array library.
pub fn add_globals() -> (r: Res)
    ensures
        r@ == (ResView { globals: globals(), raw: Some(MAP_SOURCE@) }),
{
    let mut globals: Vec<(String, Object)> = Vec::new();
    globals.push((String::from_str("pounce"), Object::Inbuilt(String::from_str("pop"))));
    globals.push((String::from_str("top"), Object::Inbuilt(String::from_str("head"))));
    globals.push((String::from_str("bottom"), Object::Inbuilt(String::from_str("tail"))));
    globals.push((String::from_str("push"), Object::Inbuilt(String::from_str("push"))));
    globals.push((String::from_str("includes"), Object::Inbuilt(String::from_str("includes"))));
    proof {
        assert(bindings_view(globals@) =~= self::globals());
    }
    Res { globals, raw: Some(String::from_str(MAP_SOURCE)) }
}

/// Puts a value at the end of an array.
pub fn push(args: Vec<Object>) -> (r: Object)
    ensures
        r@ == push_result(objects_view(args)),
{
    if args.len() != 2 {
        return wrong_count_error(args.len(), "2");
    }
    match &args[0] {
        Object::Array(a) => {
            let mut array = clone_objects(a);
            let ghost before = array;
            let item = clone_object(&args[1]);
            array.push(item);
            proof {
                lemma_objects_push(before, array, item);
            }
            Object::Array(array)
        },
        o => not_an_array_error(o),
    }
}

/// Takes the last item off an array.
pub fn pop(args: Vec<Object>) -> (r: Object)
    ensures
        r@ == pop_result(objects_view(args)),
{
    if args.len() != 1 {
        return wrong_count_error(args.len(), "1");
    }
    match &args[0] {
        Object::Array(a) => {
            let mut array = clone_objects(a);
            let ghost before = array;
            if array.len() > 0 {
                array.pop();
                proof {
                    assert(objects_view(array) =~= objects_view(before).drop_last());
                }
            }
            Object::Array(array)
        },
        o => not_an_array_error(o),
    }
}

/// Takes the last item off an array, as `pop` does.
pub fn head(args: Vec<Object>) -> (r: Object)
    ensures
        r@ == pop_result(objects_view(args)),
{
    pop(args)
}

/// Takes the first item off an array.
pub fn tail(args: Vec<Object>) -> (r: Object)
    ensures
        r@ == tail_result(objects_view(args)),
{
    if args.len() != 1 {
        return wrong_count_error(args.len(), "1");
    }
    match &args[0] {
        Object::Array(a) => {
            let mut array = clone_objects(a);
            let ghost before = array;
            if array.len() > 0 {
                array.remove(0);
                proof {
                    assert(objects_view(array) =~= objects_view(before).drop_first());
                }
            }
            Object::Array(array)
        },
        o => not_an_array_error(o),
    }
}

/// Says whether an array holds a value.
pub fn includes(args: Vec<Object>) -> (r: Object)
    ensures
        r@ == includes_result(objects_view(args)),
{
    if args.len() != 2 {
        return wrong_count_error(args.len(), "2");
    }
    match &args[0] {
        Object::Array(a) => Object::Bool(list_holds(a, &args[1])),
        o => not_an_array_error(o),
    }
}

} // verus!
