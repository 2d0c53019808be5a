//! Native functions of general use.

use crate::number::{decimal, Number};
use crate::object::{object_text, objects_view, Object, ObjectView};
use crate::std_library::array::{wrong_count, wrong_count_error};
use crate::std_library::{Res, ResView};
use crate::store::bindings_view;
use vstd::prelude::*;
use vstd::string::*;

verus! {

/// The names that the library binds, each to its native function.
pub open spec fn globals() -> Seq<(Seq<char>, ObjectView)> {
    seq![
        ("length"@, ObjectView::Inbuilt("length"@)),
        ("kibble"@, ObjectView::Inbuilt("kibble"@)),
        ("nap"@, ObjectView::Inbuilt("nap"@)),
    ]
}

/// The library of general use.
pub fn add_globals() -> (r: Res)
    ensures
        r@ == (ResView { globals: globals(), raw: None }),
{
    let mut globals: Vec<(String, Object)> = Vec::new();
    globals.push((String::from_str("length"), Object::Inbuilt(String::from_str("length"))));
    globals.push((String::from_str("kibble"), Object::Inbuilt(String::from_str("kibble"))));
    globals.push((String::from_str("nap"), Object::Inbuilt(String::from_str("nap"))));
    proof {
        assert(bindings_view(globals@) =~= self::globals());
    }
    Res { globals, raw: None }
}

/// `length`: the number of items of an array, or the number of bytes that a
/// text takes in UTF-8.
pub open spec fn length_result(args: Seq<ObjectView>) -> ObjectView {
    if args.len() != 1 {
        wrong_count(args.len(), "1"@)
    } else {
        match args[0] {
            ObjectView::String(s) => ObjectView::Number(
                decimal(vstd::utf8::encode_utf8(s).len()),
            ),
            ObjectView::Array(a) => ObjectView::Number(decimal(a.len())),
            o => ObjectView::Error("Argument must be a string or array. Got "@ + object_text(o)),
        }
    }
}

/// Gives the length of an array or of a text.
pub fn length(args: Vec<Object>) -> (r: Object)
    ensures
        r@ == length_result(objects_view(args)),
{
    if args.len() != 1 {
        return wrong_count_error(args.len(), "1");
    }
    match &args[0] {
        Object::String(s) => {
            let bytes = s.as_str().as_bytes();
            proof {
                assert(bytes@ == vstd::utf8::encode_utf8(s@));
            }
            Object::Number(Number::from_usize(bytes.len()))
        },
        Object::Array(a) => {
            proof {
                assert(objects_view(*a).len() == a@.len());
            }
            Object::Number(Number::from_usize(a.len()))
        },
        o => {
            let mut msg = String::from_str("Argument must be a string or array. Got ");
            msg.append(o.to_text().as_str());
            Object::Error(msg)
        },
    }
}

} // verus!
