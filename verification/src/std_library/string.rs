//! Native functions on texts.

use crate::object::{object_text, objects_view, Object, ObjectView};
use crate::std_library::array::{wrong_count, wrong_count_error};
use crate::std_library::{Res, ResView};
use crate::store::bindings_view;
use vstd::prelude::*;
use vstd::string::*;

verus! {

/// The text `s` with each occurrence of `from` replaced by `to`, as the
/// standard library's `str::replace` gives it.
pub uninterp spec fn replaced(s: Seq<char>, from: Seq<char>, to: Seq<char>) -> Seq<char>;

/// Calls `str::replace`, which replaces all matches of a pattern in a text.
/// The result is a function of the three texts; the contract gives it the
/// name `replaced` and says no more of it.
#[verifier::external_body]
fn replace_text(s: &str, from: &str, to: &str) -> (r: String)
    ensures
        r@ == replaced(s@, from@, to@),
{
    s.replace(from, to)
}

/// The names that the text library binds, each to its native function.
pub open spec fn globals() -> Seq<(Seq<char>, ObjectView)> {
    seq![
        ("replace"@, ObjectView::Inbuilt("replace"@)),
        ("in_whiskers"@, ObjectView::Inbuilt("to_string"@)),
    ]
}

/// The text library.
pub fn add_globals() -> (r: Res)
    ensures
        r@ == (ResView { globals: globals(), raw: None }),
{
    let mut globals: Vec<(String, Object)> = Vec::new();
    globals.push((String::from_str("replace"), Object::Inbuilt(String::from_str("replace"))));
    globals.push(
        (String::from_str("in_whiskers"), Object::Inbuilt(String::from_str("to_string"))),
    );
    proof {
        assert(bindings_view(globals@) =~= self::globals());
    }
    Res { globals, raw: None }
}

/// The error for a first argument that is no text.
pub open spec fn not_a_string(o: ObjectView) -> ObjectView {
    ObjectView::Error("First argument must be a string. Got "@ + object_text(o))
}

/// `replace`: the first argument, a text, with each occurrence of the second
/// argument, written out, replaced by the third, written out.
pub open spec fn replace_result(args: Seq<ObjectView>) -> ObjectView {
    if args.len() != 3 {
        wrong_count(args.len(), "3"@)
    } else {
        match args[0] {
            ObjectView::String(s) => ObjectView::String(
                replaced(s, object_text(args[1]), object_text(args[2])),
            ),
            o => not_a_string(o),
        }
    }
}

/// The texts of the first `n` values of a list, one behind the other.
pub open spec fn concatenated(items: Seq<ObjectView>, n: nat) -> Seq<char>
    decreases n,
{
    if n == 0 || n > items.len() {
        Seq::empty()
    } else {
        concatenated(items, (n - 1) as nat) + object_text(items[n - 1])
    }
}

/// `to_string`: the argument as a text. The items of an array are written
/// one behind the other; functions are written by their kind only.
pub open spec fn to_string_result(args: Seq<ObjectView>) -> ObjectView {
    if args.len() != 1 {
        wrong_count(args.len(), "1"@)
    } else {
        match args[0] {
            ObjectView::Array(a) => ObjectView::String(concatenated(a, a.len())),
            ObjectView::Fn(_, _, _) => ObjectView::String("[Function]"@),
            ObjectView::Inbuilt(_) => ObjectView::String("[Inbuilt Function]"@),
            o => ObjectView::String(object_text(o)),
        }
    }
}

/// Replaces each occurrence of a text in a text.
pub fn replace(args: Vec<Object>) -> (r: Object)
    ensures
        r@ == replace_result(objects_view(args)),
{
    if args.len() != 3 {
        return wrong_count_error(args.len(), "3");
    }
    match &args[0] {
        Object::String(s) => Object::String(
            replace_text(s.as_str(), args[1].to_text().as_str(), args[2].to_text().as_str()),
        ),
        o => {
            let mut msg = String::from_str("First argument must be a string. Got ");
            msg.append(o.to_text().as_str());
            Object::Error(msg)
        },
    }
}

/// Writes a value out as a text.
pub fn to_string(args: Vec<Object>) -> (r: Object)
    ensures
        r@ == to_string_result(objects_view(args)),
{
    if args.len() != 1 {
        return wrong_count_error(args.len(), "1");
    }
    match &args[0] {
        Object::Array(a) => {
            let mut s = String::new();
            let mut i: usize = 0;
            while i < a.len()
                invariant
                    i <= a.len(),
                    s@ == concatenated(objects_view(*a), i as nat),
                decreases a.len() - i,
            {
                proof {
                    assert(objects_view(*a)[i as int] == a@[i as int]@);
                }
                s.append(a[i].to_text().as_str());
                i += 1;
            }
            Object::String(s)
        },
        Object::Fn(_, _, _) => Object::String(String::from_str("[Function]")),
        Object::Inbuilt(_) => Object::String(String::from_str("[Inbuilt Function]")),
        o => Object::String(o.to_text()),
    }
}

} // verus!
