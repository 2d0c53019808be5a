//! The library of mathematical functions: the names it binds.
//!
//! The functions compute on numbers and are the work of the embedding
//! program; the constants are written as numerals.

use crate::number::Number;
use crate::object::{Object, ObjectView};
use crate::std_library::{Res, ResView};
use crate::store::bindings_view;
use vstd::prelude::*;
use vstd::string::*;

verus! {

/// The numeral of the greatest finite number.
pub const GREATEST: &'static str =
    "179769313486231570000000000000000000000000000000000000000000000000000000000000000000000000000000000000000000000000000000000000000000000000000000000000000000000000000000000000000000000000000000000000000000000000000000000000000000000000000000000000000000000000000000000000000000000000000000000000000000000000000";

/// The numeral of the greatest finite number.
pub open spec fn greatest() -> Seq<char> {
    GREATEST@
}

/// The names that the library binds: each function to its native function,
/// each constant to its number.
pub open spec fn globals() -> Seq<(Seq<char>, ObjectView)> {
    seq![
        ("random"@, ObjectView::Inbuilt("random"@)),
        ("round"@, ObjectView::Inbuilt("round"@)),
        ("ceil"@, ObjectView::Inbuilt("ceil"@)),
        ("floor"@, ObjectView::Inbuilt("floor"@)),
        ("abs"@, ObjectView::Inbuilt("abs"@)),
        ("sqrt"@, ObjectView::Inbuilt("sqrt"@)),
        ("sin"@, ObjectView::Inbuilt("sin"@)),
        ("cos"@, ObjectView::Inbuilt("cos"@)),
        ("tan"@, ObjectView::Inbuilt("tan"@)),
        ("pow"@, ObjectView::Inbuilt("pow"@)),
        ("log2"@, ObjectView::Inbuilt("log2"@)),
        ("log10"@, ObjectView::Inbuilt("log10"@)),
        ("modulo"@, ObjectView::Inbuilt("modulo"@)),
        ("Math.PI"@, ObjectView::Number("3.141592653589793"@)),
        ("Math.E"@, ObjectView::Number("2.718281828459045"@)),
        ("MAX_INT"@, ObjectView::Number(greatest())),
        ("MIN_INT"@, ObjectView::Number(seq!['-'] + greatest())),
    ]
}

fn native(name: &str) -> (r: (String, Object))
    ensures
        r.0@ == name@,
        r.1@ == ObjectView::Inbuilt(name@),
{
    (String::from_str(name), Object::Inbuilt(String::from_str(name)))
}

fn constant(name: &str, numeral: &str) -> (r: (String, Object))
    ensures
        r.0@ == name@,
        r.1@ == ObjectView::Number(numeral@),
{
    (String::from_str(name), Object::Number(Number(String::from_str(numeral))))
}

/// The library of mathematical functions.
pub fn add_globals() -> (r: Res)
    ensures
        r@ == (ResView { globals: globals(), raw: None }),
{
    let mut globals: Vec<(String, Object)> = Vec::new();
    globals.push(native("random"));
    globals.push(native("round"));
    globals.push(native("ceil"));
    globals.push(native("floor"));
    globals.push(native("abs"));
    globals.push(native("sqrt"));
    globals.push(native("sin"));
    globals.push(native("cos"));
    globals.push(native("tan"));
    globals.push(native("pow"));
    globals.push(native("log2"));
    globals.push(native("log10"));
    globals.push(native("modulo"));
    globals.push(constant("Math.PI", "3.141592653589793"));
    globals.push(constant("Math.E", "2.718281828459045"));
    globals.push(constant("MAX_INT", GREATEST));
    let least = Number(String::from_str(GREATEST)).negate();
    proof {
        assert(GREATEST@ != "NaN"@) by {
            reveal_strlit("179769313486231570000000000000000000000000000000000000000000000000000000000000000000000000000000000000000000000000000000000000000000000000000000000000000000000000000000000000000000000000000000000000000000000000000000000000000000000000000000000000000000000000000000000000000000000000000000000000000000000000000");
            reveal_strlit("NaN");
        }
        assert(!crate::number::is_negative(GREATEST@)) by {
            reveal_strlit("179769313486231570000000000000000000000000000000000000000000000000000000000000000000000000000000000000000000000000000000000000000000000000000000000000000000000000000000000000000000000000000000000000000000000000000000000000000000000000000000000000000000000000000000000000000000000000000000000000000000000000000");
        }
    }
    globals.push((String::from_str("MIN_INT"), Object::Number(least)));
    proof {
        assert(bindings_view(globals@) =~= self::globals());
    }
    Res { globals, raw: None }
}

} // verus!
