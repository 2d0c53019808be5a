//! The native functions that are there in every scope.

use crate::object::{Object, ObjectView};
use crate::store::bindings_view;
use vstd::prelude::*;
use vstd::string::*;

verus! {

/// The names that are bound before all scopes, each to its native function.
/// They print what they are given, which is the work of the embedding
/// program.
pub open spec fn globals() -> Seq<(Seq<char>, ObjectView)> {
    seq![("meow"@, ObjectView::Inbuilt("meow"@)), ("log"@, ObjectView::Inbuilt("log"@))]
}

/// The bindings of the native functions that are there in every scope.
pub fn new_globals() -> (r: Vec<(String, Object)>)
    ensures
        bindings_view(r@) == globals(),
{
    let mut globals: Vec<(String, Object)> = Vec::new();
    globals.push((String::from_str("meow"), Object::Inbuilt(String::from_str("meow"))));
    globals.push((String::from_str("log"), Object::Inbuilt(String::from_str("log"))));
    proof {
        assert(bindings_view(globals@) =~= self::globals());
    }
    globals
}

} // verus!
